//! Character-level text operations with their specifications.

use vstd::prelude::*;
use vstd::string::StringExecFns;

verus! {

/// Appends one character to a string (`String::push`).
#[verifier::external_body]
pub(crate) fn push_char(s: &mut String, c: char)
    ensures
        final(s)@ == old(s)@.push(c),
{
    s.push(c);
}

/// The characters of a string slice, in order.
pub fn chars_of(s: &str) -> (v: Vec<char>)
    ensures
        v@ == s@,
{
    let mut v: Vec<char> = Vec::new();
    for c in it: s.chars()
        invariant
            it.seq() == s@,
            v@ == it.seq().take(it.index() as int),
    {
        v.push(c);
    }
    v
}

/// A string holding the given characters.
pub fn string_of(v: &Vec<char>) -> (s: String)
    ensures
        s@ == v@,
{
    let mut s = String::new();
    let mut i: usize = 0;
    while i < v.len()
        invariant
            i <= v.len(),
            s@ == v@.take(i as int),
        decreases v.len() - i,
    {
        push_char(&mut s, v[i]);
        i = i + 1;
    }
    s
}


/// The Unicode `White_Space` property, which `str::trim` uses.
pub open spec fn is_white_space(c: char) -> bool {
    ||| c == '\t'
    ||| c == '\n'
    ||| c == '\x0B'
    ||| c == '\x0C'
    ||| c == '\r'
    ||| c == ' '
    ||| c == '\u{85}'
    ||| c == '\u{A0}'
    ||| c == '\u{1680}'
    ||| ('\u{2000}' <= c && c <= '\u{200A}')
    ||| c == '\u{2028}'
    ||| c == '\u{2029}'
    ||| c == '\u{202F}'
    ||| c == '\u{205F}'
    ||| c == '\u{3000}'
}

/// A class of characters that a trim removes.
#[derive(Clone, Copy, Debug, PartialEq, Eq)]
pub enum CharClass {
    WhiteSpace,
    Exactly(char),
}

pub open spec fn in_class(class: CharClass, c: char) -> bool {
    match class {
        CharClass::WhiteSpace => is_white_space(c),
        CharClass::Exactly(d) => c == d,
    }
}

pub fn char_in_class(class: CharClass, c: char) -> (r: bool)
    ensures
        r == in_class(class, c),
{
    match class {
        CharClass::WhiteSpace => {
            c == '\t' || c == '\n' || c == '\x0B' || c == '\x0C' || c == '\r' || c == ' '
                || c == '\u{85}' || c == '\u{A0}' || c == '\u{1680}' || ('\u{2000}' <= c && c
                <= '\u{200A}') || c == '\u{2028}' || c == '\u{2029}' || c == '\u{202F}' || c
                == '\u{205F}' || c == '\u{3000}'
        },
        CharClass::Exactly(d) => c == d,
    }
}

/// `s` without its leading characters of the class.
pub open spec fn trim_start_class(s: Seq<char>, class: CharClass) -> Seq<char>
    decreases s.len(),
{
    if s.len() > 0 && in_class(class, s[0]) {
        trim_start_class(s.drop_first(), class)
    } else {
        s
    }
}

/// `s` without its trailing characters of the class.
pub open spec fn trim_end_class(s: Seq<char>, class: CharClass) -> Seq<char>
    decreases s.len(),
{
    if s.len() > 0 && in_class(class, s.last()) {
        trim_end_class(s.drop_last(), class)
    } else {
        s
    }
}

/// `s` without leading and trailing Unicode white space (`str::trim`).
pub open spec fn trim_ws(s: Seq<char>) -> Seq<char> {
    trim_end_class(trim_start_class(s, CharClass::WhiteSpace), CharClass::WhiteSpace)
}

/// The characters of `v` from `start` up to `end`.
pub fn sub_chars(v: &Vec<char>, start: usize, end: usize) -> (r: Vec<char>)
    requires
        start <= end <= v.len(),
    ensures
        r@ == v@.subrange(start as int, end as int),
{
    let mut r: Vec<char> = Vec::new();
    let mut i: usize = start;
    while i < end
        invariant
            start <= i <= end <= v.len(),
            r@ == v@.subrange(start as int, i as int),
        decreases end - i,
    {
        r.push(v[i]);
        i = i + 1;
    }
    r
}

/// Index of the first character of `v` at or after `from` that is not in the class.
fn skip_class_forward(v: &Vec<char>, from: usize, class: CharClass) -> (i: usize)
    requires
        from <= v.len(),
    ensures
        from <= i <= v.len(),
        trim_start_class(v@.subrange(from as int, v.len() as int), class) == v@.subrange(
            i as int,
            v.len() as int,
        ),
{
    let mut i: usize = from;
    while i < v.len() && char_in_class(class, v[i])
        invariant
            from <= i <= v.len(),
            trim_start_class(v@.subrange(from as int, v.len() as int), class)
                == trim_start_class(v@.subrange(i as int, v.len() as int), class),
        decreases v.len() - i,
    {
        assert(v@.subrange(i as int, v.len() as int).drop_first() =~= v@.subrange(
            i + 1,
            v.len() as int,
        ));
        i = i + 1;
    }
    i
}

/// Index just past the last character of `v[from..to]` that is not in the class.
fn skip_class_backward(v: &Vec<char>, from: usize, to: usize, class: CharClass) -> (j: usize)
    requires
        from <= to <= v.len(),
    ensures
        from <= j <= to,
        trim_end_class(v@.subrange(from as int, to as int), class) == v@.subrange(
            from as int,
            j as int,
        ),
{
    let mut j: usize = to;
    while j > from && char_in_class(class, v[j - 1])
        invariant
            from <= j <= to <= v.len(),
            trim_end_class(v@.subrange(from as int, to as int), class) == trim_end_class(
                v@.subrange(from as int, j as int),
                class,
            ),
        decreases j,
    {
        assert(v@.subrange(from as int, j as int).drop_last() =~= v@.subrange(
            from as int,
            j - 1,
        ));
        j = j - 1;
    }
    j
}

/// `v` without trailing characters of the class.
pub fn trim_end_chars(v: &Vec<char>, class: CharClass) -> (r: Vec<char>)
    ensures
        r@ == trim_end_class(v@, class),
{
    assert(v@.subrange(0, v.len() as int) =~= v@);
    let j = skip_class_backward(v, 0, v.len(), class);
    sub_chars(v, 0, j)
}

/// `v` without leading and trailing characters of the class.
pub fn trim_both_chars(v: &Vec<char>, class: CharClass) -> (r: Vec<char>)
    ensures
        r@ == trim_end_class(trim_start_class(v@, class), class),
{
    assert(v@.subrange(0, v.len() as int) =~= v@);
    let i = skip_class_forward(v, 0, class);
    let j = skip_class_backward(v, i, v.len(), class);
    sub_chars(v, i, j)
}

/// `str::trim`.
pub fn trim(s: &str) -> (r: String)
    ensures
        r@ == trim_ws(s@),
{
    let v = chars_of(s);
    let t = trim_both_chars(&v, CharClass::WhiteSpace);
    string_of(&t)
}

/// Whether `p` is a prefix of `s`.
pub open spec fn has_prefix(s: Seq<char>, p: Seq<char>) -> bool {
    p.len() <= s.len() && s.subrange(0, p.len() as int) == p
}

/// Whether `p` is a suffix of `s`.
pub open spec fn has_suffix(s: Seq<char>, p: Seq<char>) -> bool {
    p.len() <= s.len() && s.subrange(s.len() - p.len(), s.len() as int) == p
}

/// `s` with every leading copy of the non-empty `p` removed (`str::trim_start_matches`).
pub open spec fn strip_prefix_all(s: Seq<char>, p: Seq<char>) -> Seq<char>
    decreases s.len(),
{
    if p.len() > 0 && has_prefix(s, p) {
        strip_prefix_all(s.subrange(p.len() as int, s.len() as int), p)
    } else {
        s
    }
}

/// `s` with every trailing copy of the non-empty `p` removed (`str::trim_end_matches`).
pub open spec fn strip_suffix_all(s: Seq<char>, p: Seq<char>) -> Seq<char>
    decreases s.len(),
{
    if p.len() > 0 && has_suffix(s, p) {
        strip_suffix_all(s.subrange(0, s.len() - p.len()), p)
    } else {
        s
    }
}

/// Whether `p` occurs in `v` starting at `at`.
pub fn occurs_at(v: &Vec<char>, at: usize, p: &Vec<char>) -> (r: bool)
    requires
        at <= v.len(),
    ensures
        r == (p.len() <= v.len() - at && v@.subrange(at as int, at + p.len()) == p@),
{
    if p.len() > v.len() - at {
        return false;
    }
    let mut k: usize = 0;
    while k < p.len()
        invariant
            at <= v.len(),
            p.len() <= v.len() - at,
            k <= p.len(),
            forall|m: int| 0 <= m < k ==> v@[at + m] == p@[m],
        decreases p.len() - k,
    {
        if v[at + k] != p[k] {
            assert(v@.subrange(at as int, at + p.len())[k as int] != p@[k as int]);
            return false;
        }
        k = k + 1;
    }
    assert(v@.subrange(at as int, at + p.len()) =~= p@);
    true
}

/// Whether two character sequences are equal.
pub fn chars_eq(a: &Vec<char>, b: &Vec<char>) -> (r: bool)
    ensures
        r == (a@ == b@),
{
    if a.len() != b.len() {
        return false;
    }
    let r = occurs_at(a, 0, b);
    assert(a@.subrange(0, a.len() as int) =~= a@);
    r
}

/// Whether two string slices hold the same characters.
pub fn str_eq(a: &str, b: &str) -> (r: bool)
    ensures
        r == (a@ == b@),
{
    let va = chars_of(a);
    let vb = chars_of(b);
    chars_eq(&va, &vb)
}

/// `str::starts_with`.
pub fn str_starts_with(s: &str, p: &str) -> (r: bool)
    ensures
        r == has_prefix(s@, p@),
{
    let v = chars_of(s);
    let w = chars_of(p);
    occurs_at(&v, 0, &w)
}

/// `str::ends_with`.
pub fn str_ends_with(s: &str, p: &str) -> (r: bool)
    ensures
        r == has_suffix(s@, p@),
{
    let v = chars_of(s);
    let w = chars_of(p);
    if w.len() > v.len() {
        return false;
    }
    occurs_at(&v, v.len() - w.len(), &w)
}

/// `v` with every leading copy of `p` removed.
pub fn strip_prefix_all_chars(v: &Vec<char>, p: &Vec<char>) -> (r: Vec<char>)
    requires
        p.len() > 0,
    ensures
        r@ == strip_prefix_all(v@, p@),
{
    let mut i: usize = 0;
    assert(v@.subrange(0, v.len() as int) =~= v@);
    while occurs_at(v, i, p)
        invariant
            p.len() > 0,
            i <= v.len(),
            strip_prefix_all(v@, p@) == strip_prefix_all(v@.subrange(i as int, v.len() as int), p@),
        decreases v.len() - i,
    {
        let ghost s = v@.subrange(i as int, v.len() as int);
        assert(s.subrange(0, p.len() as int) =~= v@.subrange(i as int, i + p.len()));
        assert(s.subrange(p.len() as int, s.len() as int) =~= v@.subrange(
            i + p.len(),
            v.len() as int,
        ));
        i = i + p.len();
    }
    proof {
        let s = v@.subrange(i as int, v.len() as int);
        if p.len() <= s.len() {
            assert(s.subrange(0, p.len() as int) =~= v@.subrange(i as int, i + p.len()));
        }
    }
    sub_chars(v, i, v.len())
}

/// `v` with every trailing copy of `p` removed.
pub fn strip_suffix_all_chars(v: &Vec<char>, p: &Vec<char>) -> (r: Vec<char>)
    requires
        p.len() > 0,
    ensures
        r@ == strip_suffix_all(v@, p@),
{
    let mut j: usize = v.len();
    assert(v@.subrange(0, v.len() as int) =~= v@);
    while j >= p.len() && occurs_at(v, j - p.len(), p)
        invariant
            p.len() > 0,
            j <= v.len(),
            strip_suffix_all(v@, p@) == strip_suffix_all(v@.subrange(0, j as int), p@),
        decreases j,
    {
        let ghost s = v@.subrange(0, j as int);
        assert(s.subrange(s.len() - p.len(), s.len() as int) =~= v@.subrange(
            j - p.len(),
            j as int,
        ));
        assert(s.subrange(0, s.len() - p.len()) =~= v@.subrange(0, j - p.len()));
        j = j - p.len();
    }
    proof {
        let s = v@.subrange(0, j as int);
        if p.len() <= s.len() {
            assert(s.subrange(s.len() - p.len(), s.len() as int) =~= v@.subrange(
                j - p.len(),
                j as int,
            ));
        }
    }
    sub_chars(v, 0, j)
}

/// The character of a digit value below sixteen (lower case).
pub open spec fn hex_digit(d: nat) -> char {
    if d == 0 { '0' }
    else if d == 1 { '1' }
    else if d == 2 { '2' }
    else if d == 3 { '3' }
    else if d == 4 { '4' }
    else if d == 5 { '5' }
    else if d == 6 { '6' }
    else if d == 7 { '7' }
    else if d == 8 { '8' }
    else if d == 9 { '9' }
    else if d == 10 { 'a' }
    else if d == 11 { 'b' }
    else if d == 12 { 'c' }
    else if d == 13 { 'd' }
    else if d == 14 { 'e' }
    else { 'f' }
}

fn digit_char(d: u64) -> (c: char)
    requires
        d < 16,
    ensures
        c == hex_digit(d as nat),
{
    if d == 0 { '0' }
    else if d == 1 { '1' }
    else if d == 2 { '2' }
    else if d == 3 { '3' }
    else if d == 4 { '4' }
    else if d == 5 { '5' }
    else if d == 6 { '6' }
    else if d == 7 { '7' }
    else if d == 8 { '8' }
    else if d == 9 { '9' }
    else if d == 10 { 'a' }
    else if d == 11 { 'b' }
    else if d == 12 { 'c' }
    else if d == 13 { 'd' }
    else if d == 14 { 'e' }
    else { 'f' }
}

/// The decimal digits of `n`, as `Display` writes an unsigned integer.
pub open spec fn decimal(n: nat) -> Seq<char>
    decreases n,
{
    if n < 10 {
        seq![hex_digit(n)]
    } else {
        decimal(n / 10).push(hex_digit(n % 10))
    }
}

/// The last `width` hexadecimal digits of `n`, zero padded.
pub open spec fn hex_fixed(n: nat, width: nat) -> Seq<char>
    decreases width,
{
    if width == 0 {
        seq![]
    } else {
        hex_fixed(n / 16, (width - 1) as nat).push(hex_digit(n % 16))
    }
}

/// `n.to_string()` for an unsigned integer.
pub fn decimal_string(n: u64) -> (s: String)
    ensures
        s@ == decimal(n as nat),
{
    let mut m: u64 = n;
    let mut acc: Vec<char> = Vec::new();
    while m >= 10
        invariant
            decimal(n as nat) == decimal(m as nat) + acc@,
        decreases m,
    {
        let d = digit_char(m % 10);
        let ghost old_acc = acc@;
        acc.insert(0, d);
        assert(decimal(m as nat) == decimal((m / 10) as nat).push(d));
        assert(decimal((m / 10) as nat).push(d) + old_acc =~= decimal((m / 10) as nat) + acc@);
        m = m / 10;
    }
    let d = digit_char(m);
    let ghost old_acc = acc@;
    acc.insert(0, d);
    assert(decimal(m as nat) + old_acc =~= acc@);
    string_of(&acc)
}

/// `format!("{:016x}", n)`.
pub fn hex16_string(n: u64) -> (s: String)
    ensures
        s@ == hex_fixed(n as nat, 16),
{
    let mut m: u64 = n;
    let mut k: usize = 0;
    let mut acc: Vec<char> = Vec::new();
    while k < 16
        invariant
            k <= 16,
            hex_fixed(n as nat, 16) == hex_fixed(m as nat, (16 - k) as nat) + acc@,
        decreases 16 - k,
    {
        let d = digit_char(m % 16);
        let ghost old_acc = acc@;
        acc.insert(0, d);
        assert(hex_fixed(m as nat, (16 - k) as nat) == hex_fixed((m / 16) as nat, (16 - k - 1) as nat).push(d));
        assert(hex_fixed((m / 16) as nat, (16 - k - 1) as nat).push(d) + old_acc =~= hex_fixed((m / 16) as nat, (16 - k - 1) as nat) + acc@);
        m = m / 16;
        k = k + 1;
    }
    assert(hex_fixed(m as nat, 0) + acc@ =~= acc@);
    string_of(&acc)
}


/// `a` followed by `b`.
pub fn concat(a: &str, b: &str) -> (r: String)
    ensures
        r@ == a@ + b@,
{
    let mut r = String::from_str(a);
    r.append(b);
    r
}

/// The path that `PathBuf::push` makes of `base` and `name` on Unix: an
/// absolute `name` replaces `base`; otherwise `name` follows `base`, with a
/// `/` between them unless `base` is empty or already ends in one.
pub open spec fn path_join(base: Seq<char>, name: Seq<char>) -> Seq<char> {
    if name.len() > 0 && name[0] == '/' {
        name
    } else if base.len() == 0 || base.last() == '/' {
        base + name
    } else {
        base + seq!['/'] + name
    }
}

/// `Path::join` on Unix, over the paths' text.
pub fn join_path(base: &str, name: &str) -> (r: String)
    ensures
        r@ == path_join(base@, name@),
{
    let b = chars_of(base);
    let n = chars_of(name);
    if n.len() > 0 && n[0] == '/' {
        return String::from_str(name);
    }
    let mut r = String::from_str(base);
    if b.len() > 0 && b[b.len() - 1] != '/' {
        push_char(&mut r, '/');
    }
    r.append(name);
    r
}


/// The strings of `s` joined by `sep` (`[String]::join`).
pub open spec fn join_lines(s: Seq<Seq<char>>, sep: Seq<char>) -> Seq<char>
    decreases s.len(),
{
    if s.len() == 0 {
        Seq::empty()
    } else if s.len() == 1 {
        s[0]
    } else {
        join_lines(s.drop_last(), sep) + sep + s.last()
    }
}

/// The text views of a sequence of strings.
pub open spec fn views(s: Seq<String>) -> Seq<Seq<char>> {
    s.map_values(|x: String| x@)
}

/// `parts.join(sep)`.
pub fn join_strings(parts: &Vec<String>, sep: &str) -> (r: String)
    ensures
        r@ == join_lines(views(parts@), sep@),
{
    let mut r = String::new();
    let mut i: usize = 0;
    while i < parts.len()
        invariant
            i <= parts.len(),
            r@ == join_lines(views(parts@).take(i as int), sep@),
        decreases parts.len() - i,
    {
        let ghost prefix = views(parts@).take(i as int);
        let ghost next = views(parts@).take(i + 1);
        assert(next.drop_last() =~= prefix);
        if i > 0 {
            r.append(sep);
        }
        r.append(parts[i].as_str());
        i = i + 1;
    }
    assert(views(parts@).take(parts.len() as int) =~= views(parts@));
    r
}

} // verus!
