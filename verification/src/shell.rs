//! Quoting arguments for `/bin/sh`, as the in-container exec helper does
//! when it wraps a command in a pseudo-terminal.

use vstd::prelude::*;
use vstd::string::StringExecFns;

use crate::text::{chars_of, join_lines, join_strings, push_char, string_of, views};

verus! {

/// What one character of a value becomes inside single quotes: a quote
/// closes the quoting, is given inside double quotes, and reopens it.
pub open spec fn quote_piece(c: char) -> Seq<char> {
    if c == '\'' {
        seq!['\'', '"', '\'', '"', '\'']
    } else {
        seq![c]
    }
}

pub open spec fn quote_body(s: Seq<char>) -> Seq<char>
    decreases s.len(),
{
    if s.len() == 0 {
        Seq::empty()
    } else {
        quote_piece(s[0]) + quote_body(s.drop_first())
    }
}

/// A value as one shell word: `''` when empty, else the value in single
/// quotes with each quote written as `'"'"'`.
pub open spec fn shell_quoted(s: Seq<char>) -> Seq<char> {
    if s.len() == 0 {
        seq!['\'', '\'']
    } else {
        seq!['\''] + quote_body(s) + seq!['\'']
    }
}

proof fn lemma_quote_body_push(s: Seq<char>, c: char)
    ensures
        quote_body(s.push(c)) == quote_body(s) + quote_piece(c),
    decreases s.len(),
{
    if s.len() == 0 {
        assert(s.push(c).drop_first() =~= Seq::<char>::empty());
        assert(quote_body(Seq::<char>::empty()) == Seq::<char>::empty());
        assert(quote_piece(c) + Seq::<char>::empty() =~= quote_piece(c));
    } else {
        lemma_quote_body_push(s.drop_first(), c);
        assert(s.push(c).drop_first() =~= s.drop_first().push(c));
        assert(s.push(c)[0] == s[0]);
        assert(quote_piece(s[0]) + (quote_body(s.drop_first()) + quote_piece(c)) =~= quote_piece(
            s[0],
        ) + quote_body(s.drop_first()) + quote_piece(c));
    }
}

pub fn shell_quote(value: &str) -> (r: String)
    ensures
        r@ == shell_quoted(value@),
{
    let v = chars_of(value);
    if v.len() == 0 {
        let mut e = String::new();
        push_char(&mut e, '\'');
        push_char(&mut e, '\'');
        return e;
    }
    let mut out: Vec<char> = Vec::new();
    out.push('\'');
    let mut i: usize = 0;
    while i < v.len()
        invariant
            i <= v.len(),
            out@ == seq!['\''] + quote_body(v@.take(i as int)),
        decreases v.len() - i,
    {
        let c = v[i];
        proof {
            lemma_quote_body_push(v@.take(i as int), c);
            assert(v@.take(i + 1) =~= v@.take(i as int).push(c));
        }
        let ghost before = out@;
        if c == '\'' {
            out.push('\'');
            out.push('"');
            out.push('\'');
            out.push('"');
            out.push('\'');
        } else {
            out.push(c);
        }
        assert(out@ =~= before + quote_piece(c));
        i = i + 1;
    }
    out.push('\'');
    assert(v@.take(v.len() as int) =~= v@);
    string_of(&out)
}

/// Where a POSIX shell is while reading a word.
#[derive(Clone, Copy, Debug, PartialEq, Eq, Structural)]
pub enum QuoteState {
    Unquoted,
    Single,
    Double,
}

/// The word being read, which a quote starts even when it stays empty.
pub open spec fn word_text(word: Option<Seq<char>>) -> Seq<char> {
    match word {
        Some(w) => w,
        None => Seq::empty(),
    }
}

/// The words `sh` reads from a command line made of quoted parts and
/// spaces, after the words already read: a space outside quotes ends the
/// word being read; inside single quotes every character stands for
/// itself; inside double quotes every character but `$`, a backquote and
/// `\` does.  Other text outside quotes, or a line left inside quotes, is
/// not read here.
pub open spec fn read_words(
    s: Seq<char>,
    state: QuoteState,
    word: Option<Seq<char>>,
    words: Seq<Seq<char>>,
) -> Option<Seq<Seq<char>>>
    decreases s.len(),
{
    if s.len() == 0 {
        if state == QuoteState::Unquoted {
            match word {
                Some(w) => Some(words.push(w)),
                None => Some(words),
            }
        } else {
            None
        }
    } else {
        let c = s[0];
        let rest = s.drop_first();
        match state {
            QuoteState::Unquoted => if c == ' ' {
                match word {
                    Some(w) => read_words(rest, QuoteState::Unquoted, None, words.push(w)),
                    None => read_words(rest, QuoteState::Unquoted, None, words),
                }
            } else if c == '\'' {
                read_words(rest, QuoteState::Single, Some(word_text(word)), words)
            } else if c == '"' {
                read_words(rest, QuoteState::Double, Some(word_text(word)), words)
            } else {
                None
            },
            QuoteState::Single => if c == '\'' {
                read_words(rest, QuoteState::Unquoted, word, words)
            } else {
                read_words(rest, QuoteState::Single, Some(word_text(word).push(c)), words)
            },
            QuoteState::Double => if c == '"' {
                read_words(rest, QuoteState::Unquoted, word, words)
            } else if c == '\\' || c == '$' || c == '`' {
                None
            } else {
                read_words(rest, QuoteState::Double, Some(word_text(word).push(c)), words)
            },
        }
    }
}

/// The words of a whole command line.
pub open spec fn shell_words(s: Seq<char>) -> Option<Seq<Seq<char>>> {
    read_words(s, QuoteState::Unquoted, None, Seq::empty())
}

proof fn lemma_read_quote_body(v: Seq<char>, t: Seq<char>, acc: Seq<char>, ws: Seq<Seq<char>>)
    ensures
        read_words(quote_body(v) + t, QuoteState::Single, Some(acc), ws) == read_words(
            t,
            QuoteState::Single,
            Some(acc + v),
            ws,
        ),
    decreases v.len(),
{
    if v.len() == 0 {
        assert(quote_body(v) + t =~= t);
        assert(acc + v =~= acc);
    } else {
        let c = v[0];
        let v2 = v.drop_first();
        lemma_read_quote_body(v2, t, acc.push(c), ws);
        assert(acc.push(c) + v2 =~= acc + v);
        let x = quote_body(v2) + t;
        assert(quote_body(v) + t =~= quote_piece(c) + x);
        if c == '\'' {
            let s0 = quote_piece(c) + x;
            let s1 = seq!['"', '\'', '"', '\''] + x;
            let s2 = seq!['\'', '"', '\''] + x;
            let s3 = seq!['"', '\''] + x;
            let s4 = seq!['\''] + x;
            assert(s0[0] == '\'' && s0.drop_first() =~= s1);
            assert(s1[0] == '"' && s1.drop_first() =~= s2);
            assert(s2[0] == '\'' && s2.drop_first() =~= s3);
            assert(s3[0] == '"' && s3.drop_first() =~= s4);
            assert(s4[0] == '\'' && s4.drop_first() =~= x);
            let a1 = Some(acc.push('\''));
            assert(read_words(s4, QuoteState::Unquoted, a1, ws) == read_words(
                x,
                QuoteState::Single,
                a1,
                ws,
            ));
            assert(read_words(s3, QuoteState::Double, a1, ws) == read_words(
                s4,
                QuoteState::Unquoted,
                a1,
                ws,
            ));
            assert(read_words(s2, QuoteState::Double, Some(acc), ws) == read_words(
                s3,
                QuoteState::Double,
                a1,
                ws,
            ));
            assert(read_words(s1, QuoteState::Unquoted, Some(acc), ws) == read_words(
                s2,
                QuoteState::Double,
                Some(acc),
                ws,
            ));
            assert(read_words(s0, QuoteState::Single, Some(acc), ws) == read_words(
                s1,
                QuoteState::Unquoted,
                Some(acc),
                ws,
            ));
        } else {
            let s0 = quote_piece(c) + x;
            assert(s0[0] == c && s0.drop_first() =~= x);
            assert(read_words(s0, QuoteState::Single, Some(acc), ws) == read_words(
                x,
                QuoteState::Single,
                Some(acc.push(c)),
                ws,
            ));
        }
    }
}

/// A quoted value, read between words, is read as one word holding the value.
proof fn lemma_read_quoted_word(v: Seq<char>, t: Seq<char>, ws: Seq<Seq<char>>)
    ensures
        read_words(shell_quoted(v) + t, QuoteState::Unquoted, None, ws) == read_words(
            t,
            QuoteState::Unquoted,
            Some(v),
            ws,
        ),
{
    let e = Seq::<char>::empty();
    let q = shell_quoted(v) + t;
    if v.len() == 0 {
        let t1 = seq!['\''] + t;
        assert(q[0] == '\'' && q.drop_first() =~= t1);
        assert(t1[0] == '\'' && t1.drop_first() =~= t);
        assert(v =~= e);
        assert(read_words(t1, QuoteState::Single, Some(e), ws) == read_words(
            t,
            QuoteState::Unquoted,
            Some(e),
            ws,
        ));
    } else {
        let t1 = seq!['\''] + t;
        assert(q[0] == '\'' && q.drop_first() =~= quote_body(v) + t1);
        lemma_read_quote_body(v, t1, e, ws);
        assert(e + v =~= v);
        assert(t1[0] == '\'' && t1.drop_first() =~= t);
        assert(read_words(t1, QuoteState::Single, Some(v), ws) == read_words(
            t,
            QuoteState::Unquoted,
            Some(v),
            ws,
        ));
    }
}

/// Reading a quoted value back gives the value as a single word: a quoted
/// argument reaches the command unchanged.
pub proof fn lemma_shell_quote_reads_back(v: Seq<char>)
    ensures
        shell_words(shell_quoted(v)) == Some(seq![v]),
{
    let e = Seq::<char>::empty();
    lemma_read_quoted_word(v, e, Seq::empty());
    assert(shell_quoted(v) + e =~= shell_quoted(v));
    assert(Seq::<Seq<char>>::empty().push(v) =~= seq![v]);
}

/// Each argument quoted, separated by spaces.
pub open spec fn quoted_command(args: Seq<Seq<char>>) -> Seq<char> {
    join_lines(args.map_values(|a: Seq<char>| shell_quoted(a)), " "@)
}

pub fn shell_quote_command(args: &Vec<String>) -> (r: String)
    ensures
        r@ == quoted_command(views(args@)),
{
    let mut quoted: Vec<String> = Vec::new();
    let mut i: usize = 0;
    while i < args.len()
        invariant
            i <= args.len(),
            views(quoted@) == views(args@).take(i as int).map_values(|a: Seq<char>| shell_quoted(a)),
        decreases args.len() - i,
    {
        let q = shell_quote(args[i].as_str());
        let ghost before = views(quoted@);
        quoted.push(q);
        assert(views(quoted@) =~= before.push(q@));
        assert(views(args@).take(i + 1).map_values(|a: Seq<char>| shell_quoted(a)) =~= views(
            args@,
        ).take(i as int).map_values(|a: Seq<char>| shell_quoted(a)).push(
            shell_quoted(args@[i as int]@),
        ));
        i = i + 1;
    }
    assert(views(args@).take(args.len() as int) =~= views(args@));
    join_strings(&quoted, " ")
}

/// `join_lines` read from the front: the first string, the separator,
/// and the rest joined.
proof fn lemma_join_front(s: Seq<Seq<char>>, sep: Seq<char>)
    requires
        s.len() >= 2,
    ensures
        join_lines(s, sep) == s[0] + sep + join_lines(s.drop_first(), sep),
    decreases s.len(),
{
    let d = s.drop_first();
    if s.len() == 2 {
        assert(s.drop_last().len() == 1);
        assert(d.len() == 1);
        assert(join_lines(s.drop_last(), sep) == s[0]);
        assert(join_lines(d, sep) == d[0]);
    } else {
        lemma_join_front(s.drop_last(), sep);
        assert(s.drop_last().drop_first() =~= d.drop_last());
        assert(d.last() == s.last());
        assert(s[0] + sep + join_lines(d.drop_last(), sep) + sep + s.last() =~= s[0] + sep + (
        join_lines(d.drop_last(), sep) + sep + d.last()));
    }
}

proof fn lemma_read_command(args: Seq<Seq<char>>, ws: Seq<Seq<char>>)
    ensures
        read_words(quoted_command(args), QuoteState::Unquoted, None, ws) == Some(ws + args),
    decreases args.len(),
{
    let sp = " "@;
    let qs = args.map_values(|a: Seq<char>| shell_quoted(a));
    let e = Seq::<char>::empty();
    reveal_strlit(" ");
    if args.len() == 0 {
        assert(qs.len() == 0);
        assert(ws + args =~= ws);
    } else if args.len() == 1 {
        assert(quoted_command(args) == shell_quoted(args[0]));
        lemma_read_quoted_word(args[0], e, ws);
        assert(shell_quoted(args[0]) + e =~= shell_quoted(args[0]));
        assert(ws.push(args[0]) =~= ws + args);
    } else {
        let rest = args.drop_first();
        lemma_join_front(qs, sp);
        assert(qs.drop_first() =~= rest.map_values(|a: Seq<char>| shell_quoted(a)));
        let tail = quoted_command(rest);
        assert(quoted_command(args) =~= shell_quoted(args[0]) + (sp + tail));
        lemma_read_quoted_word(args[0], sp + tail, ws);
        let t = sp + tail;
        assert(t[0] == ' ' && t.drop_first() =~= tail);
        lemma_read_command(rest, ws.push(args[0]));
        assert(ws.push(args[0]) + rest =~= ws + args);
    }
}

/// The quoted command reads back, word for word, as the arguments it was
/// made of.
pub proof fn lemma_quoted_command_reads_back(args: Seq<Seq<char>>)
    ensures
        shell_words(quoted_command(args)) == Some(args),
{
    lemma_read_command(args, Seq::empty());
    assert(Seq::<Seq<char>>::empty() + args =~= args);
}

/// The `/bin/sh -lc` script that runs a command under `script` so that it
/// gets a pseudo-terminal, with the transcript sent to standard error.
pub open spec fn pty_wrapper(args: Seq<Seq<char>>) -> Seq<char> {
    "exec script -qefc "@ + shell_quoted(quoted_command(args)) + " /dev/null >&2"@
}

pub fn pty_wrapper_command(args: &Vec<String>) -> (r: String)
    ensures
        r@ == pty_wrapper(views(args@)),
{
    let command = shell_quote_command(args);
    let mut r = String::from_str("exec script -qefc ");
    r.append(shell_quote(command.as_str()).as_str());
    r.append(" /dev/null >&2");
    r
}

} // verus!
