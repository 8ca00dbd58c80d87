//! Words and command lines of the shell, and lists as they are shown to people.

use vstd::prelude::*;
use crate::split::{join, join_with, replace, replace_all, split, split_is_not_empty};
use crate::text::{find, find_is_least, occurs_at};

verus! {

/// `s` as one word of the shell: in single quotes, with each single quote of `s`
/// written as a quote that ends the word, a quoted quote, and a quote that goes on.
pub open spec fn shell_quoted(s: Seq<char>) -> Seq<char> {
    "'"@ + replace(s, "'"@, "'\"'\"'"@) + "'"@
}

pub fn shell_quote(s: &str) -> (r: String)
    ensures
        r@ == shell_quoted(s@),
{
    let mut r = String::from_str("'");
    let body = replace_all(s, "'", "'\"'\"'");
    r.append(body.as_str());
    r.append("'");
    r
}

/// How the shell reads on inside or outside quotes.
pub enum Quoting {
    Bare,
    Single,
    Double,
}

/// What a word stands for when the shell has removed its quotes. Covers quotes and
/// plain characters; a word that is left inside a quote, or that uses what is
/// special to the shell outside single quotes, stands for nothing.
pub open spec fn unquoted(word: Seq<char>, quoting: Quoting) -> Option<Seq<char>>
    decreases word.len(),
{
    if word.len() == 0 {
        match quoting {
            Quoting::Bare => Some(Seq::empty()),
            _ => None,
        }
    } else {
        let c = word[0];
        let rest = word.skip(1);
        match quoting {
            Quoting::Single => if c == '\'' {
                unquoted(rest, Quoting::Bare)
            } else {
                prepend(c, unquoted(rest, Quoting::Single))
            },
            Quoting::Double => if c == '"' {
                unquoted(rest, Quoting::Bare)
            } else if c == '$' || c == '`' || c == '\\' {
                None
            } else {
                prepend(c, unquoted(rest, Quoting::Double))
            },
            Quoting::Bare => if c == '\'' {
                unquoted(rest, Quoting::Single)
            } else if c == '"' {
                unquoted(rest, Quoting::Double)
            } else {
                None
            },
        }
    }
}

pub open spec fn prepend(c: char, rest: Option<Seq<char>>) -> Option<Seq<char>> {
    match rest {
        Some(rest) => Some(seq![c] + rest),
        None => None,
    }
}

/// The shell reads a quoted word as the text that was quoted.
pub proof fn quoting_keeps_the_text(s: Seq<char>)
    ensures
        unquoted(shell_quoted(s), Quoting::Bare) == Some(s),
{
    reveal_strlit("'");
    let q = "'"@;
    let body = replace(s, q, "'\"'\"'"@);
    assert(q =~= seq!['\'']);
    assert(shell_quoted(s)[0] == '\'');
    assert(shell_quoted(s).skip(1) =~= body + q);
    quoted_body(s);
}

/// Inside single quotes, the body of a quoted word stands for the text.
proof fn quoted_body(s: Seq<char>)
    ensures
        unquoted(replace(s, "'"@, "'\"'\"'"@) + "'"@, Quoting::Single) == Some(s),
    decreases s.len(),
{
    reveal_strlit("'");
    reveal_strlit("'\"'\"'");
    let q = "'"@;
    let escape = "'\"'\"'"@;
    assert(q =~= seq!['\'']);
    assert(escape =~= seq!['\'', '"', '\'', '"', '\'']);
    find_is_least(s, q, 0);
    match find(s, q) {
        Some(i) => {
            let head = s.take(i);
            let rest = s.skip(i + 1);
            let tail = replace(rest, q, escape) + q;
            quoted_body(rest);
            split_is_not_empty(rest, q);
            crate::split::join_cons(head, split(rest, q), escape);
            assert(replace(s, q, escape) + q =~= head + (escape + tail));
            assert forall|j: int| 0 <= j < head.len() implies head[j] != '\'' by {
                assert(!occurs_at(s, q, j));
                if s[j] == '\'' {
                    assert(s.subrange(j, j + 1) =~= q);
                }
            }
            assert(unquoted(escape + tail, Quoting::Single) == prepend(
                '\'',
                unquoted(tail, Quoting::Single),
            )) by {
                let a = escape + tail;
                let b = a.skip(1);
                let c = b.skip(1);
                let d = c.skip(1);
                let e = d.skip(1);
                let f = e.skip(1);
                assert(f =~= tail);
                assert(a[0] == '\'' && b[0] == '"' && c[0] == '\'' && d[0] == '"' && e[0] == '\'');
                assert(unquoted(e, Quoting::Bare) == unquoted(f, Quoting::Single));
                assert(unquoted(d, Quoting::Double) == unquoted(e, Quoting::Bare));
                assert(unquoted(c, Quoting::Double) == prepend('\'', unquoted(d, Quoting::Double)));
                assert(unquoted(b, Quoting::Bare) == unquoted(c, Quoting::Double));
                assert(unquoted(a, Quoting::Single) == unquoted(b, Quoting::Bare));
            }
            plain_body(head, escape + tail);
            assert(s.subrange(i, i + 1) == q);
            assert(head + (seq!['\''] + rest) =~= s);
        },
        None => {
            assert(replace(s, q, escape) =~= s);
            assert forall|j: int| 0 <= j < s.len() implies s[j] != '\'' by {
                assert(!occurs_at(s, q, j));
                if s[j] == '\'' {
                    assert(s.subrange(j, j + 1) =~= q);
                }
            }
            assert(unquoted(q, Quoting::Single) == Some(Seq::<char>::empty())) by {
                assert(q.skip(1) =~= Seq::empty());
                assert(unquoted(q.skip(1), Quoting::Bare) == Some(Seq::<char>::empty()));
            }
            plain_body(s, q);
            assert(s + Seq::<char>::empty() =~= s);
        },
    }
}

/// Inside single quotes, characters other than the quote stand for themselves.
proof fn plain_body(head: Seq<char>, tail: Seq<char>)
    requires
        forall|j: int| 0 <= j < head.len() ==> head[j] != '\'',
    ensures
        unquoted(head + tail, Quoting::Single) == match unquoted(tail, Quoting::Single) {
            Some(rest) => Some(head + rest),
            None => None,
        },
    decreases head.len(),
{
    if head.len() == 0 {
        assert(head + tail =~= tail);
        if let Some(rest) = unquoted(tail, Quoting::Single) {
            assert(head + rest =~= rest);
        }
    } else {
        plain_body(head.skip(1), tail);
        assert((head + tail).skip(1) =~= head.skip(1) + tail);
        assert((head + tail)[0] == head[0]);
        if let Some(rest) = unquoted(tail, Quoting::Single) {
            assert(seq![head[0]] + (head.skip(1) + rest) =~= head + rest);
        }
    }
}

/// A list in words: its items with commas, or `none`.
pub open spec fn spec_join_or_none(values: Seq<Seq<char>>) -> Seq<char> {
    if values.len() == 0 {
        "none"@
    } else {
        join(values, ", "@)
    }
}

pub fn join_or_none(values: &Vec<String>) -> (r: String)
    ensures
        r@ == spec_join_or_none(values.deep_view()),
{
    if values.is_empty() {
        String::from_str("none")
    } else {
        join_with(values, ", ")
    }
}

/// A program and its arguments as they are shown in messages.
pub open spec fn command_line(program: Seq<char>, args: Seq<Seq<char>>) -> Seq<char> {
    if args.len() == 0 {
        program
    } else {
        program + " "@ + join(args, " "@)
    }
}

pub fn pretty_cmd(program: &str, args: &Vec<String>) -> (r: String)
    ensures
        r@ == command_line(program@, args.deep_view()),
{
    let mut r = program.to_owned();
    if !args.is_empty() {
        r.append(" ");
        let rest = join_with(args, " ");
        r.append(rest.as_str());
    }
    r
}

} // verus!
