//! Cutting text into pieces and putting pieces together.

use vstd::prelude::*;
use crate::text::{
    chars_of, find, find_is_least, is_white, occurs_at, position, push_text, same, string_of,
    strip_suffix, trim, trimmed, white, without_suffix,
};

verus! {

/// The pieces of `s` between the occurrences of `sep`, from left to right.
pub open spec fn split(s: Seq<char>, sep: Seq<char>) -> Seq<Seq<char>>
    decreases s.len(),
{
    match find(s, sep) {
        Some(i) => if sep.len() > 0 && 0 <= i && i + sep.len() <= s.len() {
            seq![s.take(i)] + split(s.skip(i + sep.len()), sep)
        } else {
            seq![s]
        },
        None => seq![s],
    }
}

/// The pieces with `sep` between each two of them.
pub open spec fn join(pieces: Seq<Seq<char>>, sep: Seq<char>) -> Seq<char>
    decreases pieces.len(),
{
    if pieces.len() == 0 {
        Seq::empty()
    } else if pieces.len() == 1 {
        pieces[0]
    } else {
        join(pieces.drop_last(), sep) + sep + pieces.last()
    }
}

/// `s` with each occurrence of `from` replaced by `to`.
pub open spec fn replace(s: Seq<char>, from: Seq<char>, to: Seq<char>) -> Seq<char> {
    join(split(s, from), to)
}

/// A line without the carriage return that its line feed ended with.
pub open spec fn without_return(line: Seq<char>) -> Seq<char> {
    match strip_suffix(line, "\r"@) {
        Some(rest) => rest,
        None => line,
    }
}

/// The lines of a text: a line ends in a line feed, or in a carriage return and a
/// line feed; the last one may end in neither.
pub open spec fn lines(s: Seq<char>) -> Seq<Seq<char>> {
    let pieces = split(s, "\n"@);
    let ended = pieces.drop_last().map_values(|line: Seq<char>| without_return(line));
    if pieces.last().len() == 0 {
        ended
    } else {
        ended.push(pieces.last())
    }
}

/// What stands before and after the first occurrence of `sep`.
pub open spec fn split_once(s: Seq<char>, sep: Seq<char>) -> Option<(Seq<char>, Seq<char>)> {
    match find(s, sep) {
        Some(i) => Some((s.take(i), s.skip(i + sep.len()))),
        None => None,
    }
}

/// What stands before and after the last occurrence of `sep`.
pub open spec fn rsplit_once(s: Seq<char>, sep: Seq<char>) -> Option<(Seq<char>, Seq<char>)> {
    match find_last(s, sep, s.len() - sep.len()) {
        Some(i) => Some((s.take(i), s.skip(i + sep.len()))),
        None => None,
    }
}

/// The last index, up to `i`, at which `part` stands in `s`.
pub open spec fn find_last(s: Seq<char>, part: Seq<char>, i: int) -> Option<int>
    decreases i + 1,
{
    if i < 0 {
        None
    } else if occurs_at(s, part, i) {
        Some(i)
    } else {
        find_last(s, part, i - 1)
    }
}

/// The maximal runs of characters that are not white space.
pub open spec fn words(s: Seq<char>) -> Seq<Seq<char>>
    decreases s.len(),
{
    if s.len() == 0 {
        Seq::empty()
    } else if is_white(s[0]) {
        words(s.skip(1))
    } else {
        let n = word_end(s, 0);
        if 0 < n <= s.len() {
            seq![s.take(n)] + words(s.skip(n))
        } else {
            Seq::empty()
        }
    }
}

/// The first index from `i` on that holds white space or ends the text.
pub open spec fn word_end(s: Seq<char>, i: int) -> int
    decreases s.len() - i,
{
    if i >= s.len() || is_white(s[i]) {
        i
    } else {
        word_end(s, i + 1)
    }
}

proof fn word_end_bounds(s: Seq<char>, i: int)
    requires
        0 <= i <= s.len(),
    ensures
        i <= word_end(s, i) <= s.len(),
        i < s.len() && !is_white(s[i]) ==> i < word_end(s, i),
    decreases s.len() - i,
{
    if i >= s.len() || is_white(s[i]) {
    } else {
        word_end_bounds(s, i + 1);
    }
}

/// Every text splits into at least one piece.
pub proof fn split_is_not_empty(s: Seq<char>, sep: Seq<char>)
    ensures
        split(s, sep).len() >= 1,
    decreases s.len(),
{
}

/// Joining the pieces with what they were split at gives the text back.
pub proof fn join_undoes_split(s: Seq<char>, sep: Seq<char>)
    ensures
        join(split(s, sep), sep) == s,
    decreases s.len(),
{
    find_is_least(s, sep, 0);
    match find(s, sep) {
        Some(i) => if sep.len() > 0 && 0 <= i && i + sep.len() <= s.len() {
            let rest = s.skip(i + sep.len());
            join_undoes_split(rest, sep);
            split_is_not_empty(rest, sep);
            join_cons(s.take(i), split(rest, sep), sep);
            assert(s.take(i) + sep + rest =~= s) by {
                assert(s.subrange(i, i + sep.len()) == sep);
            }
        } else {
            assert(join(seq![s], sep) == s);
        },
        None => {
            assert(join(seq![s], sep) == s);
        },
    }
}

/// The first occurrence of a character that does not stand in `head`.
pub proof fn find_after_head(head: Seq<char>, c: char, rest: Seq<char>)
    requires
        !head.contains(c),
    ensures
        find(head + seq![c] + rest, seq![c]) == Some(head.len() as int),
{
    let s = head + seq![c] + rest;
    find_is_least(s, seq![c], 0);
    assert(s.subrange(head.len() as int, (head.len() + 1) as int) =~= seq![c]);
    assert(occurs_at(s, seq![c], head.len() as int));
    match find(s, seq![c]) {
        Some(i) => {
            if i < head.len() {
                assert(s.subrange(i, i + 1)[0] == head[i]);
                assert(head.contains(head[i]));
            }
        },
        None => {},
    }
}

/// A text without the character has no occurrence of it.
pub proof fn find_nothing(s: Seq<char>, c: char)
    requires
        !s.contains(c),
    ensures
        find(s, seq![c]) is None,
{
    find_is_least(s, seq![c], 0);
    match find(s, seq![c]) {
        Some(i) => {
            assert(s.subrange(i, i + 1)[0] == s[i]);
            assert(s.contains(s[i]));
        },
        None => {},
    }
}

/// An empty text holds nothing but the empty text.
pub proof fn find_is_nothing_in_nothing(part: Seq<char>)
    requires
        part.len() > 0,
    ensures
        find(Seq::empty(), part) is None,
{
}

/// Splitting at a character that does not stand in the first piece.
pub proof fn split_after_head(head: Seq<char>, c: char, rest: Seq<char>)
    requires
        !head.contains(c),
    ensures
        split(head + seq![c] + rest, seq![c]) == seq![head] + split(rest, seq![c]),
{
    let s = head + seq![c] + rest;
    find_after_head(head, c, rest);
    assert(s.take(head.len() as int) =~= head);
    assert(s.skip((head.len() + 1) as int) =~= rest);
}

/// Joining a list with one more piece in front.
pub proof fn join_cons(first: Seq<char>, rest: Seq<Seq<char>>, sep: Seq<char>)
    requires
        rest.len() >= 1,
    ensures
        join(seq![first] + rest, sep) == first + sep + join(rest, sep),
    decreases rest.len(),
{
    let all = seq![first] + rest;
    assert(all.drop_last() =~= seq![first] + rest.drop_last());
    assert(all.last() == rest.last());
    if rest.len() == 1 {
        assert(rest.drop_last() =~= Seq::empty());
        assert(all.drop_last() =~= seq![first]);
        assert(join(all.drop_last(), sep) == first);
    } else {
        join_cons(first, rest.drop_last(), sep);
        assert(join(all, sep) =~= first + sep + join(rest, sep));
    }
}

/// The pieces of `text` between the occurrences of `sep`.
pub fn split_at_each(text: &str, sep: &str) -> (pieces: Vec<String>)
    ensures
        pieces.deep_view() == split(text@, sep@),
{
    let mut pieces: Vec<String> = Vec::new();
    let chars = chars_of(text);
    let n: usize = chars.len();
    let width: usize = sep.unicode_len();
    let mut start: usize = 0;
    assert(text@.skip(0) =~= text@);
    assert(pieces.deep_view() + split(text@, sep@) =~= split(text@, sep@));
    while start <= n
        invariant
            chars@ == text@,
            n == chars@.len(),
            width == sep@.len(),
            start <= n,
            pieces.deep_view() + split(text@.skip(start as int), sep@) == split(text@, sep@),
        decreases n - start,
    {
        let rest = text.substring_char(start, n);
        assert(rest@ == text@.skip(start as int));
        let found = position(rest, sep);
        let ghost before = pieces.deep_view();
        match found {
            Some(i) if width > 0 => {
                let piece = string_of(&chars, start, start + i);
                assert(piece@ =~= rest@.take(i as int));
                push_text(&mut pieces, piece);
                assert(rest@.skip(i + sep@.len()) =~= text@.skip(start + i + width));
                assert(before + (seq![piece@] + split(rest@.skip(i + sep@.len()), sep@))
                    =~= before.push(piece@) + split(rest@.skip(i + sep@.len()), sep@));
                start = start + i + width;
            },
            _ => {
                let piece = string_of(&chars, start, n);
                assert(piece@ =~= rest@);
                push_text(&mut pieces, piece);
                assert(before + seq![rest@] =~= before.push(rest@));
                return pieces;
            },
        }
    }
    pieces
}

/// The pieces with `sep` between each two of them.
pub fn join_with(pieces: &Vec<String>, sep: &str) -> (text: String)
    ensures
        text@ == join(pieces.deep_view(), sep@),
{
    let mut text = String::new();
    let mut i: usize = 0;
    while i < pieces.len()
        invariant
            i <= pieces@.len(),
            text@ == join(pieces.deep_view().take(i as int), sep@),
        decreases pieces.len() - i,
    {
        if i > 0 {
            text.append(sep);
        }
        text.append(pieces[i].as_str());
        i = i + 1;
        assert(pieces.deep_view().take(i as int).drop_last() =~= pieces.deep_view().take(i - 1));
        assert(pieces.deep_view().take(i as int).last() == pieces@[i - 1]@);
        assert(Seq::<char>::empty() + pieces@[i - 1]@ =~= pieces@[i - 1]@);
    }
    assert(pieces.deep_view().take(i as int) =~= pieces.deep_view());
    text
}

/// `text` with each occurrence of `from` replaced by `to`.
pub fn replace_all(text: &str, from: &str, to: &str) -> (r: String)
    ensures
        r@ == replace(text@, from@, to@),
{
    let pieces = split_at_each(text, from);
    join_with(&pieces, to)
}

/// The lines of `text`.
pub fn lines_of(text: &str) -> (r: Vec<String>)
    ensures
        r.deep_view() == lines(text@),
{
    let pieces = split_at_each(text, "\n");
    proof {
        split_is_not_empty(text@, "\n"@);
    }
    let ghost cut = pieces.deep_view();
    let mut r: Vec<String> = Vec::new();
    let mut i: usize = 0;
    let last: usize = pieces.len() - 1;
    let ghost ended = cut.drop_last().map_values(|line: Seq<char>| without_return(line));
    while i < last
        invariant
            i <= last,
            last + 1 == pieces@.len(),
            cut == pieces.deep_view(),
            ended == cut.drop_last().map_values(|line: Seq<char>| without_return(line)),
            r.deep_view() == ended.take(i as int),
        decreases last - i,
    {
        match without_suffix(pieces[i].as_str(), "\r") {
            Some(rest) => push_text(&mut r, rest.to_owned()),
            None => push_text(&mut r, pieces[i].clone()),
        }
        i = i + 1;
        assert(ended.take(i as int) =~= ended.take(i - 1).push(ended[i - 1]));
        assert(cut[i - 1] == pieces@[i - 1]@);
    }
    assert(ended.take(i as int) =~= ended);
    if !pieces[last].as_str().is_empty() {
        push_text(&mut r, pieces[last].clone());
    }
    r
}

/// What stands before and after the first occurrence of `sep`.
pub fn cut_at_first<'a>(text: &'a str, sep: &str) -> (r: Option<(&'a str, &'a str)>)
    ensures
        r.deep_view() == split_once(text@, sep@),
{
    match position(text, sep) {
        Some(i) => {
            let n: usize = text.unicode_len();
            let head = text.substring_char(0, i);
            let tail = text.substring_char(i + sep.unicode_len(), n);
            assert(head@ == text@.take(i as int));
            assert(tail@ == text@.skip(i + sep@.len()));
            Some((head, tail))
        },
        None => None,
    }
}

/// What stands before and after the last occurrence of `sep`.
pub fn cut_at_last<'a>(text: &'a str, sep: &str) -> (r: Option<(&'a str, &'a str)>)
    ensures
        r.deep_view() == rsplit_once(text@, sep@),
{
    let n: usize = text.unicode_len();
    let width: usize = sep.unicode_len();
    if width > n {
        return None;
    }
    let mut i: usize = n - width;
    loop
        invariant
            n == text@.len(),
            width == sep@.len(),
            i + width <= n,
            find_last(text@, sep@, text@.len() - sep@.len()) == find_last(text@, sep@, i as int),
        decreases i,
    {
        let here = text.substring_char(i, i + width);
        if same(here, sep) {
            let head = text.substring_char(0, i);
            let tail = text.substring_char(i + width, n);
            assert(head@ == text@.take(i as int));
            assert(tail@ == text@.skip(i + sep@.len()));
            return Some((head, tail));
        }
        if i == 0 {
            assert(find_last(text@, sep@, -1) is None);
            return None;
        }
        i = i - 1;
    }
}

/// The maximal runs of characters of `text` that are not white space.
pub fn words_of(text: &str) -> (r: Vec<String>)
    ensures
        r.deep_view() == words(text@),
{
    let chars = chars_of(text);
    let n: usize = chars.len();
    let mut r: Vec<String> = Vec::new();
    let mut i: usize = 0;
    assert(text@.skip(0) =~= text@);
    assert(r.deep_view() + words(text@) =~= words(text@));
    while i < n
        invariant
            chars@ == text@,
            n == chars@.len(),
            i <= n,
            r.deep_view() + words(text@.skip(i as int)) == words(text@),
        decreases n - i,
    {
        let ghost rest = text@.skip(i as int);
        if white(chars[i]) {
            assert(rest.skip(1) =~= text@.skip(i + 1));
            i = i + 1;
        } else {
            let mut j: usize = i;
            while j < n && !white(chars[j])
                invariant
                    chars@ == text@,
                    n == chars@.len(),
                    i <= j <= n,
                    rest == text@.skip(i as int),
                    word_end(rest, 0) == word_end(rest, j - i),
                decreases n - j,
            {
                assert(rest[j - i] == chars@[j as int]);
                j = j + 1;
            }
            proof {
                word_end_bounds(rest, 0);
                if j < n {
                    assert(rest[j - i] == chars@[j as int]);
                }
                assert(word_end(rest, 0) == j - i);
            }
            let ghost before = r.deep_view();
            let word = string_of(&chars, i, j);
            assert(word@ =~= rest.take(j - i));
            push_text(&mut r, word);
            assert(rest.skip(j - i) =~= text@.skip(j as int));
            assert(before + (seq![word@] + words(rest.skip(j - i))) =~= before.push(word@) + words(
                rest.skip(j - i),
            ));
            i = j;
        }
    }
    assert(text@.skip(i as int) =~= Seq::empty());
    assert(r.deep_view() + Seq::empty() =~= r.deep_view());
    r
}

/// The texts without white space at their ends, as far as something is left of them.
pub open spec fn nonempty_trimmed(list: Seq<Seq<char>>) -> Seq<Seq<char>> {
    list.map_values(|text: Seq<char>| trim(text)).filter(|text: Seq<char>| text.len() > 0)
}

/// The texts that hold more than white space.
pub open spec fn nonblank(list: Seq<Seq<char>>) -> Seq<Seq<char>> {
    list.filter(|text: Seq<char>| trim(text).len() > 0)
}

pub fn nonempty_trimmed_of(list: &Vec<String>) -> (r: Vec<String>)
    ensures
        r.deep_view() == nonempty_trimmed(list.deep_view()),
{
    let ghost cut = list.deep_view().map_values(|text: Seq<char>| trim(text));
    let ghost full = |text: Seq<char>| text.len() > 0;
    let mut r: Vec<String> = Vec::new();
    let mut i: usize = 0;
    proof {
        assert(cut.take(0).filter(full) =~= Seq::empty()) by {
            reveal(Seq::filter);
        }
    }
    while i < list.len()
        invariant
            i <= list@.len(),
            cut == list.deep_view().map_values(|text: Seq<char>| trim(text)),
            full == (|text: Seq<char>| text.len() > 0),
            r.deep_view() == cut.take(i as int).filter(full),
        decreases list.len() - i,
    {
        let text = trimmed(list[i].as_str());
        proof {
            assert(list.deep_view()[i as int] == list@[i as int]@);
            assert(cut[i as int] == text@);
            assert(cut.take(i + 1).drop_last() =~= cut.take(i as int));
            assert(cut.take(i + 1).last() == text@);
            reveal(Seq::filter);
        }
        if !text.is_empty() {
            push_text(&mut r, text.to_owned());
        }
        i = i + 1;
    }
    assert(cut.take(i as int) =~= cut);
    r
}

pub fn nonblank_of(list: &Vec<String>) -> (r: Vec<String>)
    ensures
        r.deep_view() == nonblank(list.deep_view()),
{
    let ghost all = list.deep_view();
    let ghost full = |text: Seq<char>| trim(text).len() > 0;
    let mut r: Vec<String> = Vec::new();
    let mut i: usize = 0;
    proof {
        assert(all.take(0).filter(full) =~= Seq::empty()) by {
            reveal(Seq::filter);
        }
    }
    while i < list.len()
        invariant
            i <= list@.len(),
            all == list.deep_view(),
            full == (|text: Seq<char>| trim(text).len() > 0),
            r.deep_view() == all.take(i as int).filter(full),
        decreases list.len() - i,
    {
        let text = trimmed(list[i].as_str());
        proof {
            assert(all[i as int] == list@[i as int]@);
            assert(all.take(i + 1).drop_last() =~= all.take(i as int));
            assert(all.take(i + 1).last() == all[i as int]);
            reveal(Seq::filter);
        }
        if !text.is_empty() {
            push_text(&mut r, list[i].clone());
        }
        i = i + 1;
    }
    assert(all.take(i as int) =~= all);
    r
}

/// The lines of a text without white space at their ends, as far as something is
/// left of them.
pub open spec fn trimmed_lines(s: Seq<char>) -> Seq<Seq<char>> {
    nonempty_trimmed(lines(s))
}

pub fn trimmed_lines_of(text: &str) -> (r: Vec<String>)
    ensures
        r.deep_view() == trimmed_lines(text@),
{
    let all = lines_of(text);
    nonempty_trimmed_of(&all)
}

/// What stands before the first occurrence of `sep`, or the whole text.
pub open spec fn before_first(s: Seq<char>, sep: Seq<char>) -> Seq<char> {
    match find(s, sep) {
        Some(i) => s.take(i),
        None => s,
    }
}

pub fn head_before<'a>(text: &'a str, sep: &str) -> (r: &'a str)
    ensures
        r@ == before_first(text@, sep@),
{
    match cut_at_first(text, sep) {
        Some((head, _)) => head,
        None => text,
    }
}

proof fn words_end_at_white_space(s: Seq<char>, i: int)
    requires
        0 <= i <= s.len(),
    ensures
        i <= word_end(s, i) <= s.len(),
        forall|k: int| i <= k < word_end(s, i) ==> !is_white(#[trigger] s[k]),
        word_end(s, i) < s.len() ==> is_white(s[word_end(s, i)]),
    decreases s.len() - i,
{
    if i < s.len() && !is_white(s[i]) {
        words_end_at_white_space(s, i + 1);
    }
}

/// The words of a text are what stands between its white space: the first one is what comes
/// before the first white space, and the others are those of what follows.
pub proof fn words_stand_between_white_space(word: Seq<char>, c: char, rest: Seq<char>)
    requires
        word.len() > 0,
        forall|i: int| 0 <= i < word.len() ==> !is_white(#[trigger] word[i]),
        is_white(c),
    ensures
        words(word + seq![c] + rest) == seq![word] + words(rest),
        words(word) == seq![word],
        words(seq![c] + rest) == words(rest),
        words(Seq::empty()) == Seq::<Seq<char>>::empty(),
{
    reveal_with_fuel(words, 3);
    let s = word + seq![c] + rest;
    let n = word.len() as int;
    words_end_at_white_space(s, 0);
    let e = word_end(s, 0);
    assert(s[n] == c);
    assert(e == n) by {
        if e < n {
            assert(s[e] == word[e]);
            assert(!is_white(word[e]));
        }
    }
    assert(s[0] == word[0]);
    assert(s.take(n) =~= word);
    assert(s.skip(n) =~= seq![c] + rest);
    assert(!is_white(word[0]));
    let tail = seq![c] + rest;
    assert(tail[0] == c);
    assert(tail.skip(1) =~= rest);
    words_end_at_white_space(word, 0);
    assert(word_end(word, 0) == n) by {
        if word_end(word, 0) < n {
            assert(!is_white(word[word_end(word, 0)]));
        }
    }
    assert(!is_white(word[0]));
    assert(word.take(n) =~= word);
    assert(word.skip(n) =~= Seq::empty());
    assert(words(word) =~= seq![word]);
}

/// The lines of a text are what stands before each end of a line, without a return before
/// it, and what follows the last one if anything does.
pub proof fn lines_end_with_their_ends(line: Seq<char>, rest: Seq<char>)
    requires
        !line.contains('\n'),
    ensures
        lines(line + seq!['\n'] + rest) == seq![without_return(line)] + lines(rest),
        line.len() > 0 ==> lines(line) == seq![line],
        lines(Seq::empty()) == Seq::<Seq<char>>::empty(),
{
    reveal_strlit("\n");
    assert("\n"@ =~= seq!['\n']);
    split_after_head(line, '\n', rest);
    split_is_not_empty(rest, "\n"@);
    let pieces = split(rest, "\n"@);
    let all = seq![line] + pieces;
    assert(all.last() == pieces.last());
    assert(all.drop_last() =~= seq![line] + pieces.drop_last());
    let strip = |line: Seq<char>| without_return(line);
    assert(all.drop_last().map_values(strip) =~= seq![without_return(line)]
        + pieces.drop_last().map_values(strip));
    assert(lines(line + seq!['\n'] + rest) =~= seq![without_return(line)] + lines(rest));
    find_nothing(line, '\n');
    assert(split(line, "\n"@) == seq![line]);
    assert(seq![line].drop_last().map_values(strip) =~= Seq::empty());
    if line.len() > 0 {
        assert(lines(line) =~= seq![line]);
    }
    find_is_nothing_in_nothing("\n"@);
    let none: Seq<char> = Seq::empty();
    assert(split(none, "\n"@) == seq![none]);
    assert(seq![none].drop_last().map_values(strip) =~= Seq::empty());
    assert(lines(none) =~= Seq::<Seq<char>>::empty());
}

/// The texts of a list that say something are all kept, without white space at their ends,
/// and no others.
pub proof fn texts_that_say_something_are_kept(list: Seq<Seq<char>>, text: Seq<char>)
    ensures
        nonempty_trimmed(list).contains(text) <==> text.len() > 0 && exists|i: int|
            0 <= i < list.len() && trim(#[trigger] list[i]) == text,
        nonblank(list).contains(text) <==> trim(text).len() > 0 && list.contains(text),
{
    let all = list.map_values(|text: Seq<char>| trim(text));
    let filled = |text: Seq<char>| text.len() > 0;
    let says = |text: Seq<char>| trim(text).len() > 0;
    if nonempty_trimmed(list).contains(text) {
        let k = choose|k: int|
            0 <= k < nonempty_trimmed(list).len() && nonempty_trimmed(list)[k] == text;
        all.lemma_filter_pred(filled, k);
        all.lemma_filter_contains_rev(filled, text);
        let i = choose|i: int| 0 <= i < all.len() && all[i] == text;
        assert(trim(list[i]) == text);
    }
    if text.len() > 0 && exists|i: int| 0 <= i < list.len() && trim(#[trigger] list[i]) == text {
        let i = choose|i: int| 0 <= i < list.len() && trim(#[trigger] list[i]) == text;
        assert(all[i] == text);
        all.lemma_filter_contains(filled, i);
    }
    if nonblank(list).contains(text) {
        let k = choose|k: int| 0 <= k < nonblank(list).len() && nonblank(list)[k] == text;
        list.lemma_filter_pred(says, k);
        list.lemma_filter_contains_rev(says, text);
    }
    if trim(text).len() > 0 && list.contains(text) {
        let i = choose|i: int| 0 <= i < list.len() && list[i] == text;
        list.lemma_filter_contains(says, i);
    }
}

proof fn the_last_one_is_found(s: Seq<char>, part: Seq<char>, i: int)
    ensures
        match find_last(s, part, i) {
            Some(k) => 0 <= k <= i && occurs_at(s, part, k) && forall|j: int|
                k < j <= i ==> !occurs_at(s, part, j),
            None => forall|j: int| 0 <= j <= i ==> !occurs_at(s, part, j),
        },
    decreases i + 1,
{
    if i >= 0 && !occurs_at(s, part, i) {
        the_last_one_is_found(s, part, i - 1);
    }
}

/// A text is parted at the last place where the other stands: what follows does not hold it
/// again.
pub proof fn texts_are_parted_at_the_last_place(s: Seq<char>, sep: Seq<char>)
    ensures
        rsplit_once(s, sep) is Some <==> exists|i: int| occurs_at(s, sep, i),
        rsplit_once(s, sep) matches Some((head, tail)) ==> head + sep + tail == s && forall|j: int|
            head.len() < j ==> !occurs_at(s, sep, j),
{
    the_last_one_is_found(s, sep, s.len() - sep.len());
    if let Some((head, tail)) = rsplit_once(s, sep) {
        let k = find_last(s, sep, s.len() - sep.len())->0;
        assert(s.subrange(k, k + sep.len()) == sep);
        assert(head + sep + tail =~= s) by {
            assert forall|m: int| 0 <= m < s.len() implies (head + sep + tail)[m] == s[m] by {
                if k <= m < k + sep.len() {
                    assert(s.subrange(k, k + sep.len())[m - k] == s[m]);
                }
            }
        }
    }
}

} // verus!
