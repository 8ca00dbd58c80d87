//! Text as a sequence of characters: the operations on strings that the rest of
//! the library is written with, each tied to a spec function over `Seq<char>`.

use vstd::prelude::*;

verus! {

/// `String::push` appends one character at the end of the string.
pub assume_specification[ String::push ](text: &mut String, ch: char)
    ensures
        final(text)@ == old(text)@.push(ch),
;

/// The characters of `text`, in order.
pub fn chars_of(text: &str) -> (chars: Vec<char>)
    ensures
        chars@ == text@,
{
    let mut chars: Vec<char> = Vec::new();
    for ch in it: text.chars()
        invariant
            chars@ == it.seq().take(it.index() as int),
            it.seq() == text@,
    {
        chars.push(ch);
    }
    chars
}

/// The string made of the characters of `chars` from `from` up to, not with, `to`.
pub fn string_of(chars: &Vec<char>, from: usize, to: usize) -> (text: String)
    requires
        from <= to <= chars@.len(),
    ensures
        text@ == chars@.subrange(from as int, to as int),
{
    let mut text = String::new();
    let mut i: usize = from;
    while i < to
        invariant
            from <= i <= to <= chars@.len(),
            text@ == chars@.subrange(from as int, i as int),
        decreases to - i,
    {
        text.push(chars[i]);
        i = i + 1;
    }
    text
}

/// Whether two strings hold the same characters.
pub fn same(a: &str, b: &str) -> (equal: bool)
    ensures
        equal == (a@ == b@),
{
    a.to_owned() == b.to_owned()
}

/// Adds a string at the end of a list of strings.
pub fn push_text(list: &mut Vec<String>, text: String)
    ensures
        final(list).deep_view() == old(list).deep_view().push(text@),
        final(list)@ == old(list)@.push(text),
{
    list.push(text);
    assert(list.deep_view() =~= old(list).deep_view().push(text@));
}

/// A copy of a list of strings.
pub fn copy_texts(list: &Vec<String>) -> (copy: Vec<String>)
    ensures
        copy.deep_view() == list.deep_view(),
{
    let mut copy: Vec<String> = Vec::new();
    let mut i: usize = 0;
    while i < list.len()
        invariant
            i <= list.len(),
            copy.deep_view() == list.deep_view().take(i as int),
        decreases list.len() - i,
    {
        push_text(&mut copy, list[i].clone());
        i = i + 1;
        assert(list.deep_view().take(i as int) =~= list.deep_view().take(i - 1).push(
            list.deep_view()[i - 1],
        ));
    }
    assert(list.deep_view().take(i as int) =~= list.deep_view());
    copy
}

/// Whether `text` is one of the strings of `list`.
pub fn contains_text(list: &Vec<String>, text: &str) -> (found: bool)
    ensures
        found == list.deep_view().contains(text@),
{
    let mut i: usize = 0;
    while i < list.len()
        invariant
            i <= list.len(),
            forall|j: int| 0 <= j < i ==> list.deep_view()[j] != text@,
        decreases list.len() - i,
    {
        if same(list[i].as_str(), text) {
            assert(list.deep_view()[i as int] == text@);
            return true;
        }
        i = i + 1;
    }
    false
}

/// A copy of an optional string.
pub fn copy_opt(text: &Option<String>) -> (copy: Option<String>)
    ensures
        copy.deep_view() == text.deep_view(),
{
    match text {
        Some(text) => Some(text.clone()),
        None => None,
    }
}

/// Whether two optional strings are both absent or hold the same characters.
pub fn same_opt(a: &Option<String>, b: &Option<String>) -> (equal: bool)
    ensures
        equal == (a.deep_view() == b.deep_view()),
{
    match (a, b) {
        (Some(a), Some(b)) => same(a.as_str(), b.as_str()),
        (None, None) => true,
        _ => false,
    }
}

/// The view of a result whose error is a message.
pub open spec fn outcome<T: DeepView>(result: Result<T, String>) -> Result<T::V, Seq<char>> {
    match result {
        Ok(value) => Ok(value.deep_view()),
        Err(message) => Err(message@),
    }
}

// ---------------------------------------------------------------------------
// Characters
// ---------------------------------------------------------------------------

/// The characters with the Unicode property `White_Space`.
pub open spec fn is_white(c: char) -> bool {
    ||| 0x9 <= c as u32 <= 0xD
    ||| c as u32 == 0x20
    ||| c as u32 == 0x85
    ||| c as u32 == 0xA0
    ||| c as u32 == 0x1680
    ||| 0x2000 <= c as u32 <= 0x200A
    ||| c as u32 == 0x2028
    ||| c as u32 == 0x2029
    ||| c as u32 == 0x202F
    ||| c as u32 == 0x205F
    ||| c as u32 == 0x3000
}

pub open spec fn is_digit(c: char) -> bool {
    '0' <= c <= '9'
}

pub open spec fn is_lower(c: char) -> bool {
    'a' <= c <= 'z'
}

pub open spec fn is_upper(c: char) -> bool {
    'A' <= c <= 'Z'
}

pub open spec fn is_alphanumeric(c: char) -> bool {
    is_digit(c) || is_lower(c) || is_upper(c)
}

/// The lower-case form of an ASCII letter; any other character is its own.
pub open spec fn lower(c: char) -> char {
    if is_upper(c) {
        (c as u32 + 32) as char
    } else {
        c
    }
}

pub fn white(c: char) -> (b: bool)
    ensures
        b == is_white(c),
{
    let n: u32 = c as u32;
    (0x9 <= n && n <= 0xD) || n == 0x20 || n == 0x85 || n == 0xA0 || n == 0x1680 || (0x2000 <= n
        && n <= 0x200A) || n == 0x2028 || n == 0x2029 || n == 0x202F || n == 0x205F || n == 0x3000
}

pub fn digit(c: char) -> (b: bool)
    ensures
        b == is_digit(c),
{
    '0' <= c && c <= '9'
}

pub fn lower_case(c: char) -> (b: bool)
    ensures
        b == is_lower(c),
{
    'a' <= c && c <= 'z'
}

pub fn upper_case(c: char) -> (b: bool)
    ensures
        b == is_upper(c),
{
    'A' <= c && c <= 'Z'
}

pub fn alphanumeric(c: char) -> (b: bool)
    ensures
        b == is_alphanumeric(c),
{
    digit(c) || lower_case(c) || upper_case(c)
}

pub fn to_lower(c: char) -> (r: char)
    ensures
        r == lower(c),
{
    if upper_case(c) {
        let n: u8 = c as u8;
        (n + 32) as char
    } else {
        c
    }
}

/// The text with every ASCII letter in lower case.
pub open spec fn lowered(s: Seq<char>) -> Seq<char> {
    s.map_values(|c: char| lower(c))
}

pub fn to_ascii_lowercase(text: &str) -> (r: String)
    ensures
        r@ == lowered(text@),
{
    let chars = chars_of(text);
    let mut r = String::new();
    let mut i: usize = 0;
    while i < chars.len()
        invariant
            i <= chars@.len(),
            r@ == lowered(chars@.take(i as int)),
        decreases chars.len() - i,
    {
        r.push(to_lower(chars[i]));
        i = i + 1;
        assert(lowered(chars@.take(i as int)) =~= lowered(chars@.take(i - 1)).push(
            lower(chars@[i - 1]),
        ));
    }
    assert(chars@.take(i as int) =~= text@);
    r
}

/// Whether two strings differ at most in the case of ASCII letters.
pub fn eq_ignore_ascii_case(a: &str, b: &str) -> (equal: bool)
    ensures
        equal == (lowered(a@) == lowered(b@)),
{
    to_ascii_lowercase(a) == to_ascii_lowercase(b)
}

// ---------------------------------------------------------------------------
// Prefixes, suffixes and occurrences
// ---------------------------------------------------------------------------

pub open spec fn starts_with(s: Seq<char>, prefix: Seq<char>) -> bool {
    prefix.len() <= s.len() && s.take(prefix.len() as int) == prefix
}

pub open spec fn ends_with(s: Seq<char>, suffix: Seq<char>) -> bool {
    suffix.len() <= s.len() && s.skip(s.len() - suffix.len()) == suffix
}

/// What follows the prefix, where the text has it.
pub open spec fn strip_prefix(s: Seq<char>, prefix: Seq<char>) -> Option<Seq<char>> {
    if starts_with(s, prefix) {
        Some(s.skip(prefix.len() as int))
    } else {
        None
    }
}

/// What precedes the suffix, where the text has it.
pub open spec fn strip_suffix(s: Seq<char>, suffix: Seq<char>) -> Option<Seq<char>> {
    if ends_with(s, suffix) {
        Some(s.take(s.len() - suffix.len()))
    } else {
        None
    }
}

/// Whether `part` stands in `s` at index `i`.
pub open spec fn occurs_at(s: Seq<char>, part: Seq<char>, i: int) -> bool {
    0 <= i && i + part.len() <= s.len() && s.subrange(i, i + part.len()) == part
}

/// The first index, from `i` on, at which `part` stands in `s`.
pub open spec fn find_from(s: Seq<char>, part: Seq<char>, i: int) -> Option<int>
    decreases s.len() - i,
{
    if i + part.len() > s.len() || i > s.len() {
        None
    } else if occurs_at(s, part, i) {
        Some(i)
    } else if i == s.len() {
        None
    } else {
        find_from(s, part, i + 1)
    }
}

/// The first index at which `part` stands in `s`.
pub open spec fn find(s: Seq<char>, part: Seq<char>) -> Option<int> {
    find_from(s, part, 0)
}

pub open spec fn contains(s: Seq<char>, part: Seq<char>) -> bool {
    exists|i: int| occurs_at(s, part, i)
}

/// What `find_from` returns is the least index, and it finds one where there is one.
pub proof fn find_is_least(s: Seq<char>, part: Seq<char>, from: int)
    requires
        0 <= from,
    ensures
        match find_from(s, part, from) {
            Some(i) => from <= i && occurs_at(s, part, i) && forall|j: int|
                from <= j < i ==> !occurs_at(s, part, j),
            None => forall|j: int| from <= j ==> !occurs_at(s, part, j),
        },
    decreases s.len() - from,
{
    if from + part.len() > s.len() || from > s.len() {
    } else if occurs_at(s, part, from) {
    } else if from == s.len() {
    } else {
        find_is_least(s, part, from + 1);
        match find_from(s, part, from) {
            Some(i) => {
                assert forall|j: int| from <= j < i implies !occurs_at(s, part, j) by {
                    if j > from {
                        assert(from + 1 <= j);
                    }
                }
            },
            None => {
                assert forall|j: int| from <= j implies !occurs_at(s, part, j) by {
                    if j > from {
                        assert(from + 1 <= j);
                    }
                }
            },
        }
    }
}

/// A text holds `part` exactly where `find` gives an index.
pub proof fn find_agrees_with_contains(s: Seq<char>, part: Seq<char>)
    ensures
        contains(s, part) == (find(s, part) is Some),
{
    find_is_least(s, part, 0);
    if find(s, part) is Some {
        assert(occurs_at(s, part, find(s, part)->0));
    }
}

pub fn has_prefix(text: &str, prefix: &str) -> (b: bool)
    ensures
        b == starts_with(text@, prefix@),
{
    let n: usize = prefix.unicode_len();
    if n <= text.unicode_len() {
        let head = text.substring_char(0, n);
        assert(head@ == text@.take(n as int));
        same(head, prefix)
    } else {
        false
    }
}

pub fn has_suffix(text: &str, suffix: &str) -> (b: bool)
    ensures
        b == ends_with(text@, suffix@),
{
    let n: usize = suffix.unicode_len();
    let total: usize = text.unicode_len();
    if n <= total {
        let tail = text.substring_char(total - n, total);
        assert(tail@ == text@.skip(text@.len() - suffix@.len()));
        same(tail, suffix)
    } else {
        false
    }
}

pub fn without_prefix<'a>(text: &'a str, prefix: &str) -> (rest: Option<&'a str>)
    ensures
        rest.deep_view() == strip_prefix(text@, prefix@),
{
    if has_prefix(text, prefix) {
        let total: usize = text.unicode_len();
        let rest = text.substring_char(prefix.unicode_len(), total);
        assert(rest@ == text@.skip(prefix@.len() as int));
        Some(rest)
    } else {
        None
    }
}

pub fn without_suffix<'a>(text: &'a str, suffix: &str) -> (rest: Option<&'a str>)
    ensures
        rest.deep_view() == strip_suffix(text@, suffix@),
{
    if has_suffix(text, suffix) {
        let rest = text.substring_char(0, text.unicode_len() - suffix.unicode_len());
        assert(rest@ == text@.take(text@.len() - suffix@.len()));
        Some(rest)
    } else {
        None
    }
}

/// Whether `part` stands in `chars` at index `i`.
fn stands_at(chars: &Vec<char>, part: &Vec<char>, i: usize) -> (b: bool)
    requires
        i + part@.len() <= chars@.len(),
    ensures
        b == occurs_at(chars@, part@, i as int),
{
    let total: usize = chars.len();
    let mut k: usize = 0;
    while k < part.len()
        invariant
            total == chars@.len(),
            i + part@.len() <= total,
            k <= part@.len(),
            forall|j: int| 0 <= j < k ==> chars@[i + j] == part@[j],
        decreases part.len() - k,
    {
        if chars[i + k] != part[k] {
            assert(chars@.subrange(i as int, i + part@.len())[k as int] != part@[k as int]);
            return false;
        }
        k = k + 1;
    }
    assert(chars@.subrange(i as int, i + part@.len()) =~= part@);
    true
}

/// The first index at which `part` stands in `text`, counted in characters.
pub fn position(text: &str, part: &str) -> (r: Option<usize>)
    ensures
        match r {
            Some(i) => find(text@, part@) == Some(i as int) && i + part@.len() <= text@.len(),
            None => find(text@, part@) is None,
        },
{
    let chars = chars_of(text);
    let sought = chars_of(part);
    if sought.len() > chars.len() {
        return None;
    }
    let last: usize = chars.len() - sought.len();
    let mut i: usize = 0;
    while i <= last
        invariant
            chars@ == text@,
            sought@ == part@,
            last + part@.len() == text@.len(),
            i <= last + 1,
            find(text@, part@) == find_from(text@, part@, i as int),
        decreases last + 1 - i,
    {
        if stands_at(&chars, &sought, i) {
            return Some(i);
        }
        if i == last {
            assert(find_from(text@, part@, i as int) is None) by {
                reveal_with_fuel(find_from, 2);
            }
            return None;
        }
        i = i + 1;
    }
    None
}

pub fn has_part(text: &str, part: &str) -> (b: bool)
    ensures
        b == contains(text@, part@),
{
    proof {
        find_agrees_with_contains(text@, part@);
    }
    position(text, part).is_some()
}

// ---------------------------------------------------------------------------
// Trimming
// ---------------------------------------------------------------------------

/// A set of characters to cut off the ends of a text.
#[derive(Clone, Copy)]
pub enum CharClass {
    White,
    Is(char),
}

impl CharClass {
    pub open spec fn has(self, c: char) -> bool {
        match self {
            CharClass::White => is_white(c),
            CharClass::Is(own) => own == c,
        }
    }

    pub fn holds(self, c: char) -> (b: bool)
        ensures
            b == self.has(c),
    {
        match self {
            CharClass::White => white(c),
            CharClass::Is(own) => own == c,
        }
    }
}

/// The text without its leading characters of the class.
pub open spec fn cut_start(s: Seq<char>, class: CharClass) -> Seq<char>
    decreases s.len(),
{
    if s.len() > 0 && class.has(s[0]) {
        cut_start(s.skip(1), class)
    } else {
        s
    }
}

/// The text without its trailing characters of the class.
pub open spec fn cut_end(s: Seq<char>, class: CharClass) -> Seq<char>
    decreases s.len(),
{
    if s.len() > 0 && class.has(s.last()) {
        cut_end(s.drop_last(), class)
    } else {
        s
    }
}

/// The text without the characters of the class at either end.
pub open spec fn cut(s: Seq<char>, class: CharClass) -> Seq<char> {
    cut_end(cut_start(s, class), class)
}

/// The text without white space at either end.
pub open spec fn trim(s: Seq<char>) -> Seq<char> {
    cut(s, CharClass::White)
}

pub fn trim_start_of<'a>(text: &'a str, class: CharClass) -> (r: &'a str)
    ensures
        r@ == cut_start(text@, class),
{
    let chars = chars_of(text);
    let n: usize = chars.len();
    let mut i: usize = 0;
    assert(text@.skip(0) =~= text@);
    while i < n && class.holds(chars[i])
        invariant
            chars@ == text@,
            n == chars@.len(),
            i <= n,
            cut_start(text@, class) == cut_start(text@.skip(i as int), class),
        decreases n - i,
    {
        assert(text@.skip(i as int).skip(1) =~= text@.skip(i + 1));
        i = i + 1;
    }
    let r = text.substring_char(i, n);
    assert(r@ == text@.skip(i as int));
    r
}

pub fn trim_end_of<'a>(text: &'a str, class: CharClass) -> (r: &'a str)
    ensures
        r@ == cut_end(text@, class),
{
    let chars = chars_of(text);
    let mut n: usize = chars.len();
    assert(text@.take(n as int) =~= text@);
    while n > 0 && class.holds(chars[n - 1])
        invariant
            chars@ == text@,
            n <= chars@.len(),
            cut_end(text@, class) == cut_end(text@.take(n as int), class),
        decreases n,
    {
        assert(text@.take(n as int).drop_last() =~= text@.take(n - 1));
        n = n - 1;
    }
    let r = text.substring_char(0, n);
    assert(r@ == text@.take(n as int));
    r
}

pub fn trim_of<'a>(text: &'a str, class: CharClass) -> (r: &'a str)
    ensures
        r@ == cut(text@, class),
{
    trim_end_of(trim_start_of(text, class), class)
}

pub fn trimmed<'a>(text: &'a str) -> (r: &'a str)
    ensures
        r@ == trim(text@),
{
    trim_of(text, CharClass::White)
}

/// A text without characters of the class at its ends is left as it is.
pub proof fn cut_is_identity(s: Seq<char>, class: CharClass)
    requires
        s.len() > 0 ==> !class.has(s[0]) && !class.has(s.last()),
    ensures
        cut(s, class) == s,
{
}

/// What is cut holds no character of the class at its ends.
pub proof fn cut_ends(s: Seq<char>, class: CharClass)
    ensures
        cut(s, class).len() > 0 ==> !class.has(cut(s, class)[0]) && !class.has(
            cut(s, class).last(),
        ),
        cut(s, class).len() <= s.len(),
        forall|i: int| 0 <= i < cut(s, class).len() ==> s.contains(#[trigger] cut(s, class)[i]),
{
    cut_start_head(s, class);
    cut_end_last(cut_start(s, class), class);
    let mid = cut_start(s, class);
    assert forall|i: int| 0 <= i < cut(s, class).len() implies s.contains(
        #[trigger] cut(s, class)[i],
    ) by {
        assert(mid.contains(cut(s, class)[i]));
        let k = mid.index_of(cut(s, class)[i]);
        assert(s.contains(mid[k]));
    }
}

proof fn cut_start_head(s: Seq<char>, class: CharClass)
    ensures
        cut_start(s, class).len() > 0 ==> !class.has(cut_start(s, class)[0]),
        cut_start(s, class).len() <= s.len(),
        forall|i: int|
            0 <= i < cut_start(s, class).len() ==> s.contains(#[trigger] cut_start(s, class)[i]),
    decreases s.len(),
{
    if s.len() > 0 && class.has(s[0]) {
        cut_start_head(s.skip(1), class);
        assert forall|i: int| 0 <= i < cut_start(s, class).len() implies s.contains(
            #[trigger] cut_start(s, class)[i],
        ) by {
            let k = s.skip(1).index_of(cut_start(s, class)[i]);
            assert(s.skip(1).contains(cut_start(s, class)[i]));
            assert(s[k + 1] == cut_start(s, class)[i]);
        }
    }
}

proof fn cut_end_last(s: Seq<char>, class: CharClass)
    ensures
        cut_end(s, class).len() > 0 ==> !class.has(cut_end(s, class).last()),
        cut_end(s, class).len() > 0 ==> cut_end(s, class)[0] == s[0],
        cut_end(s, class).len() <= s.len(),
        forall|i: int|
            0 <= i < cut_end(s, class).len() ==> s.contains(#[trigger] cut_end(s, class)[i]),
    decreases s.len(),
{
    if s.len() > 0 && class.has(s.last()) {
        cut_end_last(s.drop_last(), class);
        assert forall|i: int| 0 <= i < cut_end(s, class).len() implies s.contains(
            #[trigger] cut_end(s, class)[i],
        ) by {
            let k = s.drop_last().index_of(cut_end(s, class)[i]);
            assert(s.drop_last().contains(cut_end(s, class)[i]));
            assert(s[k] == cut_end(s, class)[i]);
        }
    }
}

proof fn only_the_class_is_cut_at_the_start(s: Seq<char>, class: CharClass) -> (n: int)
    ensures
        0 <= n <= s.len(),
        cut_start(s, class) == s.skip(n),
        forall|k: int| 0 <= k < n ==> class.has(#[trigger] s[k]),
        n < s.len() ==> !class.has(s[n]),
    decreases s.len(),
{
    if s.len() > 0 && class.has(s[0]) {
        let rest = s.skip(1);
        let m = only_the_class_is_cut_at_the_start(rest, class);
        assert(rest.skip(m) =~= s.skip(m + 1));
        assert forall|k: int| 0 <= k < m + 1 implies class.has(#[trigger] s[k]) by {
            if k > 0 {
                assert(rest[k - 1] == s[k]);
            }
        }
        if m < rest.len() {
            assert(rest[m] == s[m + 1]);
        }
        m + 1
    } else {
        assert(s.skip(0) =~= s);
        0
    }
}

proof fn only_the_class_is_cut_at_the_end(s: Seq<char>, class: CharClass) -> (n: int)
    ensures
        0 <= n <= s.len(),
        cut_end(s, class) == s.take(n),
        forall|k: int| n <= k < s.len() ==> class.has(#[trigger] s[k]),
        n > 0 ==> !class.has(s[n - 1]),
    decreases s.len(),
{
    if s.len() > 0 && class.has(s.last()) {
        let rest = s.drop_last();
        let n = only_the_class_is_cut_at_the_end(rest, class);
        assert(rest.take(n) =~= s.take(n));
        assert forall|k: int| n <= k < s.len() implies class.has(#[trigger] s[k]) by {
            if k < rest.len() {
                assert(rest[k] == s[k]);
            }
        }
        n
    } else {
        assert(s.take(s.len() as int) =~= s);
        s.len() as int
    }
}

/// What is cut off at the ends of a text is of the class that is cut off, and all of it is:
/// what is left is the part between the first and the last character of another class.
pub proof fn only_the_ends_are_cut(s: Seq<char>, class: CharClass)
    ensures
        exists|i: int, j: int|
            0 <= i <= j <= s.len() && cut(s, class) == #[trigger] s.subrange(i, j) && (forall|k: int|
                0 <= k < i ==> class.has(#[trigger] s[k])) && (forall|k: int|
                j <= k < s.len() ==> class.has(#[trigger] s[k])) && (i < j ==> !class.has(s[i])
                && !class.has(s[j - 1])),
        cut(s, class).len() == 0 <==> forall|k: int| 0 <= k < s.len() ==> class.has(#[trigger] s[k]),
{
    let n = only_the_class_is_cut_at_the_start(s, class);
    let rest = cut_start(s, class);
    let m = only_the_class_is_cut_at_the_end(rest, class);
    assert(rest.take(m) =~= s.subrange(n, n + m));
    assert forall|k: int| n + m <= k < s.len() implies class.has(#[trigger] s[k]) by {
        assert(rest[k - n] == s[k]);
    }
    if m > 0 {
        assert(rest[0] == s[n]);
        assert(rest[m - 1] == s[n + m - 1]);
    }
    if cut(s, class).len() > 0 {
        assert(!class.has(s[n]));
    }
}

} // verus!
