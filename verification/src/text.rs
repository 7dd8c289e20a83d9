//! Text primitives: the string operations that the rest of the crate is
//! written with, each specified over the sequence of characters of its
//! arguments.

use vstd::prelude::*;

verus! {

broadcast use vstd::seq_lib::group_seq_properties;

// ---------------------------------------------------------------- std items

/// `String::push`: appends the character to the end of the string.
pub assume_specification[ String::push ](buffer: &mut String, c: char)
    ensures
        final(buffer)@ == old(buffer)@.push(c),
;

/// `char::is_whitespace`: true exactly for the code points that carry the
/// Unicode `White_Space` property.
pub assume_specification[ char::is_whitespace ](c: char) -> (yes: bool)
    ensures
        yes == is_white_space(c),
;

/// The code points with the `White_Space` property.
pub open spec fn is_white_space(c: char) -> bool {
    let code = c as int;
    ||| 0x09 <= code <= 0x0d
    ||| code == 0x20
    ||| code == 0x85
    ||| code == 0xa0
    ||| code == 0x1680
    ||| 0x2000 <= code <= 0x200a
    ||| code == 0x2028
    ||| code == 0x2029
    ||| code == 0x202f
    ||| code == 0x205f
    ||| code == 0x3000
}

/// The text that `str::to_lowercase` returns for `text`.
pub uninterp spec fn lowercase(text: Seq<char>) -> Seq<char>;

/// The text that `str::to_uppercase` returns for `text`.
pub uninterp spec fn uppercase(text: Seq<char>) -> Seq<char>;

/// True when every character is in the ASCII range.
pub open spec fn is_ascii_text(text: Seq<char>) -> bool {
    forall|i: int| 0 <= i < text.len() ==> (#[trigger] text[i] as int) < 128
}

/// The lowercase form of one ASCII character.
pub open spec fn ascii_lower(c: char) -> char {
    if 'A' <= c && c <= 'Z' {
        ((c as int) + 32) as char
    } else {
        c
    }
}

/// The uppercase form of one ASCII character.
pub open spec fn ascii_upper(c: char) -> char {
    if 'a' <= c && c <= 'z' {
        ((c as int) - 32) as char
    } else {
        c
    }
}

/// Calls `str::to_lowercase`. The result is the Unicode lowercase mapping of
/// the text and depends on nothing else; on ASCII text that mapping is the
/// letter-by-letter one.
#[verifier::external_body]
pub(crate) fn lower(text: &str) -> (lowered: String)
    ensures
        lowered@ == lowercase(text@),
        is_ascii_text(text@) ==> lowered@ == text@.map_values(|c: char| ascii_lower(c)),
{
    text.to_lowercase()
}

/// Calls `str::to_uppercase`. The result is the Unicode uppercase mapping of
/// the text and depends on nothing else; on ASCII text that mapping is the
/// letter-by-letter one.
#[verifier::external_body]
pub(crate) fn upper(text: &str) -> (raised: String)
    ensures
        raised@ == uppercase(text@),
        is_ascii_text(text@) ==> raised@ == text@.map_values(|c: char| ascii_upper(c)),
{
    text.to_uppercase()
}

// ---------------------------------------------------------------- views

/// The view of an optional string.
pub open spec fn opt_text(text: Option<String>) -> Option<Seq<char>> {
    match text {
        Some(t) => Some(t@),
        None => None,
    }
}

/// The view of an optional string slice.
pub open spec fn opt_str(text: Option<&str>) -> Option<Seq<char>> {
    match text {
        Some(t) => Some(t@),
        None => None,
    }
}

/// The views of a list of strings.
pub open spec fn texts(list: Seq<String>) -> Seq<Seq<char>> {
    list.map_values(|s: String| s@)
}

// ---------------------------------------------------------------- building

/// The characters of a text, one per element.
pub fn chars_of(text: &str) -> (chars: Vec<char>)
    ensures
        chars@ == text@,
{
    let mut chars: Vec<char> = Vec::new();
    for c in it: text.chars()
        invariant
            it.seq() == text@,
            chars@ == text@.take(it.index()),
    {
        chars.push(c);
    }
    chars
}

/// The text made of the characters `chars[from..to]`.
pub fn text_between(chars: &Vec<char>, from: usize, to: usize) -> (text: String)
    requires
        from <= to <= chars.len(),
    ensures
        text@ == chars@.subrange(from as int, to as int),
{
    let mut text = String::new();
    let mut i: usize = from;
    while i < to
        invariant
            from <= i <= to <= chars.len(),
            text@ == chars@.subrange(from as int, i as int),
        decreases to - i,
    {
        text.push(chars[i]);
        i = i + 1;
    }
    text
}

/// A copy of a text.
pub fn copy(text: &str) -> (copied: String)
    ensures
        copied@ == text@,
{
    text.to_owned()
}

/// An owned copy of an optional text.
pub fn copy_opt(text: Option<&str>) -> (copied: Option<String>)
    ensures
        opt_text(copied) == opt_str(text),
{
    match text {
        Some(t) => Some(copy(t)),
        None => None,
    }
}

/// Borrow an optional string as a slice.
pub fn as_slice(text: &Option<String>) -> (slice: Option<&str>)
    ensures
        opt_str(slice) == opt_text(*text),
{
    match text {
        Some(t) => Some(t.as_str()),
        None => None,
    }
}

/// A copy of a list of strings.
pub fn copy_list(list: &Vec<String>) -> (copied: Vec<String>)
    ensures
        copied@ == list@,
{
    let mut copied: Vec<String> = Vec::new();
    let mut i: usize = 0;
    while i < list.len()
        invariant
            i <= list.len(),
            copied@ == list@.take(i as int),
        decreases list.len() - i,
    {
        copied.push(list[i].clone());
        i = i + 1;
    }
    copied
}

// ---------------------------------------------------------------- equality

/// Do two texts hold the same characters?
pub fn same(left: &str, right: &str) -> (yes: bool)
    ensures
        yes == (left@ == right@),
{
    let a = chars_of(left);
    let b = chars_of(right);
    if a.len() != b.len() {
        return false;
    }
    let mut i: usize = 0;
    while i < a.len()
        invariant
            i <= a.len(),
            a@ == left@,
            b@ == right@,
            a.len() == b.len(),
            a@.take(i as int) == b@.take(i as int),
        decreases a.len() - i,
    {
        if a[i] != b[i] {
            return false;
        }
        proof {
            assert(a@.take(i + 1) =~= a@.take(i as int).push(a@[i as int]));
            assert(b@.take(i + 1) =~= b@.take(i as int).push(b@[i as int]));
        }
        i = i + 1;
    }
    assert(a@.take(i as int) =~= a@);
    assert(b@.take(i as int) =~= b@);
    true
}

// ---------------------------------------------------------------- searching

/// `needle` stands in `text` at position `at`.
pub open spec fn stands_at(text: Seq<char>, needle: Seq<char>, at: int) -> bool {
    0 <= at && at + needle.len() <= text.len() && text.subrange(at, at + needle.len()) == needle
}

/// `needle` stands somewhere in `text`.
pub open spec fn has_text(text: Seq<char>, needle: Seq<char>) -> bool {
    exists|at: int| stands_at(text, needle, at)
}

/// Do the characters of `needle` stand at position `at` of `chars`?
fn matches_at(chars: &Vec<char>, needle: &Vec<char>, at: usize) -> (yes: bool)
    requires
        at + needle.len() <= chars.len(),
    ensures
        yes == stands_at(chars@, needle@, at as int),
{
    let mut i: usize = 0;
    while i < needle.len()
        invariant
            i <= needle.len(),
            at + needle.len() <= chars.len(),
            forall|k: int| 0 <= k < i ==> chars@[at + k] == #[trigger] needle@[k],
        decreases needle.len() - i,
    {
        if chars[at + i] != needle[i] {
            proof {
                assert(chars@.subrange(at as int, at + needle@.len())[i as int] != needle@[i as int]);
            }
            return false;
        }
        i = i + 1;
    }
    assert(chars@.subrange(at as int, at + needle@.len()) =~= needle@);
    true
}

/// `text.contains(needle)`.
pub fn contains(text: &str, needle: &str) -> (yes: bool)
    ensures
        yes == has_text(text@, needle@),
{
    let chars = chars_of(text);
    let wanted = chars_of(needle);
    if wanted.len() > chars.len() {
        return false;
    }
    let last: usize = chars.len() - wanted.len();
    let mut at: usize = 0;
    while at <= last
        invariant
            chars@ == text@,
            wanted@ == needle@,
            wanted.len() <= chars.len(),
            last == chars.len() - wanted.len(),
            at <= last + 1,
            forall|k: int| 0 <= k < at ==> !stands_at(text@, needle@, k),
        decreases last + 1 - at,
    {
        if matches_at(&chars, &wanted, at) {
            return true;
        }
        if at == last {
            assert forall|k: int| !stands_at(text@, needle@, k) by {}
            return false;
        }
        at = at + 1;
    }
    false
}

/// The position of the first `wanted` in the text.
pub open spec fn is_first_at(text: Seq<char>, wanted: char, at: int) -> bool {
    &&& 0 <= at < text.len()
    &&& text[at] == wanted
    &&& forall|k: int| 0 <= k < at ==> text[k] != wanted
}

/// The position of the last `wanted` in the text.
pub open spec fn is_last_at(text: Seq<char>, wanted: char, at: int) -> bool {
    &&& 0 <= at < text.len()
    &&& text[at] == wanted
    &&& forall|k: int| at < k < text.len() ==> text[k] != wanted
}

/// Find the first occurrence of a character.
pub fn find_char(chars: &Vec<char>, wanted: char) -> (found: Option<usize>)
    ensures
        match found {
            Some(at) => is_first_at(chars@, wanted, at as int),
            None => !chars@.contains(wanted),
        },
{
    let mut i: usize = 0;
    while i < chars.len()
        invariant
            i <= chars.len(),
            forall|k: int| 0 <= k < i ==> chars@[k] != wanted,
        decreases chars.len() - i,
    {
        if chars[i] == wanted {
            return Some(i);
        }
        i = i + 1;
    }
    None
}

/// Find the last occurrence of a character.
pub fn rfind_char(chars: &Vec<char>, wanted: char) -> (found: Option<usize>)
    ensures
        match found {
            Some(at) => is_last_at(chars@, wanted, at as int),
            None => !chars@.contains(wanted),
        },
{
    let mut i: usize = chars.len();
    while i > 0
        invariant
            i <= chars.len(),
            forall|k: int| i <= k < chars.len() ==> chars@[k] != wanted,
        decreases i,
    {
        i = i - 1;
        if chars[i] == wanted {
            return Some(i);
        }
    }
    None
}

/// `text.contains(c)`.
pub fn contains_char(text: &str, wanted: char) -> (yes: bool)
    ensures
        yes == text@.contains(wanted),
{
    let chars = chars_of(text);
    find_char(&chars, wanted).is_some()
}

/// The position of the first `wanted`, where there is one.
pub open spec fn first_index(text: Seq<char>, wanted: char) -> int {
    choose|at: int| is_first_at(text, wanted, at)
}

/// The position of the last `wanted`, where there is one.
pub open spec fn last_index(text: Seq<char>, wanted: char) -> int {
    choose|at: int| is_last_at(text, wanted, at)
}

/// The parts before and after the first separator.
pub open spec fn split_at_first(text: Seq<char>, separator: char) -> Option<(Seq<char>, Seq<char>)> {
    if text.contains(separator) {
        let at = first_index(text, separator);
        Some((text.take(at), text.skip(at + 1)))
    } else {
        None
    }
}

/// The parts before and after the last separator.
pub open spec fn split_at_last(text: Seq<char>, separator: char) -> Option<(Seq<char>, Seq<char>)> {
    if text.contains(separator) {
        let at = last_index(text, separator);
        Some((text.take(at), text.skip(at + 1)))
    } else {
        None
    }
}

/// The two views of a pair of texts.
pub open spec fn opt_pair(pair: Option<(String, String)>) -> Option<(Seq<char>, Seq<char>)> {
    match pair {
        Some((left, right)) => Some((left@, right@)),
        None => None,
    }
}

/// `text.split_once(separator)`.
pub fn split_once(text: &str, separator: char) -> (parts: Option<(String, String)>)
    ensures
        opt_pair(parts) == split_at_first(text@, separator),
{
    let chars = chars_of(text);
    match find_char(&chars, separator) {
        Some(at) => {
            let before = text_between(&chars, 0, at);
            let after = text_between(&chars, at + 1, chars.len());
            proof {
                assert(text@[at as int] == separator);
                assert(is_first_at(text@, separator, at as int));
                let other = first_index(text@, separator);
                assert(is_first_at(text@, separator, other));
                assert(other == at);
                assert(before@ =~= text@.take(at as int));
                assert(after@ =~= text@.skip(at + 1));
            }
            Some((before, after))
        },
        None => None,
    }
}

/// `text.rsplit_once(separator)`.
pub fn rsplit_once(text: &str, separator: char) -> (parts: Option<(String, String)>)
    ensures
        opt_pair(parts) == split_at_last(text@, separator),
{
    let chars = chars_of(text);
    match rfind_char(&chars, separator) {
        Some(at) => {
            let before = text_between(&chars, 0, at);
            let after = text_between(&chars, at + 1, chars.len());
            proof {
                assert(text@[at as int] == separator);
                assert(is_last_at(text@, separator, at as int));
                let other = last_index(text@, separator);
                assert(is_last_at(text@, separator, other));
                assert(other == at);
                assert(before@ =~= text@.take(at as int));
                assert(after@ =~= text@.skip(at + 1));
            }
            Some((before, after))
        },
        None => None,
    }
}

/// The text begins with `prefix`.
pub open spec fn begins_with(text: Seq<char>, prefix: Seq<char>) -> bool {
    prefix.len() <= text.len() && text.take(prefix.len() as int) == prefix
}

/// The text ends with `suffix`.
pub open spec fn finishes_with(text: Seq<char>, suffix: Seq<char>) -> bool {
    suffix.len() <= text.len() && text.skip(text.len() - suffix.len()) == suffix
}

/// `text.starts_with(prefix)`.
pub fn starts_with(text: &str, prefix: &str) -> (yes: bool)
    ensures
        yes == begins_with(text@, prefix@),
{
    let chars = chars_of(text);
    let wanted = chars_of(prefix);
    if wanted.len() > chars.len() {
        return false;
    }
    assert(text@.take(prefix@.len() as int) =~= text@.subrange(0, prefix@.len() as int));
    matches_at(&chars, &wanted, 0)
}

/// `text.ends_with(suffix)`.
pub fn ends_with(text: &str, suffix: &str) -> (yes: bool)
    ensures
        yes == finishes_with(text@, suffix@),
{
    let chars = chars_of(text);
    let wanted = chars_of(suffix);
    if wanted.len() > chars.len() {
        return false;
    }
    let at: usize = chars.len() - wanted.len();
    assert(text@.skip(at as int) =~= text@.subrange(at as int, at + suffix@.len()));
    matches_at(&chars, &wanted, at)
}

/// `text.strip_prefix(prefix)`.
pub fn strip_prefix(text: &str, prefix: &str) -> (rest: Option<String>)
    ensures
        opt_text(rest) == (if begins_with(text@, prefix@) {
            Some(text@.skip(prefix@.len() as int))
        } else {
            None
        }),
{
    if starts_with(text, prefix) {
        let chars = chars_of(text);
        let wanted = chars_of(prefix);
        let rest = text_between(&chars, wanted.len(), chars.len());
        assert(rest@ =~= text@.skip(prefix@.len() as int));
        Some(rest)
    } else {
        None
    }
}

// ---------------------------------------------------------------- joining

/// Two texts, one behind the other.
pub fn join2(a: &str, b: &str) -> (text: String)
    ensures
        text@ == a@ + b@,
{
    let mut text = copy(a);
    text.append(b);
    text
}

/// Three texts, one behind the other.
pub fn join3(a: &str, b: &str, c: &str) -> (text: String)
    ensures
        text@ == a@ + b@ + c@,
{
    let mut text = copy(a);
    text.append(b);
    text.append(c);
    text
}

/// Four texts, one behind the other.
pub fn join4(a: &str, b: &str, c: &str, d: &str) -> (text: String)
    ensures
        text@ == a@ + b@ + c@ + d@,
{
    let mut text = join3(a, b, c);
    text.append(d);
    text
}

/// Five texts, one behind the other.
pub fn join5(a: &str, b: &str, c: &str, d: &str, e: &str) -> (text: String)
    ensures
        text@ == a@ + b@ + c@ + d@ + e@,
{
    let mut text = join4(a, b, c, d);
    text.append(e);
    text
}

// ---------------------------------------------------------------- trimming

/// The text without its leading white space.
pub open spec fn trimmed_start(text: Seq<char>) -> Seq<char>
    decreases text.len(),
{
    if text.len() > 0 && is_white_space(text[0]) {
        trimmed_start(text.skip(1))
    } else {
        text
    }
}

/// The text without its trailing white space.
pub open spec fn trimmed_end(text: Seq<char>) -> Seq<char>
    decreases text.len(),
{
    if text.len() > 0 && is_white_space(text.last()) {
        trimmed_end(text.drop_last())
    } else {
        text
    }
}

/// The text without its leading and trailing white space.
pub open spec fn trimmed(text: Seq<char>) -> Seq<char> {
    trimmed_end(trimmed_start(text))
}

/// `text.trim_start()`.
pub fn trim_start(text: &str) -> (rest: String)
    ensures
        rest@ == trimmed_start(text@),
{
    let chars = chars_of(text);
    let mut from: usize = 0;
    assert(text@.skip(0) =~= text@);
    while from < chars.len() && chars[from].is_whitespace()
        invariant
            chars@ == text@,
            from <= chars.len(),
            trimmed_start(text@.skip(from as int)) == trimmed_start(text@),
        decreases chars.len() - from,
    {
        assert(text@.skip(from as int).skip(1) =~= text@.skip(from + 1));
        from = from + 1;
    }
    let rest = text_between(&chars, from, chars.len());
    assert(rest@ =~= text@.skip(from as int));
    rest
}

/// `text.trim_end()`.
pub fn trim_end(text: &str) -> (rest: String)
    ensures
        rest@ == trimmed_end(text@),
{
    let chars = chars_of(text);
    let mut to: usize = chars.len();
    assert(text@.take(to as int) =~= text@);
    while to > 0 && chars[to - 1].is_whitespace()
        invariant
            chars@ == text@,
            to <= chars.len(),
            trimmed_end(text@.take(to as int)) == trimmed_end(text@),
        decreases to,
    {
        assert(text@.take(to as int).drop_last() =~= text@.take(to - 1));
        to = to - 1;
    }
    let rest = text_between(&chars, 0, to);
    assert(rest@ =~= text@.take(to as int));
    rest
}

/// `text.trim()`.
pub fn trim(text: &str) -> (rest: String)
    ensures
        rest@ == trimmed(text@),
{
    let tail = trim_start(text);
    trim_end(tail.as_str())
}

/// The text without the `unwanted` characters at its end.
pub open spec fn trimmed_end_of(text: Seq<char>, unwanted: char) -> Seq<char>
    decreases text.len(),
{
    if text.len() > 0 && text.last() == unwanted {
        trimmed_end_of(text.drop_last(), unwanted)
    } else {
        text
    }
}

/// `text.trim_end_matches(unwanted)`.
pub fn trim_end_matches(text: &str, unwanted: char) -> (rest: String)
    ensures
        rest@ == trimmed_end_of(text@, unwanted),
{
    let chars = chars_of(text);
    let mut to: usize = chars.len();
    assert(text@.take(to as int) =~= text@);
    while to > 0 && chars[to - 1] == unwanted
        invariant
            chars@ == text@,
            to <= chars.len(),
            trimmed_end_of(text@.take(to as int), unwanted) == trimmed_end_of(text@, unwanted),
        decreases to,
    {
        assert(text@.take(to as int).drop_last() =~= text@.take(to - 1));
        to = to - 1;
    }
    let rest = text_between(&chars, 0, to);
    assert(rest@ =~= text@.take(to as int));
    rest
}

/// The characters of the text up to its first white space.
pub open spec fn leading_word(text: Seq<char>) -> Seq<char>
    decreases text.len(),
{
    if text.len() == 0 || is_white_space(text[0]) {
        Seq::empty()
    } else {
        seq![text[0]] + leading_word(text.skip(1))
    }
}

/// `text.split_whitespace().next().unwrap_or_default()`: the first word.
pub fn first_word(text: &str) -> (word: String)
    ensures
        word@ == leading_word(trimmed_start(text@)),
{
    let rest = trim_start(text);
    let chars = chars_of(rest.as_str());
    let mut to: usize = 0;
    let ghost whole = rest@;
    assert(whole.take(0) + leading_word(whole.skip(0)) =~= leading_word(whole)) by {
        assert(whole.skip(0) =~= whole);
    }
    while to < chars.len() && !chars[to].is_whitespace()
        invariant
            chars@ == whole,
            to <= chars.len(),
            whole.take(to as int) + leading_word(whole.skip(to as int)) == leading_word(whole),
        decreases chars.len() - to,
    {
        proof {
            let tail = whole.skip(to as int);
            assert(tail.skip(1) =~= whole.skip(to + 1));
            assert(leading_word(tail) == seq![tail[0]] + leading_word(tail.skip(1)));
            assert(whole.take(to + 1) + leading_word(whole.skip(to + 1)) =~= whole.take(to as int) + (
            seq![tail[0]] + leading_word(tail.skip(1))));
        }
        to = to + 1;
    }
    let word = text_between(&chars, 0, to);
    assert(word@ =~= whole.take(to as int));
    assert(whole.take(to as int) + leading_word(whole.skip(to as int)) =~= whole.take(to as int));
    word
}

// ---------------------------------------------------------------- rewriting

/// The text with every `wanted` replaced by `replacement`.
pub open spec fn replaced(text: Seq<char>, wanted: char, replacement: Seq<char>) -> Seq<char>
    decreases text.len(),
{
    if text.len() == 0 {
        Seq::empty()
    } else {
        replaced(text.drop_last(), wanted, replacement) + (if text.last() == wanted {
            replacement
        } else {
            seq![text.last()]
        })
    }
}

/// `text.replace(wanted, replacement)`.
pub fn replace_char(text: &str, wanted: char, replacement: &str) -> (result: String)
    ensures
        result@ == replaced(text@, wanted, replacement@),
{
    let chars = chars_of(text);
    let mut result = String::new();
    let mut i: usize = 0;
    while i < chars.len()
        invariant
            chars@ == text@,
            i <= chars.len(),
            result@ == replaced(text@.take(i as int), wanted, replacement@),
        decreases chars.len() - i,
    {
        assert(text@.take(i + 1).drop_last() =~= text@.take(i as int));
        if chars[i] == wanted {
            result.append(replacement);
        } else {
            let ghost before = result@;
            result.push(chars[i]);
            assert(result@ =~= before + seq![chars@[i as int]]);
        }
        i = i + 1;
    }
    assert(text@.take(i as int) =~= text@);
    result
}

/// The parts with `separator` between each two neighbours.
pub open spec fn joined(parts: Seq<Seq<char>>, separator: Seq<char>) -> Seq<char>
    decreases parts.len(),
{
    if parts.len() == 0 {
        Seq::empty()
    } else if parts.len() == 1 {
        parts[0]
    } else {
        joined(parts.drop_last(), separator) + separator + parts.last()
    }
}

/// `parts.join(separator)`.
pub fn join(parts: &Vec<String>, separator: &str) -> (result: String)
    ensures
        result@ == joined(texts(parts@), separator@),
{
    let mut result = String::new();
    let mut i: usize = 0;
    while i < parts.len()
        invariant
            i <= parts.len(),
            result@ == joined(texts(parts@).take(i as int), separator@),
        decreases parts.len() - i,
    {
        let ghost list = texts(parts@);
        assert(list.take(i + 1).drop_last() =~= list.take(i as int));
        if i > 0 {
            result.append(separator);
        } else {
            assert(result@ + list[0] =~= list[0]);
        }
        result.append(parts[i].as_str());
        i = i + 1;
    }
    assert(texts(parts@).take(i as int) =~= texts(parts@));
    result
}

/// A list of `count` copies of one text.
pub open spec fn repeated(part: Seq<char>, count: nat) -> Seq<Seq<char>> {
    Seq::new(count, |i: int| part)
}

/// `vec!["?"; count].join(", ")`: the placeholders of an SQL `IN` list.
pub fn placeholders(count: usize) -> (result: String)
    ensures
        result@ == placeholder_list(count as nat),
{
    let mut result = String::new();
    let mut i: usize = 0;
    while i < count
        invariant
            i <= count,
            result@ == placeholder_list(i as nat),
        decreases count - i,
    {
        proof {
            let list = repeated("?"@, (i + 1) as nat);
            assert(list.drop_last() =~= repeated("?"@, i as nat));
            if i == 0 {
                assert(result@ + "?"@ =~= "?"@);
            }
        }
        if i > 0 {
            result.append(", ");
        }
        result.append("?");
        i = i + 1;
    }
    result
}

/// `count` question marks, separated by commas.
pub open spec fn placeholder_list(count: nat) -> Seq<char> {
    joined(repeated("?"@, count), ", "@)
}

// ---------------------------------------------------------------- ordering

/// The lexicographic order of texts by code point, which is the order of their
/// UTF-8 bytes.
pub open spec fn text_less(left: Seq<char>, right: Seq<char>) -> bool
    decreases left.len(),
{
    if right.len() == 0 {
        false
    } else if left.len() == 0 {
        true
    } else if left[0] != right[0] {
        (left[0] as int) < (right[0] as int)
    } else {
        text_less(left.skip(1), right.skip(1))
    }
}

/// `left < right`.
pub fn less(left: &str, right: &str) -> (yes: bool)
    ensures
        yes == text_less(left@, right@),
{
    let a = chars_of(left);
    let b = chars_of(right);
    let mut i: usize = 0;
    assert(left@.skip(0) =~= left@);
    assert(right@.skip(0) =~= right@);
    while i < a.len() && i < b.len()
        invariant
            a@ == left@,
            b@ == right@,
            i <= a.len(),
            i <= b.len(),
            text_less(left@.skip(i as int), right@.skip(i as int)) == text_less(left@, right@),
        decreases a.len() - i,
    {
        if a[i] != b[i] {
            return a[i] < b[i];
        }
        assert(left@.skip(i as int).skip(1) =~= left@.skip(i + 1));
        assert(right@.skip(i as int).skip(1) =~= right@.skip(i + 1));
        i = i + 1;
    }
    i < b.len()
}

/// The text order is a strict total order: no text is below itself.
pub proof fn lemma_less_irreflexive(text: Seq<char>)
    ensures
        !text_less(text, text),
    decreases text.len(),
{
    if text.len() > 0 {
        lemma_less_irreflexive(text.skip(1));
    }
}

/// The text order is transitive.
pub proof fn lemma_less_transitive(a: Seq<char>, b: Seq<char>, c: Seq<char>)
    requires
        text_less(a, b),
        text_less(b, c),
    ensures
        text_less(a, c),
    decreases a.len(),
{
    if a.len() > 0 && a[0] == b[0] && b[0] == c[0] {
        lemma_less_transitive(a.skip(1), b.skip(1), c.skip(1));
    }
}

/// Of two different texts one is below the other.
pub proof fn lemma_less_total(a: Seq<char>, b: Seq<char>)
    ensures
        a == b || text_less(a, b) || text_less(b, a),
    decreases a.len(),
{
    if a.len() > 0 && b.len() > 0 && a[0] == b[0] {
        lemma_less_total(a.skip(1), b.skip(1));
        if a.skip(1) == b.skip(1) {
            assert(a =~= seq![a[0]] + a.skip(1));
            assert(b =~= seq![b[0]] + b.skip(1));
        }
    } else if a.len() == 0 && b.len() == 0 {
        assert(a =~= b);
    }
}

/// Append a text to a list.
pub fn push_text(list: &mut Vec<String>, item: String)
    ensures
        texts(final(list)@) == texts(old(list)@).push(item@),
{
    list.push(item);
    assert(texts(list@) =~= texts(old(list)@).push(item@));
}

// ---------------------------------------------------------------- laws

/// The text is white space throughout.
pub open spec fn is_blank_text(text: Seq<char>) -> bool {
    forall|i: int| 0 <= i < text.len() ==> is_white_space(#[trigger] text[i])
}

/// White space in front goes away.
proof fn lemma_trimmed_front(before: Seq<char>, text: Seq<char>)
    requires
        is_blank_text(before),
    ensures
        trimmed_start(before + text) == trimmed_start(text),
    decreases before.len(),
{
    if before.len() == 0 {
        assert(before + text =~= text);
    } else {
        let rest = before.skip(1);
        assert forall|i: int| 0 <= i < rest.len() implies is_white_space(#[trigger] rest[i]) by {
            assert(rest[i] == before[i + 1]);
        }
        lemma_trimmed_front(rest, text);
        assert(is_white_space((before + text)[0])) by {
            assert((before + text)[0] == before[0]);
        }
        assert((before + text).skip(1) =~= rest + text);
    }
}

/// White space behind goes away.
proof fn lemma_trimmed_back(text: Seq<char>, behind: Seq<char>)
    requires
        is_blank_text(behind),
    ensures
        trimmed_end(text + behind) == trimmed_end(text),
    decreases behind.len(),
{
    if behind.len() == 0 {
        assert(text + behind =~= text);
    } else {
        let rest = behind.drop_last();
        assert forall|i: int| 0 <= i < rest.len() implies is_white_space(#[trigger] rest[i]) by {
            assert(rest[i] == behind[i]);
        }
        lemma_trimmed_back(text, rest);
        assert(is_white_space((text + behind).last())) by {
            assert((text + behind).last() == behind[behind.len() - 1]);
        }
        assert((text + behind).drop_last() =~= text + rest);
    }
}

/// Trimming the front leaves white space behind a text alone.
proof fn lemma_front_keeps_back(text: Seq<char>, behind: Seq<char>)
    requires
        is_blank_text(behind),
    ensures
        trimmed_start(text + behind) == (if trimmed_start(text).len() == 0 {
            Seq::empty()
        } else {
            trimmed_start(text) + behind
        }),
    decreases text.len(),
{
    if text.len() == 0 {
        lemma_trimmed_front(behind, Seq::empty());
        assert(text + behind =~= behind + Seq::empty());
        assert(trimmed_start(Seq::empty()) =~= Seq::<char>::empty());
    } else {
        assert((text + behind)[0] == text[0]);
        if is_white_space(text[0]) {
            lemma_front_keeps_back(text.skip(1), behind);
            assert((text + behind).skip(1) =~= text.skip(1) + behind);
        }
    }
}

/// Trimming takes all white space around a text away: how much there was makes
/// no difference.
pub proof fn law_trimming_ignores_surrounding_white_space(
    before: Seq<char>,
    text: Seq<char>,
    behind: Seq<char>,
)
    requires
        is_blank_text(before),
        is_blank_text(behind),
    ensures
        trimmed(before + text + behind) == trimmed(text),
{
    assert(before + text + behind =~= before + (text + behind));
    lemma_trimmed_front(before, text + behind);
    lemma_front_keeps_back(text, behind);
    lemma_trimmed_back(trimmed_start(text), behind);
    if trimmed_start(text).len() == 0 {
        assert(trimmed_start(text) =~= Seq::empty());
    }
}

} // verus!
