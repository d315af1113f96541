//! Small text operations: finding a literal at a position, and trimming
//! blanks from both ends.

use vstd::prelude::*;
use vstd::string::*;

verus! {

/// Whether `part` stands in `text` at `at`.
pub open spec fn has_at(text: Seq<char>, at: int, part: Seq<char>) -> bool {
    0 <= at && at + part.len() <= text.len() && text.subrange(at, at + part.len()) == part
}

/// Whether `part` stands in `text` at `at`; `length` is the length of `text`.
pub fn stands_at(text: &str, length: usize, at: usize, part: &str) -> (found: bool)
    requires
        length == text@.len(),
    ensures
        found == has_at(text@, at as int, part@),
{
    let part_length = part.unicode_len();
    if at > length || part_length > length - at {
        return false;
    }
    let mut k: usize = 0;
    while k < part_length
        invariant
            k <= part_length,
            part_length == part@.len(),
            length == text@.len(),
            at + part_length <= length,
            forall|j: int| 0 <= j < k ==> text@[at + j] == part@[j],
        decreases part_length - k,
    {
        if text.get_char(at + k) != part.get_char(k) {
            assert(text@.subrange(at as int, at + part_length)[k as int] != part@[k as int]);
            return false;
        }
        k += 1;
    }
    assert(text@.subrange(at as int, at + part_length) =~= part@);
    true
}

/// Whether the character is white space: a character with the Unicode
/// property `White_Space`.
pub open spec fn is_blank(c: char) -> bool {
    let code = c as u32;
    ||| 0x09 <= code <= 0x0D
    ||| code == 0x20
    ||| code == 0x85
    ||| code == 0xA0
    ||| code == 0x1680
    ||| 0x2000 <= code <= 0x200A
    ||| code == 0x2028
    ||| code == 0x2029
    ||| code == 0x202F
    ||| code == 0x205F
    ||| code == 0x3000
}

/// Decides `is_blank`.
pub fn char_is_blank(c: char) -> (blank: bool)
    ensures
        blank == is_blank(c),
{
    let code = c as u32;
    (0x09 <= code && code <= 0x0D) || code == 0x20 || code == 0x85 || code == 0xA0 || code
        == 0x1680 || (0x2000 <= code && code <= 0x200A) || code == 0x2028 || code == 0x2029
        || code == 0x202F || code == 0x205F || code == 0x3000
}

/// Where the text starts once the blanks at its start are left out.
pub open spec fn blank_prefix(text: Seq<char>) -> int
    decreases text.len(),
{
    if text.len() > 0 && is_blank(text.first()) {
        1 + blank_prefix(text.drop_first())
    } else {
        0
    }
}

/// How many blanks end the text.
pub open spec fn blank_suffix(text: Seq<char>) -> int
    decreases text.len(),
{
    if text.len() > 0 && is_blank(text.last()) {
        1 + blank_suffix(text.drop_last())
    } else {
        0
    }
}

/// The text without the blanks at its start and at its end.
pub open spec fn trimmed(text: Seq<char>) -> Seq<char> {
    let rest = text.skip(blank_prefix(text));
    rest.take(rest.len() - blank_suffix(rest))
}

/// The blanks at the start are blanks, and a character that is none follows.
pub proof fn lemma_blank_prefix(text: Seq<char>)
    ensures
        0 <= blank_prefix(text) <= text.len(),
        forall|k: int| 0 <= k < blank_prefix(text) ==> is_blank(#[trigger] text[k]),
        blank_prefix(text) < text.len() ==> !is_blank(text[blank_prefix(text)]),
    decreases text.len(),
{
    if text.len() > 0 && is_blank(text.first()) {
        let rest = text.drop_first();
        lemma_blank_prefix(rest);
        assert forall|k: int| 0 <= k < blank_prefix(text) implies is_blank(#[trigger] text[k]) by {
            if k > 0 {
                assert(text[k] == rest[k - 1]);
            }
        }
        if blank_prefix(text) < text.len() {
            assert(text[blank_prefix(text)] == rest[blank_prefix(rest)]);
        }
    }
}

/// The blanks at the end are blanks, and a character that is none precedes.
pub proof fn lemma_blank_suffix(text: Seq<char>)
    ensures
        0 <= blank_suffix(text) <= text.len(),
        forall|k: int|
            text.len() - blank_suffix(text) <= k < text.len() ==> is_blank(#[trigger] text[k]),
        blank_suffix(text) < text.len() ==> !is_blank(text[text.len() - blank_suffix(text) - 1]),
    decreases text.len(),
{
    if text.len() > 0 && is_blank(text.last()) {
        let rest = text.drop_last();
        lemma_blank_suffix(rest);
        assert forall|k: int| text.len() - blank_suffix(text) <= k < text.len() implies is_blank(
            #[trigger] text[k],
        ) by {
            if k < rest.len() {
                assert(text[k] == rest[k]);
            }
        }
        if blank_suffix(text) < text.len() {
            assert(text[text.len() - blank_suffix(text) - 1] == rest[rest.len() - blank_suffix(
                rest,
            ) - 1]);
        }
    }
}

proof fn lemma_blank_prefix_found(text: Seq<char>, n: int)
    requires
        0 <= n <= text.len(),
        forall|k: int| 0 <= k < n ==> is_blank(#[trigger] text[k]),
        n < text.len() ==> !is_blank(text[n]),
    ensures
        blank_prefix(text) == n,
    decreases text.len(),
{
    if n > 0 {
        let rest = text.drop_first();
        assert(is_blank(text[0]));
        assert forall|k: int| 0 <= k < n - 1 implies is_blank(#[trigger] rest[k]) by {
            assert(rest[k] == text[k + 1]);
        }
        lemma_blank_prefix_found(rest, n - 1);
    }
}

proof fn lemma_blank_suffix_found(text: Seq<char>, n: int)
    requires
        0 <= n <= text.len(),
        forall|k: int| text.len() - n <= k < text.len() ==> is_blank(#[trigger] text[k]),
        n < text.len() ==> !is_blank(text[text.len() - n - 1]),
    ensures
        blank_suffix(text) == n,
    decreases text.len(),
{
    if n > 0 {
        let rest = text.drop_last();
        assert(is_blank(text[text.len() - 1]));
        assert forall|k: int| rest.len() - (n - 1) <= k < rest.len() implies is_blank(
            #[trigger] rest[k],
        ) by {
            assert(rest[k] == text[k]);
        }
        lemma_blank_suffix_found(rest, n - 1);
    }
}

/// The part of the text from `from` on, without the blanks at its start and
/// at its end; `length` is the length of the text.
pub fn trim_from(text: &str, length: usize, from: usize) -> (out: String)
    requires
        length == text@.len(),
        from <= length,
    ensures
        out@ == trimmed(text@.skip(from as int)),
{
    let ghost tail = text@.skip(from as int);
    let mut start: usize = from;
    while start < length
        invariant
            from <= start <= length,
            length == text@.len(),
            forall|k: int| from <= k < start ==> is_blank(#[trigger] text@[k]),
        ensures
            start < length ==> !is_blank(text@[start as int]),
        decreases length - start,
    {
        if !char_is_blank(text.get_char(start)) {
            break ;
        }
        start += 1;
    }
    proof {
        assert forall|k: int| 0 <= k < start - from implies is_blank(#[trigger] tail[k]) by {
            assert(tail[k] == text@[from + k]);
        }
        lemma_blank_prefix_found(tail, start - from);
    }
    let ghost rest = tail.skip(start - from);
    let mut end: usize = length;
    while end > start
        invariant
            start <= end <= length,
            length == text@.len(),
            forall|k: int| end <= k < length ==> is_blank(#[trigger] text@[k]),
        ensures
            end > start ==> !is_blank(text@[end - 1]),
        decreases end,
    {
        if !char_is_blank(text.get_char(end - 1)) {
            break ;
        }
        end -= 1;
    }
    proof {
        assert(rest =~= text@.skip(start as int));
        assert forall|k: int| rest.len() - (length - end) <= k < rest.len() implies is_blank(
            #[trigger] rest[k],
        ) by {
            assert(rest[k] == text@[start + k]);
        }
        if length - end < rest.len() {
            assert(rest[rest.len() - (length - end) - 1] == text@[end - 1]);
        }
        lemma_blank_suffix_found(rest, length - end);
        assert(rest.take(rest.len() - (length - end)) =~= text@.subrange(
            start as int,
            end as int,
        ));
    }
    text.substring_char(start, end).to_owned()
}

/// The text without the blanks at its start and at its end.
pub fn trim_text(text: &str) -> (out: String)
    ensures
        out@ == trimmed(text@),
{
    let length = text.unicode_len();
    assert(text@.skip(0) =~= text@);
    trim_from(text, length, 0)
}

} // verus!
