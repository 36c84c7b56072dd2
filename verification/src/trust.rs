//! The trusted-key list: a text with one public key per line.
//!
//! White space around a key is ignored, and so are empty lines and lines
//! that begin with `#`. A key is trusted when some line of the list, so
//! read, is that key exactly.

use crate::text::{chars_of, is_space, is_white_space};
use vstd::prelude::*;

verus! {

/// A text without the white space at its two ends.
pub open spec fn trimmed(text: Seq<char>) -> Seq<char>
    decreases text.len(),
{
    if text.len() > 0 && is_white_space(text[0]) {
        trimmed(text.drop_first())
    } else if text.len() > 0 && is_white_space(text.last()) {
        trimmed(text.drop_last())
    } else {
        text
    }
}

/// Whether the characters from `start` up to `end` are one whole line of the
/// text: begun by the start of the text or a line feed, ended by a line feed
/// or the end of the text, with no line feed inside.
pub open spec fn is_line(text: Seq<char>, start: int, end: int) -> bool {
    &&& 0 <= start <= end <= text.len()
    &&& (start == 0 || text[start - 1] == '\n')
    &&& (end == text.len() || text[end] == '\n')
    &&& forall|k: int| start <= k < end ==> text[k] != '\n'
}

/// Whether a trimmed line names a key: it is not empty and no comment.
pub open spec fn is_key_entry(entry: Seq<char>) -> bool {
    entry.len() > 0 && entry[0] != '#'
}

/// Whether the line from `start` up to `end` names the given key.
pub open spec fn line_names_key(text: Seq<char>, start: int, end: int, key: Seq<char>) -> bool {
    is_key_entry(key) && trimmed(text.subrange(start, end)) == key
}

/// Whether a key stands in a trusted-key list.
pub open spec fn key_is_listed(key: Seq<char>, contents: Seq<char>) -> bool {
    exists|start: int, end: int|
        is_line(contents, start, end) && #[trigger] line_names_key(contents, start, end, key)
}

/// The set of keys that a trusted-key list holds.
pub open spec fn trusted_key_set(contents: Seq<char>) -> Set<Seq<char>> {
    Set::new(|key: Seq<char>| key_is_listed(key, contents))
}

/// Where the line that begins at `start` ends.
fn line_end(text: &Vec<char>, start: usize) -> (end: usize)
    requires
        start <= text.len(),
    ensures
        start <= end <= text.len(),
        end == text.len() || text[end as int] == '\n',
        forall|k: int| start <= k < end ==> text[k] != '\n',
{
    let mut end = start;
    while end < text.len() && text[end] != '\n'
        invariant
            start <= end <= text.len(),
            forall|k: int| start <= k < end ==> text[k] != '\n',
        decreases text.len() - end,
    {
        end += 1;
    }
    end
}

/// Where a stretch of the text begins and ends once its white space is
/// trimmed.
fn trim_bounds(text: &Vec<char>, start: usize, end: usize) -> (bounds: (usize, usize))
    requires
        start <= end <= text.len(),
    ensures
        start <= bounds.0 <= bounds.1 <= end,
        text@.subrange(bounds.0 as int, bounds.1 as int) == trimmed(
            text@.subrange(start as int, end as int),
        ),
{
    let mut a = start;
    while a < end && is_space(text[a])
        invariant
            start <= a <= end <= text.len(),
            trimmed(text@.subrange(a as int, end as int)) == trimmed(
                text@.subrange(start as int, end as int),
            ),
        decreases end - a,
    {
        assert(text@.subrange(a as int, end as int).drop_first() =~= text@.subrange(
            a as int + 1,
            end as int,
        ));
        a += 1;
    }
    let mut b = end;
    while a < b && is_space(text[b - 1])
        invariant
            start <= a <= b <= end <= text.len(),
            a == end || !is_white_space(text[a as int]),
            trimmed(text@.subrange(a as int, b as int)) == trimmed(
                text@.subrange(start as int, end as int),
            ),
        decreases b - a,
    {
        assert(text@.subrange(a as int, b as int).drop_last() =~= text@.subrange(
            a as int,
            b as int - 1,
        ));
        b -= 1;
    }
    (a, b)
}

/// Whether a stretch of the text is the key, character for character.
fn stretch_is_key(text: &Vec<char>, a: usize, b: usize, key: &Vec<char>) -> (same: bool)
    requires
        a <= b <= text.len(),
    ensures
        same == (text@.subrange(a as int, b as int) == key@),
{
    if b - a != key.len() {
        return false;
    }
    let mut i: usize = 0;
    while i < key.len()
        invariant
            a <= b <= text.len(),
            b - a == key.len(),
            i <= key.len(),
            forall|k: int| 0 <= k < i ==> text[a + k] == key[k],
        decreases key.len() - i,
    {
        if text[a + i] != key[i] {
            assert(text@.subrange(a as int, b as int)[i as int] != key@[i as int]);
            return false;
        }
        i += 1;
    }
    assert(text@.subrange(a as int, b as int) =~= key@);
    true
}

/// Whether a key stands in a list, both given by their characters.
fn list_names_key(text: &Vec<char>, key: &Vec<char>) -> (listed: bool)
    ensures
        listed == key_is_listed(key@, text@),
{
    let mut start: usize = 0;
    let mut listed = false;
    loop
        invariant_except_break
            start <= text.len(),
            start == 0 || text[start - 1] == '\n',
            forall|s: int, e: int|
                is_line(text@, s, e) && s < start ==> !#[trigger] line_names_key(
                    text@,
                    s,
                    e,
                    key@,
                ),
        ensures
            listed == key_is_listed(key@, text@),
        decreases text.len() - start,
    {
        let end = line_end(text, start);
        assert(is_line(text@, start as int, end as int));
        let (a, b) = trim_bounds(text, start, end);
        if a < b && text[a] != '#' && stretch_is_key(text, a, b, key) {
            assert(line_names_key(text@, start as int, end as int, key@));
            listed = true;
            break ;
        }
        assert(!line_names_key(text@, start as int, end as int, key@)) by {
            let entry = text@.subrange(a as int, b as int);
            if a < b {
                assert(entry[0] == text[a as int]);
            }
        }
        assert forall|s: int, e: int| is_line(text@, s, e) && s <= end implies !#[trigger] line_names_key(
            text@,
            s,
            e,
            key@,
        ) by {
            if s == start {
                if e < end {
                    assert(text[e] == '\n');
                } else if end < e {
                    assert(text[end as int] == '\n');
                }
                assert(e == end);
            } else if s > start {
                assert(text[s - 1] != '\n');
            }
        }
        if end == text.len() {
            listed = false;
            break ;
        }
        start = end + 1;
    }
    listed
}

/// Whether a public key is trusted. Where no list is supplied every key is:
/// whoever wants keys held to a list has to supply one. Where one is
/// supplied, the key is trusted when the list names it, compared as text.
pub fn check_trusted_key(public_key: &str, trusted_keys: Option<&str>) -> (trusted: bool)
    ensures
        trusted == match trusted_keys {
            None => true,
            Some(contents) => trusted_key_set(contents@).contains(public_key@),
        },
{
    match trusted_keys {
        None => true,
        Some(contents) => {
            let text = chars_of(contents);
            let key = chars_of(public_key);
            list_names_key(&text, &key)
        },
    }
}

} // verus!
