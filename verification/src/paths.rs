//! How the command-line front end reads the name of an example: as a path of
//! its own, or as a name to look up among the bundled examples.
//!
//! Paths are texts here, and `/` is what separates their parts.

use crate::text::{chars_of, push_char, push_chars_from};
use vstd::prelude::*;
use vstd::string::StringExecFns;

verus! {

/// Whether a character is a letter of the ASCII alphabet.
pub open spec fn is_ascii_letter(c: char) -> bool {
    ('a' <= c && c <= 'z') || ('A' <= c && c <= 'Z')
}

/// Whether a text begins like a path on a lettered drive: a letter and a
/// colon.
pub open spec fn has_drive_prefix(text: Seq<char>) -> bool {
    text.len() > 1 && text[1] == ':' && is_ascii_letter(text[0])
}

/// Whether a text reads as a path and not as a bare name or a reference
/// with a scheme: it begins with a drive, a dot, a slash or a backslash, or
/// it holds a slash or a backslash and no colon. The empty text does not.
pub open spec fn looks_relative(text: Seq<char>) -> bool {
    text.len() > 0 && (has_drive_prefix(text) || text[0] == '.' || text[0] == '/' || text[0]
        == '\\' || (!text.contains(':') && (text.contains('/') || text.contains('\\'))))
}

/// Whether a path begins at the root of the file system.
pub open spec fn is_absolute(path: Seq<char>) -> bool {
    path.len() > 0 && path[0] == '/'
}

/// A path continued by another: an absolute continuation stands for itself,
/// any other follows the base after a separator, which is not doubled.
pub open spec fn joined(base: Seq<char>, rest: Seq<char>) -> Seq<char> {
    if is_absolute(rest) {
        rest
    } else if base.len() == 0 || base.last() == '/' {
        base + rest
    } else {
        base + seq!['/'] + rest
    }
}

/// The directory of the bundled examples, below the root of the repository.
pub open spec fn example_dir() -> Seq<char> {
    "src/lang/rust/examples"@
}

/// Where an example is: an absolute path is taken as it is, what reads as a
/// path is taken from the root of the repository, and a bare name is looked
/// up in the directory of the bundled examples.
pub open spec fn example_path(root: Seq<char>, selector: Seq<char>) -> Seq<char> {
    if is_absolute(selector) {
        selector
    } else if looks_relative(selector) {
        joined(root, selector)
    } else {
        joined(joined(root, example_dir()), selector)
    }
}

/// Whether a character occurs among others.
fn holds(chars: &Vec<char>, c: char) -> (found: bool)
    ensures
        found == chars@.contains(c),
{
    let mut i: usize = 0;
    while i < chars.len()
        invariant
            i <= chars.len(),
            forall|k: int| 0 <= k < i ==> chars[k] != c,
        decreases chars.len() - i,
    {
        if chars[i] == c {
            return true;
        }
        i += 1;
    }
    false
}

/// Whether characters read as a path.
fn chars_look_relative(chars: &Vec<char>) -> (relative: bool)
    ensures
        relative == looks_relative(chars@),
{
    if chars.len() == 0 {
        return false;
    }
    let first = chars[0];
    let drive = chars.len() > 1 && chars[1] == ':' && (('a' <= first && first <= 'z') || ('A'
        <= first && first <= 'Z'));
    drive || first == '.' || first == '/' || first == '\\' || (!holds(chars, ':') && (holds(
        chars,
        '/',
    ) || holds(chars, '\\')))
}

/// Whether an input reads as a path and not as a bare name.
pub fn looks_like_relative_path(input: &str) -> (relative: bool)
    ensures
        relative == looks_relative(input@),
{
    let chars = chars_of(input);
    chars_look_relative(&chars)
}

/// A path continued by another.
pub fn join_path(base: &str, rest: &str) -> (path: String)
    ensures
        path@ == joined(base@, rest@),
{
    let r = chars_of(rest);
    if r.len() > 0 && r[0] == '/' {
        return rest.to_owned();
    }
    let b = chars_of(base);
    let mut path = base.to_owned();
    if b.len() > 0 && b[b.len() - 1] != '/' {
        push_char(&mut path, '/');
    }
    path.append(rest);
    path
}

/// Where the example that a selector names is, given the root of the
/// repository.
pub fn resolve_example_path(root: &str, selector: &str) -> (path: String)
    ensures
        path@ == example_path(root@, selector@),
{
    let chars = chars_of(selector);
    if chars.len() > 0 && chars[0] == '/' {
        return selector.to_owned();
    }
    if chars_look_relative(&chars) {
        return join_path(root, selector);
    }
    let examples = join_path(root, "src/lang/rust/examples");
    join_path(examples.as_str(), selector)
}

/// Whether `at` is where a character first stands in a text, or the length
/// of the text where it does not stand in it.
pub open spec fn is_first_at(text: Seq<char>, c: char, at: int) -> bool {
    &&& 0 <= at <= text.len()
    &&& forall|k: int| 0 <= k < at ==> text[k] != c
    &&& at == text.len() || text[at] == c
}

/// Where a character first stands in a text, or the length of the text
/// where it does not stand in it.
pub open spec fn first_place_of(text: Seq<char>, c: char) -> int {
    choose|at: int| is_first_at(text, c, at)
}

/// A text without the given character at its start, however often it stands
/// there.
pub open spec fn without_leading(text: Seq<char>, c: char) -> Seq<char>
    decreases text.len(),
{
    if text.len() > 0 && text[0] == c {
        without_leading(text.drop_first(), c)
    } else {
        text
    }
}

/// What Nix is asked to build or to enter: the flake at the root of the
/// repository, with the attribute after a `#` where one is given. A `#`
/// before the attribute is not doubled.
pub open spec fn installable(root: Seq<char>, attribute: Option<Seq<char>>) -> Seq<char> {
    match attribute {
        None => root,
        Some(name) => root + seq!['#'] + without_leading(name, '#'),
    }
}

/// A flake reference as Nix is to read it. A reference whose part before
/// the first `#` reads as a path becomes a `path:` reference to that path
/// below the root of the repository, and keeps what follows from the `#` on;
/// any other reference stays as it is.
pub open spec fn flake_ref(root: Seq<char>, reference: Seq<char>) -> Seq<char> {
    let at = first_place_of(reference, '#');
    if looks_relative(reference.take(at)) {
        "path:"@ + joined(root, reference.take(at)) + reference.skip(at)
    } else {
        reference
    }
}

/// Where a character first stands among others.
fn find_first(chars: &Vec<char>, c: char) -> (at: usize)
    ensures
        is_first_at(chars@, c, at as int),
        at == first_place_of(chars@, c),
{
    let mut at: usize = 0;
    while at < chars.len() && chars[at] != c
        invariant
            at <= chars.len(),
            forall|k: int| 0 <= k < at ==> chars[k] != c,
        decreases chars.len() - at,
    {
        at += 1;
    }
    proof {
        let other = first_place_of(chars@, c);
        assert(is_first_at(chars@, c, at as int));
        if other < at {
            assert(chars@[other] == c);
        } else if at < other {
            assert(chars@[at as int] == c);
        }
    }
    at
}

/// What Nix is asked to build or to enter.
pub fn build_installable(root: &str, attribute: Option<&str>) -> (target: String)
    ensures
        target@ == installable(
            root@,
            match attribute {
                Some(name) => Some(name@),
                None => None,
            },
        ),
{
    let mut target = root.to_owned();
    match attribute {
        None => {},
        Some(name) => {
            let chars = chars_of(name);
            let mut from: usize = 0;
            assert(chars@.skip(0) =~= chars@);
            while from < chars.len() && chars[from] == '#'
                invariant
                    from <= chars.len(),
                    without_leading(chars@.skip(from as int), '#') == without_leading(chars@, '#'),
                decreases chars.len() - from,
            {
                assert(chars@.skip(from as int).drop_first() =~= chars@.skip(from as int + 1));
                from += 1;
            }
            assert(without_leading(chars@, '#') == chars@.skip(from as int));
            push_char(&mut target, '#');
            push_chars_from(&mut target, &chars, from);
        },
    }
    target
}

/// A flake reference as Nix is to read it.
pub fn normalize_flake_ref(root: &str, reference: &str) -> (normal: String)
    ensures
        normal@ == flake_ref(root@, reference@),
{
    let chars = chars_of(reference);
    let at = find_first(&chars, '#');
    let mut path_part = String::new();
    let mut i: usize = 0;
    while i < at
        invariant
            i <= at <= chars.len(),
            path_part@ == chars@.take(i as int),
        decreases at - i,
    {
        push_char(&mut path_part, chars[i]);
        assert(chars@.take(i as int + 1) =~= chars@.take(i as int).push(chars@[i as int]));
        i += 1;
    }
    if looks_like_relative_path(path_part.as_str()) {
        let mut normal = "path:".to_owned();
        let local = join_path(root, path_part.as_str());
        normal.append(local.as_str());
        push_chars_from(&mut normal, &chars, at);
        normal
    } else {
        reference.to_owned()
    }
}

} // verus!
