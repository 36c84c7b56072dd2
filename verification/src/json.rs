//! The JSON text that the canonical encoding is made of: string literals as
//! `serde_json` writes them, and objects of string members in compact form.
//!
//! The encoding is proved to be uniquely readable: two lists of members with
//! the same bytes are the same list.

use vstd::prelude::*;
use vstd::utf8::*;

verus! {

/// The digit byte `0`-`9`, `a`-`f` for a value below sixteen.
pub open spec fn hex_digit_byte(n: int) -> u8 {
    if n < 10 {
        (0x30 + n) as u8
    } else {
        (0x57 + n) as u8
    }
}

/// What one byte of a string becomes inside a JSON string literal: `"` and
/// `\` get a backslash, the control bytes below 0x20 become `\b`, `\t`, `\n`,
/// `\f`, `\r` or `\u00xx`, and every other byte stands for itself.
pub open spec fn json_escape(b: u8) -> Seq<u8> {
    if b == 0x22 {
        seq![0x5cu8, 0x22u8]
    } else if b == 0x5c {
        seq![0x5cu8, 0x5cu8]
    } else if b == 0x08 {
        seq![0x5cu8, 0x62u8]
    } else if b == 0x09 {
        seq![0x5cu8, 0x74u8]
    } else if b == 0x0a {
        seq![0x5cu8, 0x6eu8]
    } else if b == 0x0c {
        seq![0x5cu8, 0x66u8]
    } else if b == 0x0d {
        seq![0x5cu8, 0x72u8]
    } else if b < 0x20 {
        seq![
            0x5cu8,
            0x75u8,
            0x30u8,
            0x30u8,
            hex_digit_byte(b as int / 16),
            hex_digit_byte(b as int % 16),
        ]
    } else {
        seq![b]
    }
}

/// The bytes of a string with each byte escaped.
pub open spec fn json_escaped(s: Seq<u8>) -> Seq<u8>
    decreases s.len(),
{
    if s.len() == 0 {
        seq![]
    } else {
        json_escape(s[0]) + json_escaped(s.drop_first())
    }
}

/// A JSON string literal: the escaped bytes between two double quotes.
pub open spec fn json_string(s: Seq<u8>) -> Seq<u8> {
    seq![0x22u8] + json_escaped(s) + seq![0x22u8]
}

/// The JSON string literal of a text, over its UTF-8 bytes.
#[verifier::opaque]
pub open spec fn json_text(text: Seq<char>) -> Seq<u8> {
    json_string(encode_utf8(text))
}

/// One member of an object: the key, a colon, the value, both as string
/// literals.
pub open spec fn json_member(member: (Seq<char>, Seq<char>)) -> Seq<u8> {
    json_text(member.0) + seq![0x3au8] + json_text(member.1)
}

/// The members of an object in order, with a comma between each two.
pub open spec fn json_members(members: Seq<(Seq<char>, Seq<char>)>) -> Seq<u8>
    decreases members.len(),
{
    if members.len() == 0 {
        seq![]
    } else if members.len() == 1 {
        json_member(members[0])
    } else {
        json_member(members[0]) + seq![0x2cu8] + json_members(members.drop_first())
    }
}

/// A JSON object of string members in compact form: no whitespace, members in
/// the order given.
pub open spec fn json_object(members: Seq<(Seq<char>, Seq<char>)>) -> Seq<u8> {
    seq![0x7bu8] + json_members(members) + seq![0x7du8]
}

/// The error type of `serde_json`. Nothing is read from it.
#[verifier::external_type_specification]
#[verifier::external_body]
pub struct ExJsonError(serde_json::Error);

/// `serde_json::to_vec` on a string: the compact JSON string literal of the
/// text over its UTF-8 bytes, escaped as `json_escape` says. On a string it
/// cannot fail: it only appends bytes to a vector.
#[verifier::external_body]
fn serialize_string(text: &str) -> (written: Result<Vec<u8>, serde_json::Error>)
    ensures
        written is Ok,
        written matches Ok(bytes) ==> bytes@ == json_text(text@),
{
    serde_json::to_vec(text)
}

/// Appends the JSON string literal of a text.
pub fn write_json_text(out: &mut Vec<u8>, text: &str)
    ensures
        final(out)@ == old(out)@ + json_text(text@),
{
    let mut literal = serialize_string(text).ok().unwrap();
    out.append(&mut literal);
}

/// Appends one more member to the members of an object, with the comma that
/// separates it from those before it.
pub fn write_json_member(out: &mut Vec<u8>, first: bool, key: &str, value: &str)
    ensures
        final(out)@ == old(out)@ + (if first {
            Seq::<u8>::empty()
        } else {
            seq![0x2cu8]
        }) + json_member((key@, value@)),
{
    if !first {
        out.push(0x2c);
    }
    write_json_text(out, key);
    out.push(0x3a);
    write_json_text(out, value);
    assert(final(out)@ =~= old(out)@ + (if first {
        Seq::<u8>::empty()
    } else {
        seq![0x2cu8]
    }) + json_member((key@, value@)));
}

/// The members of a list with one more at its end: the earlier members, a
/// comma where there are any, and the last one.
pub proof fn lemma_members_push(members: Seq<(Seq<char>, Seq<char>)>, last: (Seq<char>, Seq<char>))
    ensures
        json_members(members.push(last)) == json_members(members) + (if members.len() == 0 {
            Seq::<u8>::empty()
        } else {
            seq![0x2cu8]
        }) + json_member(last),
    decreases members.len(),
{
    let all = members.push(last);
    if members.len() == 0 {
        assert(json_members(all) =~= json_member(last));
        assert(json_members(members) + Seq::<u8>::empty() + json_member(last) =~= json_member(
            last,
        ));
    } else {
        let rest = members.drop_first();
        assert(all.drop_first() =~= rest.push(last));
        lemma_members_push(rest, last);
        assert(json_members(all) =~= json_members(members) + seq![0x2cu8] + json_member(last));
    }
}

/// No escape begins another: where two escaped bytes, each followed by more
/// bytes, give the same bytes, the two bytes are the same and so is what
/// follows them.
pub proof fn lemma_escape_prefix_free(a: u8, x: Seq<u8>, b: u8, y: Seq<u8>)
    requires
        json_escape(a) + x == json_escape(b) + y,
    ensures
        a == b,
        x == y,
{
    let l = json_escape(a) + x;
    let r = json_escape(b) + y;
    assert(l[0] == r[0]);
    assert(json_escape(a).len() >= 1 && json_escape(b).len() >= 1);
    if l[0] == 0x5c {
        assert(json_escape(a).len() >= 2 && json_escape(b).len() >= 2);
        assert(l[1] == r[1]);
        if l[1] == 0x75 {
            assert(json_escape(a).len() == 6 && json_escape(b).len() == 6);
            assert(l[4] == r[4]);
            assert(l[5] == r[5]);
            assert(l[4] == hex_digit_byte(a as int / 16));
            assert(l[5] == hex_digit_byte(a as int % 16));
            assert(r[4] == hex_digit_byte(b as int / 16));
            assert(r[5] == hex_digit_byte(b as int % 16));
        }
    }
    assert(a == b);
    let n = json_escape(a).len() as int;
    assert(x =~= l.subrange(n, l.len() as int));
    assert(y =~= r.subrange(n, r.len() as int));
}

/// An escaped string is closed by the first quote that no backslash stands
/// before: where two escaped strings, each followed by a quote and more
/// bytes, give the same bytes, the strings are the same and so is what
/// follows the quote.
pub proof fn lemma_escaped_prefix_free(s: Seq<u8>, x: Seq<u8>, t: Seq<u8>, y: Seq<u8>)
    requires
        json_escaped(s) + seq![0x22u8] + x == json_escaped(t) + seq![0x22u8] + y,
    ensures
        s == t,
        x == y,
    decreases s.len(),
{
    let l = json_escaped(s) + seq![0x22u8] + x;
    let r = json_escaped(t) + seq![0x22u8] + y;
    if s.len() == 0 && t.len() == 0 {
        assert(x =~= l.subrange(1, l.len() as int));
        assert(y =~= r.subrange(1, r.len() as int));
        assert(s =~= t);
    } else if s.len() == 0 {
        assert(l[0] == 0x22);
        assert(r[0] == json_escape(t[0])[0]);
        assert(false);
    } else if t.len() == 0 {
        assert(r[0] == 0x22);
        assert(l[0] == json_escape(s[0])[0]);
        assert(false);
    } else {
        let ls = json_escaped(s.drop_first()) + seq![0x22u8] + x;
        let rs = json_escaped(t.drop_first()) + seq![0x22u8] + y;
        assert(l =~= json_escape(s[0]) + ls);
        assert(r =~= json_escape(t[0]) + rs);
        lemma_escape_prefix_free(s[0], ls, t[0], rs);
        lemma_escaped_prefix_free(s.drop_first(), x, t.drop_first(), y);
        assert(s =~= seq![s[0]] + s.drop_first());
        assert(t =~= seq![t[0]] + t.drop_first());
    }
}

/// A string literal begins with a double quote.
pub proof fn lemma_text_begins_with_quote(s: Seq<char>)
    ensures
        json_text(s).len() >= 2,
        json_text(s)[0] == 0x22,
{
    reveal(json_text);
}

/// A string literal says where it ends: where two literals, each followed by
/// more bytes, give the same bytes, the texts are the same and so is what
/// follows.
pub proof fn lemma_text_prefix_free(s: Seq<char>, x: Seq<u8>, t: Seq<char>, y: Seq<u8>)
    requires
        json_text(s) + x == json_text(t) + y,
    ensures
        s == t,
        x == y,
{
    reveal(json_text);
    let l = json_text(s) + x;
    let r = json_text(t) + y;
    let ls = json_escaped(encode_utf8(s)) + seq![0x22u8] + x;
    let rs = json_escaped(encode_utf8(t)) + seq![0x22u8] + y;
    assert(ls =~= l.subrange(1, l.len() as int));
    assert(rs =~= r.subrange(1, r.len() as int));
    lemma_escaped_prefix_free(encode_utf8(s), x, encode_utf8(t), y);
    encode_utf8_decode_utf8(s);
    encode_utf8_decode_utf8(t);
}

/// A member says where it ends: where two members, each followed by more
/// bytes, give the same bytes, the members are the same and so is what
/// follows.
pub proof fn lemma_member_prefix_free(
    a: (Seq<char>, Seq<char>),
    x: Seq<u8>,
    b: (Seq<char>, Seq<char>),
    y: Seq<u8>,
)
    requires
        json_member(a) + x == json_member(b) + y,
    ensures
        a == b,
        x == y,
{
    let av = seq![0x3au8] + (json_text(a.1) + x);
    let bv = seq![0x3au8] + (json_text(b.1) + y);
    assert(json_member(a) + x =~= json_text(a.0) + av);
    assert(json_member(b) + y =~= json_text(b.0) + bv);
    lemma_text_prefix_free(a.0, av, b.0, bv);
    assert(json_text(a.1) + x =~= av.subrange(1, av.len() as int));
    assert(json_text(b.1) + y =~= bv.subrange(1, bv.len() as int));
    lemma_text_prefix_free(a.1, x, b.1, y);
}

/// A member begins with a double quote.
pub proof fn lemma_member_begins_with_quote(a: (Seq<char>, Seq<char>))
    ensures
        json_member(a).len() >= 2,
        json_member(a)[0] == 0x22,
{
    lemma_text_begins_with_quote(a.0);
}

/// What follows the first member of a list that is closed by a brace: the
/// brace, or a comma and the other members and the brace.
spec fn after_first(m: Seq<(Seq<char>, Seq<char>)>, x: Seq<u8>) -> Seq<u8> {
    if m.len() == 1 {
        seq![0x7du8] + x
    } else {
        seq![0x2cu8] + (json_members(m.drop_first()) + seq![0x7du8] + x)
    }
}

proof fn lemma_after_first(m: Seq<(Seq<char>, Seq<char>)>, x: Seq<u8>)
    requires
        m.len() > 0,
    ensures
        json_members(m) + seq![0x7du8] + x == json_member(m[0]) + after_first(m, x),
        after_first(m, x).len() > 0,
        after_first(m, x)[0] == (if m.len() == 1 {
            0x7du8
        } else {
            0x2cu8
        }),
        after_first(m, x).subrange(1, after_first(m, x).len() as int) == (if m.len() == 1 {
            x
        } else {
            json_members(m.drop_first()) + seq![0x7du8] + x
        }),
{
    assert(json_members(m) + seq![0x7du8] + x =~= json_member(m[0]) + after_first(m, x));
    let rest = after_first(m, x).subrange(1, after_first(m, x).len() as int);
    if m.len() == 1 {
        assert(rest =~= x);
    } else {
        assert(rest =~= json_members(m.drop_first()) + seq![0x7du8] + x);
    }
}

/// The members of an object say where they end: where two lists of members,
/// each followed by a closing brace and more bytes, give the same bytes, the
/// lists are the same and so is what follows the brace.
pub proof fn lemma_members_prefix_free(
    m: Seq<(Seq<char>, Seq<char>)>,
    x: Seq<u8>,
    n: Seq<(Seq<char>, Seq<char>)>,
    y: Seq<u8>,
)
    requires
        json_members(m) + seq![0x7du8] + x == json_members(n) + seq![0x7du8] + y,
    ensures
        m == n,
        x == y,
    decreases m.len(),
{
    let l = json_members(m) + seq![0x7du8] + x;
    let r = json_members(n) + seq![0x7du8] + y;
    if m.len() == 0 && n.len() == 0 {
        assert(x =~= l.subrange(1, l.len() as int));
        assert(y =~= r.subrange(1, r.len() as int));
        assert(m =~= n);
    } else if m.len() == 0 {
        lemma_after_first(n, y);
        lemma_member_begins_with_quote(n[0]);
        assert(l[0] == 0x7d);
        assert(r[0] == 0x22);
    } else if n.len() == 0 {
        lemma_after_first(m, x);
        lemma_member_begins_with_quote(m[0]);
        assert(r[0] == 0x7d);
        assert(l[0] == 0x22);
    } else {
        lemma_after_first(m, x);
        lemma_after_first(n, y);
        lemma_member_prefix_free(m[0], after_first(m, x), n[0], after_first(n, y));
        if m.len() > 1 {
            lemma_members_prefix_free(m.drop_first(), x, n.drop_first(), y);
        }
        assert(m =~= seq![m[0]] + m.drop_first());
        assert(n =~= seq![n[0]] + n.drop_first());
    }
}

/// An object can be read in one way only: two lists of members with the same
/// object text are the same list.
pub proof fn lemma_object_injective(m: Seq<(Seq<char>, Seq<char>)>, n: Seq<(Seq<char>, Seq<char>)>)
    requires
        json_object(m) == json_object(n),
    ensures
        m == n,
{
    let l = json_members(m) + seq![0x7du8] + Seq::<u8>::empty();
    let r = json_members(n) + seq![0x7du8] + Seq::<u8>::empty();
    assert(l =~= json_object(m).subrange(1, json_object(m).len() as int));
    assert(r =~= json_object(n).subrange(1, json_object(n).len() as int));
    lemma_members_prefix_free(m, Seq::<u8>::empty(), n, Seq::<u8>::empty());
}

} // verus!
