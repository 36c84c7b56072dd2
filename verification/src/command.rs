//! How a command is shown before it is run: the program and its arguments
//! on one line, an argument in single quotes where the shell would
//! otherwise split or unquote it.

use crate::text::{chars_of, is_space, is_white_space, push_char};
use vstd::prelude::*;
use vstd::string::StringExecFns;

verus! {

/// Whether a character makes quotes necessary: white space or a quote.
pub open spec fn calls_for_quotes(c: char) -> bool {
    is_white_space(c) || c == '\'' || c == '"'
}

/// Whether an argument is shown in quotes.
pub open spec fn needs_quotes(arg: Seq<char>) -> bool {
    exists|i: int| 0 <= i < arg.len() && calls_for_quotes(#[trigger] arg[i])
}

/// What a character becomes between single quotes: a single quote closes
/// the quotes, stands escaped, and opens them again; any other character
/// stands for itself.
pub open spec fn between_quotes(c: char) -> Seq<char> {
    if c == '\'' {
        seq!['\'', '\\', '\'', '\'']
    } else {
        seq![c]
    }
}

/// An argument as it stands between single quotes.
pub open spec fn quote_escaped(arg: Seq<char>) -> Seq<char>
    decreases arg.len(),
{
    if arg.len() == 0 {
        seq![]
    } else {
        between_quotes(arg[0]) + quote_escaped(arg.drop_first())
    }
}

/// An argument as it is shown.
pub open spec fn shown_arg(arg: Seq<char>) -> Seq<char> {
    if needs_quotes(arg) {
        seq!['\''] + quote_escaped(arg) + seq!['\'']
    } else {
        arg
    }
}

/// A command as it is shown: the program, and each argument after a space.
pub open spec fn shown_command(program: Seq<char>, args: Seq<Seq<char>>) -> Seq<char>
    decreases args.len(),
{
    if args.len() == 0 {
        program
    } else {
        shown_command(program, args.drop_last()) + seq![' '] + shown_arg(args.last())
    }
}

/// The texts of a list of strings.
pub open spec fn texts_of(args: Seq<String>) -> Seq<Seq<char>> {
    Seq::new(args.len(), |i: int| args[i]@)
}

/// Whether one of the characters makes quotes necessary.
fn chars_need_quotes(chars: &Vec<char>) -> (needed: bool)
    ensures
        needed == needs_quotes(chars@),
{
    let mut i: usize = 0;
    while i < chars.len()
        invariant
            i <= chars.len(),
            forall|k: int| 0 <= k < i ==> !calls_for_quotes(#[trigger] chars@[k]),
        decreases chars.len() - i,
    {
        let c = chars[i];
        if is_space(c) || c == '\'' || c == '"' {
            assert(calls_for_quotes(chars@[i as int]));
            return true;
        }
        i += 1;
    }
    false
}

/// An argument as it is shown.
pub fn quote_arg(arg: &str) -> (shown: String)
    ensures
        shown@ == shown_arg(arg@),
{
    let chars = chars_of(arg);
    if !chars_need_quotes(&chars) {
        return arg.to_owned();
    }
    let mut shown = String::new();
    push_char(&mut shown, '\'');
    let mut i: usize = 0;
    assert(chars@.skip(0) =~= chars@);
    while i < chars.len()
        invariant
            i <= chars.len(),
            shown@ + quote_escaped(chars@.skip(i as int)) == seq!['\''] + quote_escaped(chars@),
        decreases chars.len() - i,
    {
        let ghost before = shown@;
        let ghost rest = chars@.skip(i as int);
        assert(rest.drop_first() =~= chars@.skip(i as int + 1));
        assert(rest[0] == chars@[i as int]);
        let c = chars[i];
        if c == '\'' {
            push_char(&mut shown, '\'');
            push_char(&mut shown, '\\');
            push_char(&mut shown, '\'');
            push_char(&mut shown, '\'');
        } else {
            push_char(&mut shown, c);
        }
        assert(shown@ =~= before + between_quotes(c));
        assert(shown@ + quote_escaped(chars@.skip(i as int + 1)) =~= before + quote_escaped(rest));
        i += 1;
    }
    assert(quote_escaped(chars@.skip(chars.len() as int)) =~= Seq::<char>::empty());
    assert(shown@ =~= seq!['\''] + quote_escaped(chars@));
    push_char(&mut shown, '\'');
    shown
}

/// A command as it is shown.
pub fn format_command(program: &str, args: &Vec<String>) -> (shown: String)
    ensures
        shown@ == shown_command(program@, texts_of(args@)),
{
    let mut shown = program.to_owned();
    let mut i: usize = 0;
    assert(texts_of(args@).take(0) =~= Seq::<Seq<char>>::empty());
    while i < args.len()
        invariant
            i <= args.len(),
            shown@ == shown_command(program@, texts_of(args@).take(i as int)),
        decreases args.len() - i,
    {
        let quoted = quote_arg(args[i].as_str());
        push_char(&mut shown, ' ');
        shown.append(quoted.as_str());
        proof {
            let more = texts_of(args@).take(i as int + 1);
            assert(more.drop_last() =~= texts_of(args@).take(i as int));
            assert(more.last() == args@[i as int]@);
        }
        i += 1;
    }
    assert(texts_of(args@).take(args.len() as int) =~= texts_of(args@));
    shown
}

} // verus!
