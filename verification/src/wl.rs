//! Wolfram Language text that the session sends to the kernel.

use vstd::prelude::*;
use crate::text::push_char;

verus! {

/// The marker in [`WSTP_EVALUATE_USER_INPUT_WL`] that stands for the user's input.
pub const USER_INPUT_PLACEHOLDER: &'static str = "WOLFRAMCLIINPUTPLACEHOLDER";

/// How input that asks the user for more input (`Input[..]`, `InputString[..]`) is evaluated:
/// the input, as a string literal, takes the place of the placeholder.
pub const WSTP_EVALUATE_USER_INPUT_WL: &'static str = "ToExpression[WOLFRAMCLIINPUTPLACEHOLDER]";

/// The characters that stand for `c` inside a Wolfram Language string literal.
pub open spec fn escaped_char(c: char) -> Seq<char> {
    if c == '\\' {
        seq!['\\', '\\']
    } else if c == '"' {
        seq!['\\', '"']
    } else {
        seq![c]
    }
}

/// The characters of `s` as they stand inside a Wolfram Language string literal.
pub open spec fn escaped(s: Seq<char>) -> Seq<char>
    decreases s.len(),
{
    if s.len() == 0 {
        Seq::empty()
    } else {
        escaped(s.drop_last()) + escaped_char(s.last())
    }
}

/// The Wolfram Language string literal whose value is `s`.
pub open spec fn string_literal(s: Seq<char>) -> Seq<char> {
    seq!['"'] + escaped(s) + seq!['"']
}

/// Writes `s` as a Wolfram Language string literal: in double quotes, with `\` and `"` escaped.
pub fn wolfram_string_literal(s: &str) -> (r: String)
    ensures
        r@ == string_literal(s@),
{
    let v = crate::text::chars_of(s);
    let mut r = String::new();
    push_char(&mut r, '"');
    let n = v.len();
    for i in 0..n
        invariant
            n == v@.len(),
            r@ == seq!['"'] + escaped(v@.take(i as int)),
    {
        let c = v[i];
        assert(v@.take(i + 1).drop_last() =~= v@.take(i as int));
        let ghost before = r@;
        if c == '\\' {
            push_char(&mut r, '\\');
            push_char(&mut r, '\\');
        } else if c == '"' {
            push_char(&mut r, '\\');
            push_char(&mut r, '"');
        } else {
            push_char(&mut r, c);
        }
        assert(r@ =~= before + escaped_char(c));
        assert(r@ =~= seq!['"'] + escaped(v@.take(i + 1)));
    }
    assert(v@.take(n as int) =~= v@);
    push_char(&mut r, '"');
    assert(r@ =~= string_literal(s@));
    r
}

} // verus!
