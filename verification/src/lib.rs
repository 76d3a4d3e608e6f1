//! Front end of a tree-walking interpreter for a small C-like scripting
//! language: a scanner that turns source text into tokens, a
//! recursive-descent parser that turns tokens into an expression tree, and a
//! debug printer for that tree. Every fallible operation reports a
//! diagnostic value instead of aborting.

pub mod expr;
pub mod parser;
pub mod scanner;
pub mod token;

use vstd::prelude::*;

verus! {

use vstd::string::StringExecFns;
use vstd::utf8::decode_utf8;
use vstd::utf8::valid_utf8;
use crate::token::push_decimal;
use crate::token::spec_decimal;

/// The diagnostic line reported for an error at a source line.
pub fn error(line: u32, message: &str) -> (r: String)
    ensures
        r@ == "[line "@ + spec_decimal(line as nat) + "] Error: "@ + message@,
{
    let mut s = String::from_str("[line ");
    push_decimal(&mut s, line as usize);
    s.append("] Error: ");
    s.append(message);
    proof {
        assert(s@ =~= "[line "@ + spec_decimal(line as nat) + "] Error: "@ + message@);
    }
    s
}

/// Relies on `std::str::from_utf8`: it returns `Ok` exactly on well-formed
/// UTF-8 input, and the resulting text holds the decoded characters.
#[verifier::external_body]
fn utf8_to_str(buffer: &[u8]) -> (r: Option<&str>)
    ensures
        r is Some <==> valid_utf8(buffer@),
        r matches Some(s) ==> s@ == decode_utf8(buffer@),
{
    match std::str::from_utf8(buffer) {
        Ok(s) => Some(s),
        Err(_) => None,
    }
}

/// Decodes a byte buffer as UTF-8 source text, or reports `None` on a byte
/// sequence that is not well-formed UTF-8.
pub fn convert_bytes_to_string(buffer: &Vec<u8>) -> (r: Option<&str>)
    ensures
        r is Some <==> valid_utf8(buffer@),
        r matches Some(s) ==> s@ == decode_utf8(buffer@),
{
    utf8_to_str(buffer.as_slice())
}

} // verus!
