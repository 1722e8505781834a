use vstd::prelude::*;

verus! {

/// The tokens of an earlier, stand-alone cut of the reader; the
/// reader used now works on characters directly, and this alphabet is
/// kept for reference.
#[derive(Clone, Copy, Debug, PartialEq, Eq, Structural)]
pub enum Token {
    LParen,
    RParen,
    Plus,
    Minus,
    Int(usize),
}

} // verus!
