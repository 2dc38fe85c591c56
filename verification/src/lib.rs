//! Extraction of string constants from compiled Java artifacts: a verified
//! class-file constant-pool decoder, an archive walk over JAR containers, a
//! properties-value scanner, and an entropy-ranked output policy over
//! centibit scores.

pub mod archive;
pub mod bytes;
pub mod classfile;
pub mod decode;
pub mod pipeline;
pub mod policy;
pub mod props;
pub mod score;

use vstd::prelude::*;

verus! {

/// ASCII whitespace, the separators between the words of an extracted string.
pub open spec fn is_ascii_ws(b: u8) -> bool {
    b == 9 || b == 10 || b == 12 || b == 13 || b == 32
}

pub fn byte_is_ws(b: u8) -> (r: bool)
    ensures
        r == is_ascii_ws(b),
{
    b == 9 || b == 10 || b == 12 || b == 13 || b == 32
}

} // verus!
