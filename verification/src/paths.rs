//! Filesystem paths are carried through the state machines untouched; the
//! library never looks inside one.

use vstd::prelude::*;

verus! {

/// `std::path::PathBuf`, carried opaquely.
#[verifier::external_type_specification]
#[verifier::external_body]
pub struct ExPathBuf(std::path::PathBuf);

/// `PathBuf::clone`: a duplicate of the path, equal to it. Nothing about
/// the path's contents is stated; the library only carries paths through.
pub assume_specification[ <std::path::PathBuf as Clone>::clone ](p: &std::path::PathBuf) -> (r: std::path::PathBuf)
    ensures
        r == *p,
;

} // verus!
