//! The keyed storage of the grids: `slab::Slab`, which hands out a key for
//! each value it stores and reuses the keys of removed values.
use vstd::prelude::*;

verus! {

/// `slab::Slab<T>`, carried through opaquely; what it holds is given by the
/// names declared beside each of its instantiations.
#[verifier::external_type_specification]
#[verifier::external_body]
#[verifier::reject_recursive_types(T)]
pub struct ExSlab<T>(slab::Slab<T>);

} // verus!
