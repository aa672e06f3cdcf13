//! The random-number generator injected by callers. The generator itself is
//! opaque: nothing is promised of the values it produces.

use vstd::prelude::*;

verus! {

#[verifier::external_type_specification]
#[verifier::external_body]
pub struct ExStdRng(ark_std::rand::rngs::StdRng);

} // verus!
