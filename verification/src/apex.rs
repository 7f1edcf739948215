//! The hypervisor's error type, carried through the library's errors.

use a653rs::prelude::Error as ApexError;
use vstd::prelude::*;

verus! {

/// The error that the APEX services of the hypervisor report.
#[verifier::external_type_specification]
#[verifier::external_body]
pub struct ExApexError(ApexError);

/// `Clone` of the hypervisor's error, which derives it on an enum whose
/// variants carry no data: the copy is the same variant.
pub assume_specification[ <ApexError as Clone>::clone ](e: &ApexError) -> (r: ApexError)
    ensures
        r == *e,
;

} // verus!
