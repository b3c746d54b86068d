use vstd::prelude::*;
use vstd::string::StringExecFns;
use crate::error::VenomError;

verus! {

/// Prefix put before every namespace to form the shared-object name.
pub const SHM_PREFIX: &'static str = "/venom_";

/// Longest namespace, in bytes, whose prefixed name fits the 255-byte limit.
pub const MAX_NAME_LEN: usize = 248;

/// The shared-object name of `namespace`: the prefix followed by the
/// namespace, or `NamespaceTooLong` when the namespace is longer than
/// `MAX_NAME_LEN` bytes.
pub fn shm_name(namespace: &str) -> (r: Result<String, VenomError>)
    ensures
        namespace.len() <= MAX_NAME_LEN <==> (r is Ok),
        (r is Ok) ==> (r->Ok_0@ == SHM_PREFIX@ + namespace@),
        (r is Err) ==> (r->Err_0 == (VenomError::NamespaceTooLong {
            max: MAX_NAME_LEN,
            got: namespace.len(),
        })),
{
    let len = namespace.len();
    if len > MAX_NAME_LEN {
        return Err(VenomError::NamespaceTooLong { max: MAX_NAME_LEN, got: len });
    }
    Ok(String::from_str(SHM_PREFIX).concat(namespace))
}

} // verus!
