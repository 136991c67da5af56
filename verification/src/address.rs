//! The choice among the addresses that a host name resolves to.

use vstd::prelude::*;
use crate::args::IPv;

verus! {

/// No address of the requested family resolves for the host and port.
#[derive(Clone, Copy, Debug, PartialEq, Eq, Structural)]
pub struct AddressResolutionFailure;

/// Whether `i` is the place of the first address of family `want`.
pub open spec fn first_of_family(families: Seq<IPv>, want: IPv, i: int) -> bool {
    &&& 0 <= i < families.len()
    &&& families[i] == want
    &&& forall|j: int| 0 <= j < i ==> families[j] != want
}

/// Whether no address is of family `want`.
pub open spec fn none_of_family(families: Seq<IPv>, want: IPv) -> bool {
    forall|j: int| 0 <= j < families.len() ==> families[j] != want
}

/// Picks, among the resolved addresses, the first of the requested family.
/// `families` holds the family of each address, in the order in which the
/// resolver gave them; the result is the place of the one to use. It fails
/// exactly where no address is of that family.
pub fn select_address(
    families: &[IPv],
    want: IPv,
) -> (found: Result<usize, AddressResolutionFailure>)
    ensures
        match found {
            Ok(i) => first_of_family(families@, want, i as int),
            Err(_) => none_of_family(families@, want),
        },
{
    let mut i: usize = 0;
    while i < families.len()
        invariant
            i <= families@.len(),
            forall|j: int| 0 <= j < i ==> families@[j] != want,
        decreases families@.len() - i,
    {
        if families[i] == want {
            return Ok(i);
        }
        i = i + 1;
    }
    Err(AddressResolutionFailure)
}

/// Asking for IPv6 of a host that resolves to IPv4 addresses only fails:
/// there is no place for `select_address` to give.
pub proof fn ipv6_of_ipv4_only_fails(families: Seq<IPv>)
    requires
        forall|j: int| 0 <= j < families.len() ==> families[j] == IPv::IPv4,
    ensures
        none_of_family(families, IPv::IPv6),
        forall|i: int| !first_of_family(families, IPv::IPv6, i),
{
}

} // verus!
