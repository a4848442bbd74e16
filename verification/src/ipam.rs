//! Address management for the container bridge: containers get addresses in
//! 10.0.0.0/24, from 10.0.0.2 up to 10.0.0.253 (10.0.0.1 is the bridge itself).
use vstd::prelude::*;
use crate::text::{append_decimal, decimal, owned};

verus! {

/// Why no address could be handed out.
#[derive(Debug, PartialEq, Eq, Structural, Clone, Copy)]
pub enum IpamError {
    /// Every address from 10.0.0.2 to 10.0.0.253 is in use.
    Exhausted,
}

/// The text `10.0.0.` that every container address begins with.
pub open spec fn subnet_prefix() -> Seq<char> {
    "10.0.0."@
}

/// The container address whose last octet is `i`.
pub open spec fn subnet_ip(i: nat) -> Seq<char> {
    subnet_prefix() + decimal(i)
}

/// Whether a container already holds the address `ip`.
pub open spec fn ip_taken(used: Seq<String>, ip: Seq<char>) -> bool {
    exists|k: int| 0 <= k < used.len() && #[trigger] used[k]@ == ip
}

/// Whether `used` holds a string equal to `s`.
fn contains_string(used: &Vec<String>, s: &String) -> (r: bool)
    ensures
        r == ip_taken(used@, s@),
{
    let mut k: usize = 0;
    while k < used.len()
        invariant
            k <= used.len(),
            forall|j: int| 0 <= j < k ==> #[trigger] used@[j]@ != s@,
        decreases used.len() - k,
    {
        if used[k] == *s {
            return true;
        }
        k = k + 1;
    }
    false
}

/// `ip` is the lowest address of the subnet that no running container holds.
pub open spec fn is_lowest_free(used: Seq<String>, ip: Seq<char>) -> bool {
    exists|i: nat|
        2 <= i < 254 && ip == #[trigger] subnet_ip(i) && !ip_taken(used, subnet_ip(i)) && forall|
            j: nat,
        | 2 <= j < i ==> ip_taken(used, #[trigger] subnet_ip(j))
}

/// Every address of the subnet is held by a running container.
pub open spec fn all_taken(used: Seq<String>) -> bool {
    forall|j: nat| 2 <= j < 254 ==> ip_taken(used, #[trigger] subnet_ip(j))
}

/// The lowest free address of the subnet, given the addresses of the running
/// containers.
pub fn allocate_ip(used: &Vec<String>) -> (r: Result<String, IpamError>)
    ensures
        match r {
            Ok(ip) => !all_taken(used@) && is_lowest_free(used@, ip@),
            Err(e) => e == IpamError::Exhausted && all_taken(used@),
        },
{
    let mut i: u64 = 2;
    while i < 254
        invariant
            2 <= i <= 254,
            forall|j: nat| 2 <= j < i ==> ip_taken(used@, #[trigger] subnet_ip(j)),
        decreases 254 - i,
    {
        let mut ip = owned("10.0.0.");
        append_decimal(&mut ip, i);
        assert(ip@ == subnet_ip(i as nat));
        if !contains_string(used, &ip) {
            assert(!ip_taken(used@, subnet_ip(i as nat)));
            return Ok(ip);
        }
        i = i + 1;
    }
    Err(IpamError::Exhausted)
}

} // verus!
