//! Network arithmetic on addresses, done by `ipnet`.

use vstd::prelude::*;

verus! {

/// What `ipnet` makes of `ip` as an IPv6 address with the given prefix
/// length: the text of the network it lies in, or `None` where `ip` is no
/// IPv6 address.
pub uninterp spec fn ipv6_network_text(ip: Seq<char>, prefix_len: u8) -> Option<Seq<char>>;

/// Calls `ipnet`: the text `ip/prefix_len` is parsed by `Ipv6Net::from_str`,
/// cut down to its network by `Ipv6Net::trunc`, and printed by its `Display`
/// impl. The contract only gives that result a name; it claims that the same
/// text always yields the same network text.
#[verifier::external_body]
pub(crate) fn ipv6_network(ip: &str, prefix_len: u8) -> (r: Option<String>)
    ensures
        r.is_some() == ipv6_network_text(ip@, prefix_len).is_some(),
        r.is_some() ==> r.unwrap()@ == ipv6_network_text(ip@, prefix_len).unwrap(),
{
    let parsed = format!("{}/{}", ip, prefix_len).parse::<ipnet::Ipv6Net>();
    parsed.ok().map(|net| net.trunc().to_string())
}

} // verus!
