//! Addresses under which an endpoint can be reached, and the choice of those
//! that are worth handing to a peer on the local network.

use vstd::prelude::*;

verus! {

/// An IPv4 address with a port.
#[derive(Clone, Copy, Debug, PartialEq, Eq)]
pub struct SocketAddressV4 {
    /// The four octets of the address, the most significant first.
    pub octets: [u8; 4],
    /// The port.
    pub port: u16,
}

/// An IPv6 address with a port. The flow information is not kept: no text of an
/// address carries it.
#[derive(Clone, Copy, Debug, PartialEq, Eq)]
pub struct SocketAddressV6 {
    /// The eight segments of the address, the most significant first.
    pub segments: [u16; 8],
    /// The port.
    pub port: u16,
    /// The scope identifier, zero where there is none.
    pub scope_id: u32,
}

/// An IP address with a port.
#[derive(Clone, Copy, Debug, PartialEq, Eq)]
pub enum SocketAddress {
    /// An IPv4 address.
    V4(SocketAddressV4),
    /// An IPv6 address.
    V6(SocketAddressV6),
}

/// One way to reach an endpoint.
#[derive(Clone, Copy, Debug, PartialEq, Eq)]
pub enum TransportAddress {
    /// Through a relay server.
    Relay,
    /// Directly, at this address.
    Ip(SocketAddress),
    /// Through a transport of any other kind.
    Other,
}

/// `iroh::EndpointId`, the public key that identifies an endpoint. It is
/// carried along and never looked into.
#[verifier::external_type_specification]
#[verifier::external_body]
pub struct ExEndpointId(iroh::EndpointId);

/// Where an endpoint can be reached, as far as it matters for a ticket.
#[derive(Debug, PartialEq, Eq)]
pub struct EndpointAddress {
    /// The identity of the endpoint.
    pub id: iroh::EndpointId,
    /// The ways to reach it.
    pub addrs: Vec<TransportAddress>,
}

/// Whether the IPv4 address is in the loopback range 127.0.0.0/8.
pub open spec fn is_loopback_v4(octets: Seq<u8>) -> bool {
    octets[0] == 127
}

/// Whether the IPv6 address is the loopback address `::1`.
pub open spec fn is_loopback_v6(segments: Seq<u16>) -> bool {
    segments[7] == 1 && forall|i: int| 0 <= i < 7 ==> segments[i] == 0
}

/// Whether the IPv4 address is in the range 100.64.0.0/10 that carriers use
/// for translation.
pub open spec fn is_carrier_range(octets: Seq<u8>) -> bool {
    octets[0] == 100 && 64 <= octets[1] <= 127
}

/// Whether the IPv4 address is in the range 172.16.0.0/12 that container
/// bridges use.
pub open spec fn is_bridge_range(octets: Seq<u8>) -> bool {
    octets[0] == 172 && 16 <= octets[1] <= 31
}

/// Whether a peer on the local network may be able to use the address:
/// loopback, carrier and container bridge addresses are left out.
pub open spec fn is_lan_reachable(address: SocketAddress) -> bool {
    match address {
        SocketAddress::V4(v4) => {
            &&& !is_loopback_v4(v4.octets@)
            &&& !is_carrier_range(v4.octets@)
            &&& !is_bridge_range(v4.octets@)
        },
        SocketAddress::V6(v6) => !is_loopback_v6(v6.segments@),
    }
}

/// Whether an address of an endpoint goes into a ticket: direct addresses
/// that a peer on the local network may reach.
pub open spec fn is_shared(address: TransportAddress) -> bool {
    match address {
        TransportAddress::Ip(ip) => is_lan_reachable(ip),
        _ => false,
    }
}

/// The direct addresses that go into a ticket, in the order in which they
/// were listed.
pub open spec fn shared_addresses(addrs: Seq<TransportAddress>) -> Seq<SocketAddress> {
    addrs.filter(|a: TransportAddress| is_shared(a)).map_values(|a: TransportAddress| a->Ip_0)
}

impl SocketAddress {
    /// Whether the address only reaches the machine itself.
    pub fn is_loopback(&self) -> (r: bool)
        ensures
            r == match *self {
                SocketAddress::V4(v4) => is_loopback_v4(v4.octets@),
                SocketAddress::V6(v6) => is_loopback_v6(v6.segments@),
            },
            *self matches SocketAddress::V4(v4) ==> r == (v4.octets@[0] == 127),
            *self matches SocketAddress::V6(v6) ==> r == (v6.segments@ == seq![
                0u16,
                0,
                0,
                0,
                0,
                0,
                0,
                1,
            ]),
    {
        proof {
            if let SocketAddress::V6(v6) = *self {
                law_ipv6_reachable_unless_loopback(v6);
            }
        }
        match self {
            SocketAddress::V4(v4) => v4.octets[0] == 127,
            SocketAddress::V6(v6) => {
                let mut i: usize = 0;
                while i < 7
                    invariant
                        i <= 7,
                        *self == SocketAddress::V6(*v6),
                        forall|j: int| 0 <= j < i ==> v6.segments@[j] == 0,
                    decreases 7 - i,
                {
                    if v6.segments[i] != 0 {
                        return false;
                    }
                    i = i + 1;
                }
                v6.segments[7] == 1
            },
        }
    }

    /// Whether a peer on the local network may be able to use the address.
    pub fn lan_reachable(&self) -> (r: bool)
        ensures
            r == is_lan_reachable(*self),
            *self matches SocketAddress::V4(v4) ==> r == (v4.octets@[0] != 127 && !(v4.octets@[0]
                == 100 && 64 <= v4.octets@[1] <= 127) && !(v4.octets@[0] == 172 && 16
                <= v4.octets@[1] <= 31)),
            *self matches SocketAddress::V6(v6) ==> r == (v6.segments@ != seq![
                0u16,
                0,
                0,
                0,
                0,
                0,
                0,
                1,
            ]),
    {
        if self.is_loopback() {
            return false;
        }
        match self {
            SocketAddress::V4(v4) => {
                let second: u8 = v4.octets[1];
                assert((second & 0xc0 == 0x40) == (64 <= second <= 127)) by (bit_vector);
                assert((second & 0xf0 == 0x10) == (16 <= second <= 31)) by (bit_vector);
                if v4.octets[0] == 100 && (second & 0xc0) == 0x40 {
                    return false;
                }
                if v4.octets[0] == 172 && (second & 0xf0) == 0x10 {
                    return false;
                }
                true
            },
            SocketAddress::V6(_) => true,
        }
    }
}

/// Picks the direct addresses that go into a ticket.
pub fn pick_shared_addresses(addrs: &Vec<TransportAddress>) -> (r: Vec<SocketAddress>)
    ensures
        r@ == shared_addresses(addrs@),
        r@.len() <= addrs@.len(),
{
    let mut picked: Vec<SocketAddress> = Vec::new();
    let mut i: usize = 0;
    let ghost shared = |a: TransportAddress| is_shared(a);
    proof {
        reveal(Seq::filter);
        assert(addrs@.take(0).filter(shared).map_values(|a: TransportAddress| a->Ip_0)
            =~= picked@);
    }
    while i < addrs.len()
        invariant
            i <= addrs.len(),
            picked@.len() <= i,
            shared == (|a: TransportAddress| is_shared(a)),
            picked@ == shared_addresses(addrs@.take(i as int)),
        decreases addrs.len() - i,
    {
        let ghost before = picked@;
        match &addrs[i] {
            TransportAddress::Ip(ip) => {
                if ip.lan_reachable() {
                    picked.push(*ip);
                }
            },
            _ => {},
        }
        proof {
            reveal(Seq::filter);
            let prefix = addrs@.take(i as int);
            let longer = addrs@.take(i + 1);
            assert(longer.drop_last() =~= prefix);
            assert(longer.last() == addrs@[i as int]);
            if is_shared(addrs@[i as int]) {
                assert(longer.filter(shared) == prefix.filter(shared).push(addrs@[i as int]));
                assert(shared_addresses(longer) =~= before.push(addrs@[i as int]->Ip_0));
            } else {
                assert(longer.filter(shared) == prefix.filter(shared));
            }
        }
        i = i + 1;
    }
    assert(addrs@.take(addrs@.len() as int) =~= addrs@);
    picked
}

/// Private networks of the forms 10.x.x.x and 192.168.x.x are always kept.
pub proof fn law_private_networks_kept(address: SocketAddressV4)
    requires
        address.octets@[0] == 10 || (address.octets@[0] == 192 && address.octets@[1] == 168),
    ensures
        is_lan_reachable(SocketAddress::V4(address)),
{
}

/// IPv6 link-local addresses (fe80::/10) and unique local addresses
/// (fc00::/7) are always kept.
pub proof fn law_local_ipv6_kept(address: SocketAddressV6)
    requires
        0xfe80 <= address.segments@[0] <= 0xfebf || 0xfc00 <= address.segments@[0] <= 0xfdff,
    ensures
        is_lan_reachable(SocketAddress::V6(address)),
{
}

/// What goes into a ticket is exactly the direct addresses of the endpoint
/// that a peer on the local network may reach.
pub proof fn law_shared_addresses_exact(addrs: Seq<TransportAddress>, address: SocketAddress)
    ensures
        shared_addresses(addrs).contains(address) <==> addrs.contains(TransportAddress::Ip(address))
            && is_lan_reachable(address),
{
    let shared = |a: TransportAddress| is_shared(a);
    let kept = addrs.filter(shared);
    if shared_addresses(addrs).contains(address) {
        let i = choose|i: int|
            0 <= i < shared_addresses(addrs).len() && shared_addresses(addrs)[i] == address;
        addrs.lemma_filter_pred(shared, i);
        assert(kept.contains(kept[i]));
        addrs.lemma_filter_contains_rev(shared, kept[i]);
    }
    if addrs.contains(TransportAddress::Ip(address)) && is_lan_reachable(address) {
        let i = choose|i: int| 0 <= i < addrs.len() && addrs[i] == TransportAddress::Ip(address);
        addrs.lemma_filter_contains(shared, i);
        let k = choose|k: int| 0 <= k < kept.len() && kept[k] == addrs[i];
        assert(shared_addresses(addrs)[k] == address);
    }
}

/// An IPv4 address is shared exactly outside 127.0.0.0/8, 100.64.0.0/10 and
/// 172.16.0.0/12, whatever its port.
pub proof fn law_ipv4_reachable_outside_ranges(address: SocketAddressV4)
    ensures
        is_lan_reachable(SocketAddress::V4(address)) <==> address.octets@[0] != 127 && !(
        address.octets@[0] == 100 && 64 <= address.octets@[1] <= 127) && !(address.octets@[0] == 172
            && 16 <= address.octets@[1] <= 31),
        is_loopback_v4(address.octets@) <==> address.octets@[0] == 127,
{
}

/// An IPv6 address is shared exactly where it is not `::1`, whatever its port
/// and scope.
pub proof fn law_ipv6_reachable_unless_loopback(address: SocketAddressV6)
    ensures
        is_lan_reachable(SocketAddress::V6(address)) <==> address.segments@ != seq![
            0u16,
            0,
            0,
            0,
            0,
            0,
            0,
            1,
        ],
        is_loopback_v6(address.segments@) <==> address.segments@ == seq![
            0u16,
            0,
            0,
            0,
            0,
            0,
            0,
            1,
        ],
{
    let s = address.segments@;
    let one = seq![0u16, 0, 0, 0, 0, 0, 0, 1];
    assert(s.len() == 8);
    if is_loopback_v6(s) {
        assert(s =~= one);
    }
    if s == one {
        assert(s[7] == 1);
        assert forall|i: int| 0 <= i < 7 implies s[i] == 0 by {}
    }
}

/// Of a single address a ticket shares itself, where it is a direct one outside
/// the ranges that are left out, and nothing otherwise.
pub proof fn law_shared_of_one(address: TransportAddress)
    ensures
        shared_addresses(seq![address]) == match address {
            TransportAddress::Ip(SocketAddress::V4(v4)) => if v4.octets@[0] == 127 || (v4.octets@[0]
                == 100 && 64 <= v4.octets@[1] <= 127) || (v4.octets@[0] == 172 && 16 <= v4.octets@[1]
                <= 31) {
                Seq::<SocketAddress>::empty()
            } else {
                seq![SocketAddress::V4(v4)]
            },
            TransportAddress::Ip(SocketAddress::V6(v6)) => if v6.segments@ == seq![
                0u16,
                0,
                0,
                0,
                0,
                0,
                0,
                1,
            ] {
                Seq::<SocketAddress>::empty()
            } else {
                seq![SocketAddress::V6(v6)]
            },
            _ => Seq::<SocketAddress>::empty(),
        },
{
    reveal(Seq::filter);
    let shared = |a: TransportAddress| is_shared(a);
    let one = seq![address];
    assert(one.drop_last() =~= Seq::<TransportAddress>::empty());
    assert(one.drop_last().filter(shared) =~= Seq::<TransportAddress>::empty());
    assert(one.last() == address);
    if let TransportAddress::Ip(SocketAddress::V6(v6)) = address {
        law_ipv6_reachable_unless_loopback(v6);
    }
    if is_shared(address) {
        assert(one.filter(shared) =~= one);
        assert(shared_addresses(one) =~= seq![address->Ip_0]);
    } else {
        assert(one.filter(shared) =~= Seq::<TransportAddress>::empty());
        assert(shared_addresses(one) =~= Seq::<SocketAddress>::empty());
    }
}

/// What is shared of a list is what is shared of its parts, in the same order
/// and as often.
pub proof fn law_shared_of_parts(front: Seq<TransportAddress>, back: Seq<TransportAddress>)
    ensures
        shared_addresses(front + back) == shared_addresses(front) + shared_addresses(back),
        shared_addresses(Seq::<TransportAddress>::empty()) == Seq::<SocketAddress>::empty(),
{
    reveal(Seq::filter);
    let shared = |a: TransportAddress| is_shared(a);
    Seq::filter_distributes_over_add(front, back, shared);
    assert(shared_addresses(front + back) =~= shared_addresses(front) + shared_addresses(back));
    assert(shared_addresses(Seq::<TransportAddress>::empty()) =~= Seq::<SocketAddress>::empty());
}

/// Whether a direct address is shared depends on the address alone: on its octets
/// or segments, and not on the port or the scope.
pub proof fn law_reachable_by_address_alone(address: SocketAddress, r: bool, loopback: bool)
    requires
        call_ensures(SocketAddress::lan_reachable, (&address,), r),
        call_ensures(SocketAddress::is_loopback, (&address,), loopback),
    ensures
        loopback ==> !r,
        address matches SocketAddress::V4(v4) ==> (r <==> v4.octets@[0] != 127 && !(v4.octets@[0]
            == 100 && 64 <= v4.octets@[1] <= 127) && !(v4.octets@[0] == 172 && 16 <= v4.octets@[1]
            <= 31)),
        address matches SocketAddress::V6(v6) ==> (r <==> v6.segments@ != seq![
            0u16,
            0,
            0,
            0,
            0,
            0,
            0,
            1,
        ]),
        address is V6 ==> r == !loopback,
{
}

/// Picking addresses from a longer list adds to the end what the further
/// addresses give, and keeps what was picked.
pub proof fn law_picking_goes_address_by_address(
    addrs: &Vec<TransportAddress>,
    longer: &Vec<TransportAddress>,
    address: TransportAddress,
    r: Vec<SocketAddress>,
    more: Vec<SocketAddress>,
)
    requires
        longer@ == addrs@.push(address),
        call_ensures(pick_shared_addresses, (addrs,), r),
        call_ensures(pick_shared_addresses, (longer,), more),
    ensures
        more@ == match address {
            TransportAddress::Ip(SocketAddress::V4(v4)) => if v4.octets@[0] == 127 || (v4.octets@[0]
                == 100 && 64 <= v4.octets@[1] <= 127) || (v4.octets@[0] == 172 && 16 <= v4.octets@[1]
                <= 31) {
                r@
            } else {
                r@.push(SocketAddress::V4(v4))
            },
            TransportAddress::Ip(SocketAddress::V6(v6)) => if v6.segments@ == seq![
                0u16,
                0,
                0,
                0,
                0,
                0,
                0,
                1,
            ] {
                r@
            } else {
                r@.push(SocketAddress::V6(v6))
            },
            _ => r@,
        },
        addrs@.len() == 0 ==> r@.len() == 0,
{
    law_shared_of_parts(addrs@, seq![address]);
    law_shared_of_one(address);
    assert(longer@ =~= addrs@ + seq![address]);
    if addrs@.len() == 0 {
        assert(addrs@ =~= Seq::<TransportAddress>::empty());
    }
}

} // verus!
