//! Continuous peer discovery over the local network.
//!
//! Two halves, both running for the life of the process:
//!
//! - **Announce**: say who we are, every few seconds, forever.
//! - **Listen**: accept announcements at any time.
//!
//! It is deliberately not a scan. A scan answers "who is up right now", which is
//! the wrong question for a workspace whose machines boot at different times,
//! associate to Wi-Fi slowly, or have an Ethernet cable plugged in an hour
//! later. Announcing on a timer means a machine that appears at any moment is
//! found within one interval, with no retry logic anywhere else in the system.
//!
//! ## Every interface, explicitly
//!
//! The one thing this module must not do is let the routing table choose the
//! network card. Joining or sending with an unspecified address delegates that to
//! interface metrics, and on an ordinary machine the winner is routinely a
//! host-only adapter or a container network: all real interfaces, all with better
//! metrics than Wi-Fi, none with another computer on them. The symptom is total
//! silence between two machines sitting on the same Wi-Fi, and nothing in any log
//! to explain it.
//!
//! So: join the group on **every** IPv4 interface, and send one copy out of
//! **each**, with the outgoing interface set explicitly. A few wasted datagrams
//! on a virtual adapter cost nothing. Picking the wrong one costs the product.

use vstd::prelude::*;

use crate::addr;
use crate::addr::{Endpoint, Ip, Ipv4};
use crate::peers::{Moment, Sighting};
use crate::wire::Announcement;

verus! {

/// An administratively scoped multicast group, 239.255.42.98: routable inside a
/// site, never forwarded onto the internet.
pub const GROUP: u32 = 0xefff_2a62;

/// One usable IPv4 interface on this machine.
#[derive(Debug)]
pub struct Interface {
    pub name: String,
    pub address: Ipv4,
    /// Broadcast address of this interface's subnet, when it has one.
    pub broadcast: Option<Ipv4>,
    /// A `169.254.x.x` address: an adapter that never got a lease. Kept, since
    /// two machines on a dumb switch really do talk over these, but reported,
    /// so the interface can explain a quiet network instead of just shrugging.
    pub self_assigned: bool,
}

/// An interface as contracts speak of it.
pub struct InterfaceView {
    pub name: Seq<char>,
    pub address: Ipv4,
    pub broadcast: Option<Ipv4>,
    pub self_assigned: bool,
}

impl View for Interface {
    type V = InterfaceView;

    open spec fn view(&self) -> InterfaceView {
        InterfaceView {
            name: self.name@,
            address: self.address,
            broadcast: self.broadcast,
            self_assigned: self.self_assigned,
        }
    }
}

impl Clone for Interface {
    fn clone(&self) -> (r: Self)
        ensures
            r == *self,
    {
        Interface {
            name: self.name.clone(),
            address: self.address,
            broadcast: self.broadcast,
            self_assigned: self.self_assigned,
        }
    }
}

impl PartialEq for Interface {
    fn eq(&self, other: &Self) -> (r: bool) {
        self.name == other.name && self.address == other.address && self.broadcast
            == other.broadcast && self.self_assigned == other.self_assigned
    }
}

impl vstd::std_specs::cmp::PartialEqSpecImpl for Interface {
    open spec fn obeys_eq_spec() -> bool {
        true
    }

    open spec fn eq_spec(&self, other: &Self) -> bool {
        self@ == other@
    }
}

impl Eq for Interface {

}

/// An address that the operating system reports for one of its interfaces.
#[derive(Debug)]
pub struct FoundAddress {
    pub name: String,
    pub loopback: bool,
    /// The IPv4 address and broadcast address; `None` for an IPv6 address.
    pub v4: Option<(Ipv4, Option<Ipv4>)>,
}

/// A list of interfaces as contracts speak of it.
pub open spec fn interfaces_view(list: Seq<Interface>) -> Seq<InterfaceView> {
    Seq::new(list.len(), |i: int| list[i]@)
}

/// The interface that a reported address stands for: one with an IPv4 address
/// that is no loopback.
pub open spec fn usable(found: FoundAddress) -> Option<InterfaceView> {
    match found.v4 {
        Some((address, broadcast)) => if found.loopback {
            None
        } else {
            Some(
                InterfaceView {
                    name: found.name@,
                    address,
                    broadcast,
                    self_assigned: address / 0x1_0000 == 0xa9fe,
                },
            )
        },
        None => None,
    }
}

/// `one` in its place in a list ordered by address; dropped where the list has its
/// address already.
pub open spec fn placed(list: Seq<InterfaceView>, one: InterfaceView) -> Seq<InterfaceView>
    decreases list.len(),
{
    if list.len() == 0 || list.last().address < one.address {
        list.push(one)
    } else if list.last().address == one.address {
        list
    } else {
        placed(list.drop_last(), one).push(list.last())
    }
}

/// The usable interfaces by ascending address, the first reported for each.
pub open spec fn arranged(found: Seq<FoundAddress>) -> Seq<InterfaceView>
    decreases found.len(),
{
    if found.len() == 0 {
        Seq::empty()
    } else {
        let init = arranged(found.drop_last());
        match usable(found.last()) {
            Some(one) => placed(init, one),
            None => init,
        }
    }
}

/// Addresses in strictly ascending order.
pub open spec fn addresses_ascend(list: Seq<InterfaceView>) -> bool {
    forall|i: int, j: int|
        0 <= i < j < list.len() ==> (#[trigger] list[i]).address < (#[trigger] list[j]).address
}

/// Where placing lands.
proof fn placed_at(list: Seq<InterfaceView>, one: InterfaceView, at: int)
    requires
        0 <= at <= list.len(),
        at > 0 ==> list[at - 1].address <= one.address,
        forall|k: int| at <= k < list.len() ==> (#[trigger] list[k]).address > one.address,
    ensures
        placed(list, one) == (if at > 0 && list[at - 1].address == one.address {
            list
        } else {
            list.insert(at, one)
        }),
    decreases list.len(),
{
    if at == list.len() {
        if list.len() == 0 || list.last().address < one.address {
            assert(list.insert(at, one) =~= list.push(one));
        }
    } else {
        let init = list.drop_last();
        placed_at(init, one, at);
        if at > 0 && list[at - 1].address == one.address {
            assert(init.push(list.last()) =~= list);
        } else {
            assert(init.insert(at, one).push(list.last()) =~= list.insert(at, one));
        }
    }
}

proof fn placed_ascends(list: Seq<InterfaceView>, one: InterfaceView)
    requires
        addresses_ascend(list),
    ensures
        addresses_ascend(placed(list, one)),
        forall|x: InterfaceView| #[trigger]
            placed(list, one).contains(x) ==> list.contains(x) || x == one,
        forall|x: InterfaceView| #[trigger] list.contains(x) ==> placed(list, one).contains(x),
        exists|x: InterfaceView| #[trigger]
            placed(list, one).contains(x) && x.address == one.address,
    decreases list.len(),
{
    let out = placed(list, one);
    if list.len() == 0 || list.last().address < one.address {
        assert(out[out.len() - 1] == one);
        assert(out.contains(one));
        assert forall|i: int, j: int| 0 <= i < j < out.len() implies (#[trigger] out[i]).address < (
        #[trigger] out[j]).address by {
            if j == list.len() && i < list.len() - 1 {
                assert(list[i].address < list[list.len() - 1].address);
            }
        }
        assert forall|x: InterfaceView| #[trigger] list.contains(x) implies out.contains(x) by {
            let k = choose|k: int| 0 <= k < list.len() && list[k] == x;
            assert(out[k] == x);
        }
    } else if list.last().address == one.address {
        assert(list[list.len() - 1] == list.last());
        assert(out.contains(list.last()));
    } else {
        let init = list.drop_last();
        assert(addresses_ascend(init)) by {
            assert forall|i: int, j: int| 0 <= i < j < init.len() implies (
            #[trigger] init[i]).address < (#[trigger] init[j]).address by {
                assert(list[i].address < list[j].address);
            }
        }
        placed_ascends(init, one);
        let inner = placed(init, one);
        assert(out == inner.push(list.last()));
        assert forall|i: int, j: int| 0 <= i < j < out.len() implies (#[trigger] out[i]).address < (
        #[trigger] out[j]).address by {
            if j == inner.len() {
                assert(inner.contains(inner[i]));
                if init.contains(inner[i]) {
                    let k = choose|k: int| 0 <= k < init.len() && init[k] == inner[i];
                    assert(list[k].address < list[list.len() - 1].address);
                }
            }
        }
        assert forall|x: InterfaceView| #[trigger] out.contains(x) implies list.contains(x) || x
            == one by {
            let k = choose|k: int| 0 <= k < out.len() && out[k] == x;
            if k < inner.len() {
                assert(inner[k] == x);
                assert(inner.contains(x));
                if init.contains(x) {
                    let m = choose|m: int| 0 <= m < init.len() && init[m] == x;
                    assert(list[m] == x);
                }
            } else {
                assert(list[list.len() - 1] == x);
            }
        }
        assert forall|x: InterfaceView| #[trigger] list.contains(x) implies out.contains(x) by {
            let k = choose|k: int| 0 <= k < list.len() && list[k] == x;
            if k < init.len() {
                assert(init[k] == x);
                assert(init.contains(x));
                let m = choose|m: int| 0 <= m < inner.len() && inner[m] == x;
                assert(out[m] == x);
            } else {
                assert(out[inner.len() as int] == x);
            }
        }
        let x = choose|x: InterfaceView| #[trigger] inner.contains(x) && x.address == one.address;
        let m = choose|m: int| 0 <= m < inner.len() && inner[m] == x;
        assert(out[m] == x);
        assert(out.contains(x));
    }
}

/// The list of interfaces goes by strictly ascending address; every entry is a
/// reported address that can be used; and every usable address is in it once.
pub proof fn every_usable_address_is_listed_once(found: Seq<FoundAddress>)
    ensures
        addresses_ascend(arranged(found)),
        forall|x: InterfaceView| #[trigger]
            arranged(found).contains(x) ==> exists|k: int|
                0 <= k < found.len() && usable(#[trigger] found[k]) == Some(x),
        forall|k: int|
            0 <= k < found.len() && usable(#[trigger] found[k]) is Some ==> exists|
                x: InterfaceView,
            | #[trigger]
                arranged(found).contains(x) && x.address == (usable(found[k])->0).address,
    decreases found.len(),
{
    if found.len() > 0 {
        let init = found.drop_last();
        every_usable_address_is_listed_once(init);
        let before = arranged(init);
        if let Some(one) = usable(found.last()) {
            placed_ascends(before, one);
        }
        assert forall|x: InterfaceView| #[trigger] arranged(found).contains(x) implies exists|
            k: int,
        |
            0 <= k < found.len() && usable(#[trigger] found[k]) == Some(x) by {
            if before.contains(x) {
                let k = choose|k: int| 0 <= k < init.len() && usable(#[trigger] init[k]) == Some(x);
                assert(usable(found[k]) == Some(x));
            } else {
                assert(usable(found[found.len() - 1]) == Some(x));
            }
        }
        assert forall|k: int|
            0 <= k < found.len() && usable(#[trigger] found[k]) is Some implies exists|
            x: InterfaceView,
        | #[trigger]
            arranged(found).contains(x) && x.address == (usable(found[k])->0).address by {
            if k < init.len() {
                assert(usable(init[k]) is Some);
                let x = choose|x: InterfaceView| #[trigger]
                    before.contains(x) && x.address == (usable(init[k])->0).address;
                assert(arranged(found).contains(x));
            } else {
                let one = usable(found.last())->0;
                let x = choose|x: InterfaceView| #[trigger]
                    placed(before, one).contains(x) && x.address == one.address;
                assert(arranged(found).contains(x));
            }
        }
    }
}

/// Every IPv4 interface worth announcing on, given what the operating system
/// reports.
pub fn interfaces(found: &Vec<FoundAddress>) -> (r: Vec<Interface>)
    ensures
        interfaces_view(r@) == arranged(found@),
{
    let mut out: Vec<Interface> = Vec::new();
    let mut i: usize = 0;
    assert(found@.take(0) =~= Seq::empty());
    assert(interfaces_view(out@) =~= Seq::empty());
    while i < found.len()
        invariant
            i <= found@.len(),
            interfaces_view(out@) == arranged(found@.take(i as int)),
        decreases found@.len() - i,
    {
        assert(found@.take(i + 1).drop_last() =~= found@.take(i as int));
        let one = &found[i];
        if let Some((address, broadcast)) = one.v4 {
            if !one.loopback {
                let interface = Interface {
                    name: one.name.clone(),
                    address,
                    broadcast,
                    self_assigned: address / 0x1_0000 == 0xa9fe,
                };
                assert(usable(found@[i as int]) == Some(interface@));
                let mut at: usize = out.len();
                while at > 0 && out[at - 1].address > address
                    invariant
                        at <= out@.len(),
                        forall|k: int| at <= k < out@.len() ==> (#[trigger] out@[k]).address > address,
                    decreases at,
                {
                    at = at - 1;
                }
                proof {
                    let list = interfaces_view(out@);
                    assert forall|k: int| at <= k < list.len() implies (
                    #[trigger] list[k]).address > interface@.address by {
                        assert(out@[k].address > address);
                    }
                    placed_at(list, interface@, at as int);
                }
                if at == 0 || out[at - 1].address != address {
                    let ghost before = out@;
                    let ghost added = interface@;
                    out.insert(at, interface);
                    assert(interfaces_view(out@) =~= interfaces_view(before).insert(
                        at as int,
                        added,
                    ));
                }
            }
        }
        i = i + 1;
    }
    assert(found@.take(i as int) =~= found@);
    out
}

/// Whether two lists of interfaces are the same.
pub fn same_interfaces(a: &Vec<Interface>, b: &Vec<Interface>) -> (r: bool)
    ensures
        r == (interfaces_view(a@) == interfaces_view(b@)),
{
    if a.len() != b.len() {
        assert(interfaces_view(a@).len() != interfaces_view(b@).len());
        return false;
    }
    let mut i: usize = 0;
    while i < a.len()
        invariant
            i <= a@.len(),
            a@.len() == b@.len(),
            forall|k: int|
                0 <= k < i ==> (#[trigger] interfaces_view(a@)[k]) == interfaces_view(b@)[k],
        decreases a@.len() - i,
    {
        if !(a[i] == b[i]) {
            assert(interfaces_view(a@)[i as int] != interfaces_view(b@)[i as int]);
            return false;
        }
        i = i + 1;
    }
    assert(interfaces_view(a@) =~= interfaces_view(b@));
    true
}

/// Crude but adequate: a match of the first three bytes is what home and
/// small-office networks look like, and being wrong only means sending from every
/// interface instead of one.
pub fn same_subnet(interface: &Interface, target: Ipv4) -> (r: bool)
    ensures
        r == (interface.address / 256 == target / 256),
{
    interface.address / 256 == target / 256
}

/// The first interface that shares the subnet of `target`.
pub open spec fn neighbour(list: Seq<InterfaceView>, target: Ipv4) -> Option<Ipv4>
    decreases list.len(),
{
    if list.len() == 0 {
        None
    } else if list[0].address / 256 == target / 256 {
        Some(list[0].address)
    } else {
        neighbour(list.drop_first(), target)
    }
}

/// Which senders carry a datagram to one address.
#[derive(Clone, Copy, Debug, PartialEq, Eq, Structural)]
pub enum Route {
    /// None: the address is not an IPv4 one.
    Nowhere,
    /// The sender on this interface.
    From(Ipv4),
    /// All of them. No obvious match: try them all rather than guess. A typed-in
    /// address is someone telling us the automatic path already failed.
    Everywhere,
}

/// The route to `target`: the sender of the interface that shares its subnet if
/// there is one, and every sender otherwise.
pub open spec fn route_to(list: Seq<InterfaceView>, senders: Seq<Ipv4>, target: Ip) -> Route {
    match target {
        Ip::V6(_) => Route::Nowhere,
        Ip::V4(ip) => match neighbour(list, ip) {
            Some(address) => if senders.contains(address) {
                Route::From(address)
            } else {
                Route::Everywhere
            },
            None => Route::Everywhere,
        },
    }
}

/// Whether `list` holds `address`.
fn holds(list: &Vec<Ipv4>, address: Ipv4) -> (r: bool)
    ensures
        r == list@.contains(address),
{
    let mut i: usize = 0;
    while i < list.len()
        invariant
            i <= list@.len(),
            forall|k: int| 0 <= k < i ==> list@[k] != address,
        decreases list@.len() - i,
    {
        if list[i] == address {
            return true;
        }
        i = i + 1;
    }
    false
}

/// How to send one datagram to a specific address: from whichever interface
/// shares its subnet if any does. `senders` are the interfaces with a socket.
pub fn send_unicast(interfaces: &Vec<Interface>, senders: &Vec<Ipv4>, target: Endpoint) -> (r: Route)
    ensures
        r == route_to(interfaces_view(interfaces@), senders@, target.ip),
{
    let ip: Ipv4 = match target.ip {
        Ip::V4(ip) => ip,
        Ip::V6(_) => {
            return Route::Nowhere;
        },
    };
    let ghost list = interfaces_view(interfaces@);
    let mut i: usize = 0;
    assert(list.skip(0) =~= list);
    while i < interfaces.len()
        invariant
            i <= interfaces@.len(),
            list == interfaces_view(interfaces@),
            target.ip == Ip::V4(ip),
            neighbour(list, ip) == neighbour(list.skip(i as int), ip),
        decreases interfaces@.len() - i,
    {
        assert(list.skip(i as int).drop_first() =~= list.skip(i + 1));
        if same_subnet(&interfaces[i], ip) {
            let address: Ipv4 = interfaces[i].address;
            return if holds(senders, address) {
                Route::From(address)
            } else {
                Route::Everywhere
            };
        }
        i = i + 1;
    }
    Route::Everywhere
}

/// One datagram to be sent.
#[derive(Clone, Copy, Debug, PartialEq, Eq, Structural)]
pub struct Datagram {
    /// The interface whose socket sends it.
    pub from: Ipv4,
    pub to: Endpoint,
    /// Whether it asks for an answer.
    pub probe: bool,
}

/// The announcing half: the interfaces it knows, and those that it has a socket
/// on.
pub struct Announcer {
    pub known: Vec<Interface>,
    pub senders: Vec<Ipv4>,
}

/// Those of `senders` that one of `list` still has.
pub open spec fn kept(senders: Seq<Ipv4>, list: Seq<InterfaceView>) -> Seq<Ipv4>
    decreases senders.len(),
{
    if senders.len() == 0 {
        Seq::empty()
    } else {
        let init = kept(senders.drop_last(), list);
        if has_address(list, senders.last()) {
            init.push(senders.last())
        } else {
            init
        }
    }
}

/// Whether an interface of `list` has this address.
pub open spec fn has_address(list: Seq<InterfaceView>, address: Ipv4) -> bool {
    exists|k: int| 0 <= k < list.len() && (#[trigger] list[k]).address == address
}

/// The addresses of `list` that have no sender.
pub open spec fn missing(list: Seq<InterfaceView>, senders: Seq<Ipv4>) -> Seq<Ipv4>
    decreases list.len(),
{
    if list.len() == 0 {
        Seq::empty()
    } else {
        let init = missing(list.drop_last(), senders);
        if senders.contains(list.last().address) {
            init
        } else {
            init.push(list.last().address)
        }
    }
}

/// The announcements of one round: for each known interface with a socket one to
/// the group, and one to its subnet if that has a broadcast address.
pub open spec fn announcements(list: Seq<InterfaceView>, senders: Seq<Ipv4>, port: u16) -> Seq<
    Datagram,
>
    decreases list.len(),
{
    if list.len() == 0 {
        Seq::empty()
    } else {
        let init = announcements(list.drop_last(), senders, port);
        let one = list.last();
        if !senders.contains(one.address) {
            init
        } else {
            let sent = init.push(
                Datagram {
                    from: one.address,
                    to: addr::endpoint(Ip::V4(GROUP), port),
                    probe: false,
                },
            );
            match one.broadcast {
                Some(broadcast) => sent.push(
                    Datagram {
                        from: one.address,
                        to: addr::endpoint(Ip::V4(broadcast), port),
                        probe: false,
                    },
                ),
                None => sent,
            }
        }
    }
}

/// One datagram from each sender to a target.
pub open spec fn from_everywhere(senders: Seq<Ipv4>, target: Endpoint) -> Seq<Datagram> {
    Seq::new(senders.len(), |i: int| Datagram { from: senders[i], to: target, probe: true })
}

/// The probes to one typed-in address.
pub open spec fn probe_one(list: Seq<InterfaceView>, senders: Seq<Ipv4>, target: Endpoint) -> Seq<
    Datagram,
> {
    match route_to(list, senders, target.ip) {
        Route::Nowhere => Seq::empty(),
        Route::From(address) => seq![Datagram { from: address, to: target, probe: true }],
        Route::Everywhere => from_everywhere(senders, target),
    }
}

/// The probes to all typed-in addresses.
pub open spec fn probes(list: Seq<InterfaceView>, senders: Seq<Ipv4>, targets: Seq<Endpoint>) -> Seq<
    Datagram,
>
    decreases targets.len(),
{
    if targets.len() == 0 {
        Seq::empty()
    } else {
        probes(list, senders, targets.drop_last()) + probe_one(list, senders, targets.last())
    }
}

impl Announcer {
    pub fn new() -> (r: Self)
        ensures
            r.known@ == Seq::<Interface>::empty(),
            r.senders@ == Seq::<Ipv4>::empty(),
    {
        Announcer { known: Vec::new(), senders: Vec::new() }
    }

    /// Takes in the interfaces as they are now. If they changed, drops the senders
    /// of those that are gone and returns the addresses to open a sender on, in
    /// order.
    ///
    /// A Wi-Fi reconnect, a new lease, a cable, a VPN coming up. Rebuild, rather
    /// than keep sending from an address that no longer exists.
    pub fn refresh(&mut self, current: Vec<Interface>) -> (r: Vec<Ipv4>)
        ensures
            interfaces_view(final(self).known@) == interfaces_view(current@),
            interfaces_view(old(self).known@) == interfaces_view(current@) ==> {
                &&& r@ == Seq::<Ipv4>::empty()
                &&& final(self).senders@ == old(self).senders@
            },
            interfaces_view(old(self).known@) != interfaces_view(current@) ==> {
                &&& final(self).senders@ == kept(
                    old(self).senders@,
                    interfaces_view(current@),
                )
                &&& r@ == missing(interfaces_view(current@), final(self).senders@)
            },
    {
        if same_interfaces(&self.known, &current) {
            return Vec::new();
        }
        let ghost list = interfaces_view(current@);
        let ghost before = self.senders@;
        let mut still: Vec<Ipv4> = Vec::new();
        let mut i: usize = 0;
        assert(before.take(0) =~= Seq::empty());
        while i < self.senders.len()
            invariant
                i <= self.senders@.len(),
                self.senders@ == before,
                list == interfaces_view(current@),
                still@ == kept(before.take(i as int), list),
            decreases self.senders@.len() - i,
        {
            assert(before.take(i + 1).drop_last() =~= before.take(i as int));
            if Self::listed(&current, self.senders[i]) {
                still.push(self.senders[i]);
            }
            i = i + 1;
        }
        assert(before.take(i as int) =~= before);
        let mut open: Vec<Ipv4> = Vec::new();
        let mut j: usize = 0;
        assert(list.take(0) =~= Seq::empty());
        while j < current.len()
            invariant
                j <= current@.len(),
                list == interfaces_view(current@),
                open@ == missing(list.take(j as int), still@),
            decreases current@.len() - j,
        {
            assert(list.take(j + 1).drop_last() =~= list.take(j as int));
            if !holds(&still, current[j].address) {
                open.push(current[j].address);
            }
            j = j + 1;
        }
        assert(list.take(j as int) =~= list);
        self.senders = still;
        self.known = current;
        open
    }

    /// Whether an interface of `list` has this address.
    fn listed(list: &Vec<Interface>, address: Ipv4) -> (r: bool)
        ensures
            r == has_address(interfaces_view(list@), address),
    {
        let ghost view = interfaces_view(list@);
        let mut i: usize = 0;
        while i < list.len()
            invariant
                i <= list@.len(),
                view == interfaces_view(list@),
                forall|k: int| 0 <= k < i ==> (#[trigger] view[k]).address != address,
            decreases list@.len() - i,
        {
            if list[i].address == address {
                assert(view[i as int].address == address);
                return true;
            }
            i = i + 1;
        }
        false
    }

    /// A sender was opened on this interface.
    pub fn opened(&mut self, address: Ipv4)
        ensures
            interfaces_view(final(self).known@) == interfaces_view(old(self).known@),
            final(self).senders@ == (if old(self).senders@.contains(address) {
                old(self).senders@
            } else {
                old(self).senders@.push(address)
            }),
    {
        if !holds(&self.senders, address) {
            self.senders.push(address);
        }
    }

    /// The datagrams of one round, in the order in which they are sent: the
    /// announcements, then the probes to addresses that somebody typed in. Those
    /// ask for a reply, so entering an address on one machine is enough to
    /// introduce both.
    ///
    /// Broadcast goes out as well as multicast. Some access points drop multicast
    /// between wireless clients while still passing broadcast, and both together
    /// cost one extra small datagram per interface.
    pub fn round(&self, port: u16, targets: &Vec<Endpoint>) -> (r: Vec<Datagram>)
        ensures
            r@ == announcements(interfaces_view(self.known@), self.senders@, port) + probes(
                interfaces_view(self.known@),
                self.senders@,
                targets@,
            ),
    {
        let ghost list = interfaces_view(self.known@);
        let mut out: Vec<Datagram> = Vec::new();
        let mut i: usize = 0;
        assert(list.take(0) =~= Seq::empty());
        while i < self.known.len()
            invariant
                i <= self.known@.len(),
                list == interfaces_view(self.known@),
                out@ == announcements(list.take(i as int), self.senders@, port),
            decreases self.known@.len() - i,
        {
            assert(list.take(i + 1).drop_last() =~= list.take(i as int));
            let one = &self.known[i];
            if holds(&self.senders, one.address) {
                out.push(
                    Datagram {
                        from: one.address,
                        to: Endpoint::new(Ip::V4(GROUP), port),
                        probe: false,
                    },
                );
                if let Some(broadcast) = one.broadcast {
                    out.push(
                        Datagram {
                            from: one.address,
                            to: Endpoint::new(Ip::V4(broadcast), port),
                            probe: false,
                        },
                    );
                }
            }
            i = i + 1;
        }
        assert(list.take(i as int) =~= list);
        let ghost head = out@;
        let mut j: usize = 0;
        assert(targets@.take(0) =~= Seq::empty());
        assert(head + Seq::<Datagram>::empty() =~= head);
        while j < targets.len()
            invariant
                j <= targets@.len(),
                list == interfaces_view(self.known@),
                out@ == head + probes(list, self.senders@, targets@.take(j as int)),
            decreases targets@.len() - j,
        {
            assert(targets@.take(j + 1).drop_last() =~= targets@.take(j as int));
            let ghost so_far = out@;
            let target = targets[j];
            self.probe(target, &mut out);
            assert(out@ =~= head + (probes(list, self.senders@, targets@.take(j as int))
                + probe_one(list, self.senders@, target)));
            j = j + 1;
        }
        assert(targets@.take(j as int) =~= targets@);
        out
    }

    /// Adds the probes to one typed-in address.
    fn probe(&self, target: Endpoint, out: &mut Vec<Datagram>)
        ensures
            final(out)@ == old(out)@ + probe_one(
                interfaces_view(self.known@),
                self.senders@,
                target,
            ),
    {
        let ghost before = out@;
        match send_unicast(&self.known, &self.senders, target) {
            Route::Nowhere => {
                assert(before + Seq::<Datagram>::empty() =~= before);
            },
            Route::From(address) => {
                out.push(Datagram { from: address, to: target, probe: true });
                assert(out@ =~= before + seq![Datagram { from: address, to: target, probe: true }]);
            },
            Route::Everywhere => {
                let ghost all = from_everywhere(self.senders@, target);
                let mut i: usize = 0;
                assert(before + all.take(0) =~= before);
                while i < self.senders.len()
                    invariant
                        i <= self.senders@.len(),
                        all == from_everywhere(self.senders@, target),
                        out@ == before + all.take(i as int),
                    decreases self.senders@.len() - i,
                {
                    out.push(Datagram { from: self.senders[i], to: target, probe: true });
                    assert(all.take(i + 1) =~= all.take(i as int).push(all[i as int]));
                    assert(out@ =~= before + all.take(i + 1));
                    i = i + 1;
                }
                assert(all.take(i as int) =~= all);
            },
        }
    }
}

/// What happens to the listening half.
pub enum ListenEvent {
    /// The port could not be bound.
    BindFailed,
    /// A datagram came from an endpoint; `None` where it is no announcement.
    Received { announcement: Option<Announcement>, from: Endpoint },
    /// Receiving failed.
    ReceiveFailed,
    /// Time to look at the interfaces again.
    Recheck { current: Vec<Interface> },
    /// Nobody takes sightings any more.
    SinkClosed,
}

/// What the listening half does next.
pub enum ListenAction {
    /// Go on receiving.
    Continue,
    /// Hand a sighting on, then go on.
    Forward(Sighting),
    /// Leave the socket, wait, and bind anew.
    Rebind { after: Moment },
    Stop,
}

/// How long to wait before the port is tried again after it could not be bound.
pub const RETRY_BIND: u64 = 2_000_000_000;

/// How long to wait before the listener is bound anew.
pub const REJOIN: u64 = 300_000_000;

/// How often the interfaces are looked at while listening.
pub const RECHECK: u64 = 5_000_000_000;

/// How the interfaces that the group was joined on, what happens to the listening half
/// and what it does next relate.
pub open spec fn listens(on: Seq<InterfaceView>, event: ListenEvent, r: ListenAction) -> bool {
    match event {
        ListenEvent::BindFailed => r == (ListenAction::Rebind { after: RETRY_BIND }),
        ListenEvent::Received { announcement, from } => match announcement {
            Some(a) => if a.protocol == crate::crypto::PROTOCOL_VERSION {
                r == ListenAction::Forward(Sighting { announcement: a, from })
            } else {
                r == ListenAction::Continue
            },
            None => r == ListenAction::Continue,
        },
        ListenEvent::ReceiveFailed => r == (ListenAction::Rebind { after: REJOIN }),
        ListenEvent::Recheck { current } => if interfaces_view(current@) == on {
            r == ListenAction::Continue
        } else {
            r == (ListenAction::Rebind { after: REJOIN })
        },
        ListenEvent::SinkClosed => r == ListenAction::Stop,
    }
}

/// The listening half, one step at a time. `on` are the interfaces that the group
/// was joined on.
///
/// Anyone can send anything here, so what is received is trusted for nothing: a
/// datagram that is no announcement, or one of another protocol version, is
/// dropped. An address that appears after startup (Wi-Fi associating late, a
/// cable, a VPN) has to be joined too, or this machine stays deaf on the only
/// network that matters.
pub fn listen(on: &Vec<Interface>, event: ListenEvent) -> (r: ListenAction)
    ensures
        listens(interfaces_view(on@), event, r),
{
    match event {
        ListenEvent::BindFailed => ListenAction::Rebind { after: RETRY_BIND },
        ListenEvent::Received { announcement, from } => match announcement {
            Some(announcement) => {
                if announcement.is_current() {
                    ListenAction::Forward(Sighting { announcement, from })
                } else {
                    ListenAction::Continue
                }
            },
            None => ListenAction::Continue,
        },
        ListenEvent::ReceiveFailed => ListenAction::Rebind { after: REJOIN },
        ListenEvent::Recheck { current } => {
            if same_interfaces(&current, on) {
                ListenAction::Continue
            } else {
                ListenAction::Rebind { after: REJOIN }
            }
        },
        ListenEvent::SinkClosed => ListenAction::Stop,
    }
}

/// The list with an address: at the end, unless it is there already.
pub open spec fn with_address(manual: Seq<Endpoint>, at: Endpoint) -> Seq<Endpoint> {
    if manual.contains(at) {
        manual
    } else {
        manual.push(at)
    }
}

/// Adds an address to try directly, unless it is there already.
pub fn add_manual_peer(manual: &mut Vec<Endpoint>, at: Endpoint)
    ensures
        final(manual)@ == with_address(old(manual)@, at),
{
    let mut i: usize = 0;
    while i < manual.len()
        invariant
            i <= manual@.len(),
            manual@ == old(manual)@,
            forall|k: int| 0 <= k < i ==> manual@[k] != at,
        decreases manual@.len() - i,
    {
        if manual[i] == at {
            return;
        }
        i = i + 1;
    }
    manual.push(at);
}

/// The list without an address.
pub open spec fn without(manual: Seq<Endpoint>, at: Endpoint) -> Seq<Endpoint>
    decreases manual.len(),
{
    if manual.len() == 0 {
        Seq::empty()
    } else {
        let init = without(manual.drop_last(), at);
        if manual.last() == at {
            init
        } else {
            init.push(manual.last())
        }
    }
}

/// Forgets an address that was to be tried directly.
pub fn forget_manual_peer(manual: &mut Vec<Endpoint>, at: Endpoint)
    ensures
        final(manual)@ == without(old(manual)@, at),
{
    let ghost before = manual@;
    let mut kept: Vec<Endpoint> = Vec::new();
    let mut i: usize = 0;
    assert(before.take(0) =~= Seq::empty());
    while i < manual.len()
        invariant
            i <= manual@.len(),
            manual@ == before,
            kept@ == without(before.take(i as int), at),
        decreases manual@.len() - i,
    {
        assert(before.take(i + 1).drop_last() =~= before.take(i as int));
        if manual[i] != at {
            kept.push(manual[i]);
        }
        i = i + 1;
    }
    assert(before.take(i as int) =~= before);
    *manual = kept;
}

/// The port to bind when the preferred one could not be; zero stands for any free one.
pub open spec fn second_choice(preferred: u16, taken: bool) -> Option<u16> {
    if preferred != 0 && taken {
        Some(0u16)
    } else {
        None
    }
}

/// The port to bind when the preferred one could not be: any free one if it was
/// taken, and none if something else was wrong.
///
/// A busy port is not a reason to have no networking at all: another copy of the
/// app, or something unrelated, may already hold the configured one. The real
/// port is published in the announcements, so peers find it regardless.
pub fn bind_transport(preferred: u16, taken: bool) -> (r: Option<u16>)
    ensures
        r == second_choice(preferred, taken),
{
    if preferred != 0 && taken {
        Some(0)
    } else {
        None
    }
}

/// Every known interface with a socket carries the announcement to the group.
pub proof fn every_sender_announces(
    list: Seq<InterfaceView>,
    senders: Seq<Ipv4>,
    port: u16,
    k: int,
)
    requires
        0 <= k < list.len(),
        senders.contains(list[k].address),
    ensures
        announcements(list, senders, port).contains(
            Datagram {
                from: list[k].address,
                to: addr::endpoint(Ip::V4(GROUP), port),
                probe: false,
            },
        ),
    decreases list.len(),
{
    let sent = Datagram {
        from: list[k].address,
        to: addr::endpoint(Ip::V4(GROUP), port),
        probe: false,
    };
    let all = announcements(list, senders, port);
    let init = announcements(list.drop_last(), senders, port);
    if k < list.len() - 1 {
        assert(list.drop_last()[k] == list[k]);
        every_sender_announces(list.drop_last(), senders, port, k);
        let m = choose|m: int| 0 <= m < init.len() && init[m] == sent;
        assert(all[m] == sent);
    } else {
        assert(all[init.len() as int] == sent);
    }
}

/// An address that was forgotten is not in the list any more, and every other one
/// still is.
pub proof fn forgetting_removes_one_address(manual: Seq<Endpoint>, at: Endpoint, other: Endpoint)
    ensures
        !without(manual, at).contains(at),
        other != at ==> (without(manual, at).contains(other) <==> manual.contains(other)),
    decreases manual.len(),
{
    if manual.len() > 0 {
        let init = manual.drop_last();
        forgetting_removes_one_address(init, at, other);
        let out = without(manual, at);
        let inner = without(init, at);
        if manual.last() != at {
            assert forall|x: Endpoint| out.contains(x) implies inner.contains(x) || x
                == manual.last() by {
                let k = choose|k: int| 0 <= k < out.len() && out[k] == x;
                if k < inner.len() {
                    assert(inner[k] == x);
                }
            }
        }
        if other != at {
            if manual.contains(other) {
                let k = choose|k: int| 0 <= k < manual.len() && manual[k] == other;
                if k < init.len() {
                    assert(init[k] == other);
                    let m = choose|m: int| 0 <= m < inner.len() && inner[m] == other;
                    assert(out[m] == other);
                } else {
                    assert(out[out.len() - 1] == other);
                }
            }
            if out.contains(other) {
                if inner.contains(other) {
                    let k = choose|k: int| 0 <= k < init.len() && init[k] == other;
                    assert(manual[k] == other);
                } else {
                    assert(manual[manual.len() - 1] == other);
                }
            }
        }
    }
}

/// Whether a report is of an IPv4 address that other machines can reach.
pub open spec fn is_reachable(found: FoundAddress) -> bool {
    found.v4 is Some && !found.loopback
}

/// Every IPv4 address of this machine but the loopback ones is announced on, whatever
/// else its interface is like; what is known of it is what was reported of it, and it
/// counts as self-assigned exactly if it lies in 169.254.0.0 to 169.254.255.255.
pub proof fn every_network_is_announced_on(found: Seq<FoundAddress>, k: int, x: InterfaceView)
    requires
        0 <= k < found.len(),
    ensures
        is_reachable(found[k]) ==> exists|one: InterfaceView| #[trigger]
            arranged(found).contains(one) && one.address == (found[k].v4->0).0,
        arranged(found).contains(x) ==> exists|j: int|
            0 <= j < found.len() && is_reachable(#[trigger] found[j]) && x.name == found[j].name@
                && found[j].v4 == Some((x.address, x.broadcast)),
        arranged(found).contains(x) ==> (x.self_assigned <==> addr::dotted(169, 254, 0, 0)
            <= x.address <= addr::dotted(169, 254, 255, 255)),
{
    every_usable_address_is_listed_once(found);
    if is_reachable(found[k]) {
        assert(usable(found[k]) is Some);
    }
    if arranged(found).contains(x) {
        let j = choose|j: int| 0 <= j < found.len() && usable(#[trigger] found[j]) == Some(x);
        assert(is_reachable(found[j]));
    }
}

/// Where the first neighbour stands, if there is one.
proof fn neighbour_is_listed(list: Seq<InterfaceView>, target: Ipv4) -> (k: int)
    ensures
        neighbour(list, target) matches Some(address) ==> 0 <= k < list.len() && list[k].address
            == address && address / 256 == target / 256,
        neighbour(list, target) is None ==> forall|j: int|
            0 <= j < list.len() ==> (#[trigger] list[j]).address / 256 != target / 256,
    decreases list.len(),
{
    if list.len() == 0 {
        0
    } else if list[0].address / 256 == target / 256 {
        0
    } else {
        let rest = list.drop_first();
        let k = neighbour_is_listed(rest, target);
        if neighbour(rest, target) is None {
            assert forall|j: int| 0 <= j < list.len() implies (#[trigger] list[j]).address / 256
                != target / 256 by {
                if j > 0 {
                    assert(rest[j - 1] == list[j]);
                }
            }
        }
        k + 1
    }
}

/// An address is sent to from this machine's own network around it, the one that shares
/// its first three bytes, where there is one with a socket; from every network where
/// there is none, rather than from a wrong one; and an IPv6 address from nowhere.
pub proof fn an_address_is_reached_from_its_own_network(
    list: Seq<InterfaceView>,
    senders: Seq<Ipv4>,
    target: Ipv4,
    other: u128,
)
    ensures
        route_to(list, senders, Ip::V4(target)) matches Route::From(address) ==> senders.contains(
            address,
        ) && has_address(list, address) && address / 256 == target / 256,
        route_to(list, senders, Ip::V4(target)) != Route::Nowhere,
        (exists|k: int|
            0 <= k < list.len() && (#[trigger] list[k]).address / 256 == target / 256) && (forall|
            k: int,
        |
            0 <= k < list.len() ==> senders.contains((#[trigger] list[k]).address)) ==> route_to(
            list,
            senders,
            Ip::V4(target),
        ) is From,
        route_to(list, senders, Ip::V6(other)) == Route::Nowhere,
{
    let k = neighbour_is_listed(list, target);
    if neighbour(list, target) is Some {
        assert(list[k].address == neighbour(list, target)->0);
    }
}

/// What is announced in a round goes out of a socket that this machine has, on a
/// network that it is on, to the group 239.255.42.98 or to that network's broadcast
/// address, at the discovery port, and asks for no answer.
pub proof fn announcements_go_to_the_group_and_the_subnet(
    list: Seq<InterfaceView>,
    senders: Seq<Ipv4>,
    port: u16,
    i: int,
)
    requires
        0 <= i < announcements(list, senders, port).len(),
    ensures
        ({
            let sent = announcements(list, senders, port)[i];
            &&& senders.contains(sent.from)
            &&& !sent.probe
            &&& sent.to.port == port
            &&& exists|k: int|
                0 <= k < list.len() && (#[trigger] list[k]).address == sent.from && (sent.to
                    == addr::endpoint(Ip::V4(addr::dotted(239, 255, 42, 98) as u32), port) || (
                list[k].broadcast matches Some(broadcast) && sent.to == addr::endpoint(
                    Ip::V4(broadcast),
                    port,
                )))
        }),
    decreases list.len(),
{
    assert(addr::dotted(239, 255, 42, 98) == GROUP);
    let rest = list.drop_last();
    let init = announcements(rest, senders, port);
    let last = list.len() - 1;
    assert(list[last] == list.last());
    if i < init.len() {
        announcements_go_to_the_group_and_the_subnet(rest, senders, port, i);
        let sent = init[i];
        let k = choose|k: int|
            0 <= k < rest.len() && (#[trigger] rest[k]).address == sent.from && (sent.to
                == addr::endpoint(Ip::V4(addr::dotted(239, 255, 42, 98) as u32), port) || (
            rest[k].broadcast matches Some(broadcast) && sent.to == addr::endpoint(
                Ip::V4(broadcast),
                port,
            )));
        assert(rest[k] == list[k]);
    }
}

/// Every network with a socket and a broadcast address is announced to by broadcast too:
/// some access points drop multicast and still pass broadcast.
pub proof fn every_subnet_is_announced_to(
    list: Seq<InterfaceView>,
    senders: Seq<Ipv4>,
    port: u16,
    k: int,
)
    requires
        0 <= k < list.len(),
        senders.contains(list[k].address),
        list[k].broadcast is Some,
    ensures
        exists|i: int|
            0 <= i < announcements(list, senders, port).len() && (#[trigger] announcements(
                list,
                senders,
                port,
            )[i]).from == list[k].address && announcements(list, senders, port)[i].to
                == addr::endpoint(Ip::V4(list[k].broadcast->0), port),
    decreases list.len(),
{
    let rest = list.drop_last();
    let init = announcements(rest, senders, port);
    let all = announcements(list, senders, port);
    if k < rest.len() {
        assert(rest[k] == list[k]);
        every_subnet_is_announced_to(rest, senders, port, k);
        let i = choose|i: int|
            0 <= i < init.len() && (#[trigger] init[i]).from == list[k].address && init[i].to
                == addr::endpoint(Ip::V4(list[k].broadcast->0), port);
        assert(all[i] == init[i]);
    } else {
        assert(all[(init.len() + 1) as int].from == list[k].address);
    }
}

/// Every typed-in IPv4 address is probed, at its own port, from one of this machine's
/// sockets, as long as there is any; nothing else is; and every probe asks for an
/// answer.
pub proof fn typed_in_addresses_are_probed(
    list: Seq<InterfaceView>,
    senders: Seq<Ipv4>,
    targets: Seq<Endpoint>,
    t: int,
    i: int,
)
    requires
        0 <= t < targets.len(),
        senders.len() > 0,
    ensures
        targets[t].ip is V4 ==> exists|k: int|
            0 <= k < probes(list, senders, targets).len() && (#[trigger] probes(
                list,
                senders,
                targets,
            )[k]).to == targets[t],
        0 <= i < probes(list, senders, targets).len() ==> {
            let sent = probes(list, senders, targets)[i];
            sent.probe && senders.contains(sent.from) && targets.contains(sent.to)
        },
    decreases targets.len(),
{
    let rest = targets.drop_last();
    let init = probes(list, senders, rest);
    let one = probe_one(list, senders, targets.last());
    let all = probes(list, senders, targets);
    let last = targets.len() - 1;
    assert(targets[last] == targets.last());
    assert(all == init + one);
    if rest.len() == 0 {
        assert(init.len() == 0);
    }
    if t < rest.len() {
        typed_in_addresses_are_probed(list, senders, rest, t, i);
        if targets[t].ip is V4 {
            assert(rest[t] == targets[t]);
            let k = choose|k: int| 0 <= k < init.len() && (#[trigger] init[k]).to == targets[t];
            assert(all[k] == init[k]);
        }
    } else {
        if 0 <= i < init.len() {
            typed_in_addresses_are_probed(list, senders, rest, 0, i);
        }
        if targets[t].ip is V4 {
            an_address_is_reached_from_its_own_network(
                list,
                senders,
                targets[t].ip->V4_0,
                0,
            );
            assert(one[0].to == targets[t]);
            assert(all[init.len() as int] == one[0]);
        }
    }
    if 0 <= i < init.len() {
        assert(all[i] == init[i]);
        let j = choose|j: int| 0 <= j < rest.len() && rest[j] == init[i].to;
        assert(targets[j] == init[i].to);
    } else if init.len() <= i < all.len() {
        assert(all[i] == one[i - init.len()]);
        if targets.last().ip is V4 {
            an_address_is_reached_from_its_own_network(
                list,
                senders,
                targets.last().ip->V4_0,
                0,
            );
        }
    }
}

/// When the networks change, this machine keeps the sockets of those that are still
/// there and opens one on each of the others: afterwards it has one on each, and on
/// nothing else.
pub proof fn sockets_follow_the_networks(
    before: Seq<Ipv4>,
    list: Seq<InterfaceView>,
    address: Ipv4,
)
    ensures
        kept(before, list).contains(address) <==> before.contains(address) && has_address(
            list,
            address,
        ),
        missing(list, kept(before, list)).contains(address) <==> has_address(list, address)
            && !before.contains(address),
{
    kept_are_listed(before, list, address);
    missing_are_listed(list, kept(before, list), address);
}

proof fn kept_are_listed(senders: Seq<Ipv4>, list: Seq<InterfaceView>, address: Ipv4)
    ensures
        kept(senders, list).contains(address) <==> senders.contains(address) && has_address(
            list,
            address,
        ),
    decreases senders.len(),
{
    if senders.len() > 0 {
        let rest = senders.drop_last();
        let init = kept(rest, list);
        let all = kept(senders, list);
        kept_are_listed(rest, list, address);
        let last = senders.len() - 1;
        assert(senders[last] == senders.last());
        if has_address(list, senders.last()) {
            assert(all == init.push(senders.last()));
            assert(all[init.len() as int] == senders.last());
        }
        if init.contains(address) {
            let k = choose|k: int| 0 <= k < init.len() && init[k] == address;
            assert(all[k] == address);
        }
        if rest.contains(address) {
            let k = choose|k: int| 0 <= k < rest.len() && rest[k] == address;
            assert(senders[k] == address);
        }
        if senders.contains(address) {
            let k = choose|k: int| 0 <= k < senders.len() && senders[k] == address;
            if k < last {
                assert(rest[k] == address);
            }
        }
        if all.contains(address) {
            let k = choose|k: int| 0 <= k < all.len() && all[k] == address;
            if k < init.len() {
                assert(init[k] == address);
            }
        }
    }
}

proof fn missing_are_listed(list: Seq<InterfaceView>, senders: Seq<Ipv4>, address: Ipv4)
    ensures
        missing(list, senders).contains(address) <==> has_address(list, address)
            && !senders.contains(address),
    decreases list.len(),
{
    if list.len() > 0 {
        let rest = list.drop_last();
        let init = missing(rest, senders);
        let all = missing(list, senders);
        missing_are_listed(rest, senders, address);
        let last = list.len() - 1;
        assert(list[last] == list.last());
        if !senders.contains(list.last().address) {
            assert(all == init.push(list.last().address));
            assert(all[init.len() as int] == list.last().address);
        }
        if init.contains(address) {
            let k = choose|k: int| 0 <= k < init.len() && init[k] == address;
            assert(all[k] == address);
        }
        if has_address(rest, address) {
            let k = choose|k: int| 0 <= k < rest.len() && (#[trigger] rest[k]).address == address;
            assert(list[k].address == address);
        }
        if has_address(list, address) {
            let k = choose|k: int| 0 <= k < list.len() && (#[trigger] list[k]).address == address;
            if k < last {
                assert(rest[k].address == address);
            }
        }
        if all.contains(address) {
            let k = choose|k: int| 0 <= k < all.len() && all[k] == address;
            if k < init.len() {
                assert(init[k] == address);
            }
        }
    }
}

/// The listener hands on exactly the announcements of this protocol version, as they
/// came and from where they came. It never gives up while somebody takes them: whatever
/// fails, it binds anew, and so it does when the networks are others than those that it
/// listens on.
pub proof fn the_listener_never_gives_up(
    on: Seq<InterfaceView>,
    event: ListenEvent,
    r: ListenAction,
)
    requires
        listens(on, event, r),
    ensures
        r is Stop <==> event is SinkClosed,
        r matches ListenAction::Forward(sighting) ==> (event matches ListenEvent::Received {
            announcement,
            from,
        } && announcement == Some(sighting.announcement) && from == sighting.from
            && sighting.announcement.protocol == 1),
        event matches ListenEvent::Received { announcement, from } ==> (announcement matches Some(a)
            ==> (a.protocol == 1 <==> r is Forward)),
        event matches ListenEvent::Recheck { current } ==> (interfaces_view(current@) != on
            <==> r is Rebind),
        event is BindFailed || event is ReceiveFailed ==> (r matches ListenAction::Rebind { after }
            && 0 < after <= 2_000_000_000),
        event is Received ==> r is Forward || r is Continue,
{
}

/// An address that was typed in is tried from then on, and only once however often it is
/// typed in; the others stay as they were; and forgetting it undoes it.
pub proof fn a_typed_in_address_is_kept_once(manual: Seq<Endpoint>, at: Endpoint, k: int)
    requires
        manual.no_duplicates(),
        0 <= k < manual.len(),
    ensures
        with_address(manual, at).contains(at),
        with_address(manual, at).no_duplicates(),
        with_address(manual, at)[k] == manual[k],
        with_address(with_address(manual, at), at) == with_address(manual, at),
        !manual.contains(at) ==> with_address(manual, at).len() == manual.len() + 1,
        !without(with_address(manual, at), at).contains(at),
{
    let after = with_address(manual, at);
    if !manual.contains(at) {
        assert(after[manual.len() as int] == at);
        assert forall|i: int, j: int|
            0 <= i < after.len() && 0 <= j < after.len() && i != j implies after[i] != after[j] by {
            if i < manual.len() {
                assert(manual.contains(manual[i]));
            }
            if j < manual.len() {
                assert(manual.contains(manual[j]));
            }
        }
    }
    forgetting_removes_one_address(after, at, at);
}

/// A port that is taken costs nobody their networking: any free one is bound instead,
/// once; and where something else was wrong, or no free one could be had, nothing is.
pub proof fn a_busy_port_is_no_reason_to_give_up(preferred: u16, taken: bool)
    ensures
        preferred != 0 ==> second_choice(preferred, true) == Some(0u16),
        second_choice(preferred, false) is None,
        second_choice(preferred, taken) matches Some(port) ==> second_choice(port, true) is None,
{
}

} // verus!
