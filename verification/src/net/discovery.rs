//! Telling the network we are here: which addresses a phone could reach, and what the
//! announcement says.

use vstd::prelude::*;
use vstd::utf8::{encode_utf8, is_ascii_chars};

use super::address::Address;
use super::service::{
    describe_service, ends_in, escaped, plain_names_are_not_escaped, Service,
};
use crate::bytes::{
    be_bytes_len, be_value, be_value_bound, bytes_survive_their_number, four_bytes_spell,
    number_survives_its_bytes, pow256_widths, read_be, to_be,
};
use crate::text::{
    chars_of, contains, has_part, is_white, lower, lowered, only_the_space_around_goes,
    parts_stand_between, same_text, text_between, trim, trimmed,
};

verus! {

/// The service the phone browses for.
pub const SERVICE_TYPE: &'static str = "_nearscreen._tcp.local.";

/// Which interfaces the announcement goes out on.
#[derive(Debug, Clone, Copy, PartialEq, Eq)]
pub enum Interfaces {
    /// Every network this computer is on.
    All,
    /// Only the interface that carries this address, for a computer on several networks at once.
    Only(Address),
    /// Loopback only: this machine can find itself, nothing else can. Useful for trying the
    /// receiver out without announcing it to a real network.
    Loopback,
}

impl Default for Interfaces {
    fn default() -> (interfaces: Self)
        ensures
            interfaces is All,
    {
        Interfaces::All
    }
}

/// An interface as the mDNS responder names it.
#[derive(Debug, Clone, Copy, PartialEq, Eq)]
pub enum Kind {
    Addr(Address),
    LoopbackV4,
    LoopbackV6,
}

/// Whether a value names the loopback interfaces: in any case, with any space around it.
pub open spec fn names_loopback(value: Seq<char>) -> bool {
    lower(trim(value)) == "loopback"@
}

impl Interfaces {
    /// Understands the `--mdns-interface` value: an address, or `loopback`. `address` is the
    /// address that the value spells without the space around it, where it spells one; a value
    /// that is neither is no choice.
    pub fn parse(value: &str, address: Option<Address>) -> (interfaces: Option<Self>)
        ensures
            match interfaces {
                Some(Interfaces::Loopback) => names_loopback(value@),
                Some(Interfaces::Only(chosen)) => !names_loopback(value@) && address == Some(
                    chosen,
                ),
                Some(Interfaces::All) => false,
                None => !names_loopback(value@) && address is None,
            },
    {
        proof {
            reveal_strlit("loopback");
        }
        let name = lowered(trimmed(value).as_str());
        if same_text(name.as_str(), "loopback") {
            return Some(Interfaces::Loopback);
        }
        match address {
            Some(address) => Some(Interfaces::Only(address)),
            None => None,
        }
    }

    /// The interfaces to keep, as the mDNS responder names them; `None` where it keeps them all.
    pub fn kinds(&self) -> (kinds: Option<Vec<Kind>>)
        ensures
            self is Only || self is Loopback ==> kinds is Some,
            exists|local: Seq<Address>, interfaces: Seq<NetInterface>| #[trigger]
                are_reachable(local, interfaces) && #[trigger] self.keeps(local, kinds),
    {
        let local = match self {
            Interfaces::All => local_addresses(),
            _ => Vec::new(),
        };
        let kinds = self.kinds_among(&local);
        proof {
            if *self is All {
                assert(exists|interfaces: Seq<NetInterface>| #[trigger]
                    are_reachable(local@, interfaces));
            } else {
                assert(are_reachable(local@, Seq::empty()));
            }
            assert(self.keeps(local@, kinds));
        }
        kinds
    }

    /// Whether these are the interfaces to keep where the local addresses are these.
    pub open spec fn keeps(self, local: Seq<Address>, kinds: Option<Vec<Kind>>) -> bool {
        match self {
            Interfaces::All => match kinds {
                None => local.len() == 0,
                Some(kinds) => {
                    &&& local.len() > 0
                    &&& kinds@ == local.map_values(|address: Address| Kind::Addr(address))
                },
            },
            Interfaces::Only(address) => kinds matches Some(kinds) && kinds@ == seq![
                Kind::Addr(address),
            ],
            Interfaces::Loopback => kinds matches Some(kinds) && kinds@ == seq![
                Kind::LoopbackV4,
                Kind::LoopbackV6,
            ],
        }
    }

    /// The interfaces to keep, given the addresses a phone could reach.
    ///
    /// "All" does not mean every interface this computer has: announcing a WSL or VPN address
    /// tells the phone to try somewhere it cannot reach, and it has no way of knowing better.
    /// Only the networks a phone could plausibly be on are announced: those are the `local` ones.
    /// Where none is known the choice is left to the responder.
    pub fn kinds_among(&self, local: &Vec<Address>) -> (kinds: Option<Vec<Kind>>)
        ensures
            self.keeps(local@, kinds),
    {
        match self {
            Interfaces::All => {
                if local.len() == 0 {
                    return None;
                }
                let mut kinds: Vec<Kind> = Vec::new();
                let mut i: usize = 0;
                while i < local.len()
                    invariant
                        i <= local@.len(),
                        kinds@ == local@.take(i as int).map_values(
                            |address: Address| Kind::Addr(address),
                        ),
                    decreases local@.len() - i,
                {
                    kinds.push(Kind::Addr(local[i]));
                    i += 1;
                    assert(local@.take(i as int).drop_last() =~= local@.take(i - 1));
                    assert(kinds@ =~= local@.take(i as int).map_values(
                        |address: Address| Kind::Addr(address),
                    ));
                }
                assert(local@.take(i as int) =~= local@);
                Some(kinds)
            },
            Interfaces::Only(address) => {
                let mut kinds: Vec<Kind> = Vec::new();
                kinds.push(Kind::Addr(*address));
                assert(kinds@ =~= seq![Kind::Addr(*address)]);
                Some(kinds)
            },
            Interfaces::Loopback => {
                let mut kinds: Vec<Kind> = Vec::new();
                kinds.push(Kind::LoopbackV4);
                kinds.push(Kind::LoopbackV6);
                assert(kinds@ =~= seq![Kind::LoopbackV4, Kind::LoopbackV6]);
                Some(kinds)
            },
        }
    }
}

/// A network interface of this computer, with one of its addresses.
#[derive(Debug)]
pub struct NetInterface {
    pub name: String,
    /// Whether only this computer can reach the address.
    pub loopback: bool,
    /// The address, where it is an IPv4 one.
    pub v4: Option<[u8; 4]>,
}

/// `if_addrs::get_if_addrs`: the network interfaces of this computer, one for each address;
/// `None` where the system does not tell. Nothing is claimed of them: they depend on the machine.
#[verifier::external_body]
fn list_interfaces() -> (interfaces: Option<Vec<NetInterface>>) {
    let found = if_addrs::get_if_addrs().ok()?;
    let convert = |interface: if_addrs::Interface| NetInterface {
        loopback: interface.is_loopback(),
        v4: match interface.addr {
            if_addrs::IfAddr::V4(v4) => Some(v4.ip.octets()),
            if_addrs::IfAddr::V6(_) => None,
        },
        name: interface.name,
    };
    Some(found.into_iter().map(convert).collect())
}

/// What virtual switches and VPNs have in their interfaces' names.
pub open spec fn synthetic_markers() -> Seq<Seq<char>> {
    seq![
        "vethernet"@,
        "wsl"@,
        "hyper-v"@,
        "virtual"@,
        "virtualbox"@,
        "vmware"@,
        "docker"@,
        "vpn"@,
        "tailscale"@,
        "zerotier"@,
        "tun"@,
        "tap"@,
    ]
}

/// Whether an interface's name says that it is a virtual one, in any case.
pub open spec fn is_synthetic(name: Seq<char>) -> bool {
    exists|i: int|
        0 <= i < synthetic_markers().len() && has_part(
            lower(name),
            #[trigger] synthetic_markers()[i],
        )
}

fn named_synthetic(interface: &str) -> (synthetic: bool)
    ensures
        synthetic == is_synthetic(interface@),
{
    let name = lowered(interface);
    let name = name.as_str();
    let markers: [&str; 12] = [
        "vethernet",
        "wsl",
        "hyper-v",
        "virtual",
        "virtualbox",
        "vmware",
        "docker",
        "vpn",
        "tailscale",
        "zerotier",
        "tun",
        "tap",
    ];
    let mut i: usize = 0;
    while i < 12
        invariant
            i <= 12,
            name@ == lower(interface@),
            markers@.len() == 12,
            forall|j: int| 0 <= j < 12 ==> (#[trigger] markers@[j])@ == synthetic_markers()[j],
            forall|j: int| 0 <= j < i ==> !has_part(name@, #[trigger] synthetic_markers()[j]),
        decreases 12 - i,
    {
        if contains(name, markers[i]) {
            assert(has_part(name@, synthetic_markers()[i as int]));
            return true;
        }
        i += 1;
    }
    false
}

/// The addresses an interface gives itself when it never got one: 169.254.0.0/16.
pub open spec fn is_link_local(octets: Seq<u8>) -> bool {
    octets[0] == 169 && octets[1] == 254
}

/// The addresses of private networks: 10.0.0.0/8, 172.16.0.0/12 and 192.168.0.0/16.
pub open spec fn is_private(octets: Seq<u8>) -> bool {
    ||| octets[0] == 10
    ||| octets[0] == 172 && 16 <= octets[1] <= 31
    ||| octets[0] == 192 && octets[1] == 168
}

/// How likely a phone on the same Wi-Fi is to reach this address; lower comes first.
pub open spec fn rank_of(name: Seq<char>, octets: Seq<u8>) -> int {
    if is_link_local(octets) {
        4
    } else if !is_private(octets) {
        3
    } else if is_synthetic(name) {
        2
    } else if octets[0] == 172 {
        1
    } else {
        0
    }
}

/// How likely a phone on the same Wi-Fi is to reach this address; lower comes first. A Windows
/// machine with WSL, a VPN and a docking station has half a dozen addresses and only one of them
/// is the one to put in a QR code.
///
/// Two things point at the right one, and neither is reliable alone: what the interface is called
/// (WSL and VirtualBox say so, but not always in words we know) and which range the address is
/// in. Home and office networks are nearly always 192.168.x or 10.x, while 172.16-31.x is where
/// virtual switches put themselves.
pub fn rank(interface: &str, address: [u8; 4]) -> (rank: u8)
    ensures
        rank == rank_of(interface@, address@),
        rank <= 4,
{
    // 169.254.x means the interface never got an address at all.
    if address[0] == 169 && address[1] == 254 {
        return 4;
    }
    let private = address[0] == 10 || (address[0] == 172 && 16 <= address[1] && address[1] <= 31)
        || (address[0] == 192 && address[1] == 168);
    if !private {
        return 3;
    }
    if named_synthetic(interface) {
        2
    } else if address[0] == 172 {
        // The range virtual switches hand themselves, and almost nobody else.
        1
    } else {
        0
    }
}

/// A network a phone can be on comes before a virtual one, a virtual one before an address of
/// the open internet, and an interface without an address comes last.
pub proof fn real_networks_rank_first(name: Seq<char>, octets: Seq<u8>)
    ensures
        rank_of(name, octets) <= 1 <==> is_private(octets) && !is_synthetic(name),
        rank_of(name, octets) == 4 <==> is_link_local(octets),
        rank_of(name, octets) == 3 <==> !is_link_local(octets) && !is_private(octets),
{
}

/// One more than the largest address there is, as a number.
pub const RANK_STEP: u64 = 0x1_0000_0000;

/// An address with its rank in front: what the addresses are sorted by.
pub open spec fn ranked(name: Seq<char>, octets: Seq<u8>) -> u64 {
    (rank_of(name, octets) * RANK_STEP + be_value(octets)) as u64
}

/// The addresses to choose from, each with its rank: every IPv4 that is not loopback.
pub open spec fn candidates(interfaces: Seq<NetInterface>) -> Seq<u64>
    decreases interfaces.len(),
{
    if interfaces.len() == 0 {
        Seq::empty()
    } else {
        let before = candidates(interfaces.drop_last());
        let interface = interfaces.last();
        match interface.v4 {
            Some(octets) if !interface.loopback => before.push(
                ranked(interface.name@, octets@),
            ),
            _ => before,
        }
    }
}

/// An ordered list with one more in its place.
pub open spec fn placed(ordered: Seq<u64>, key: u64) -> Seq<u64>
    decreases ordered.len(),
{
    if ordered.len() == 0 || ordered.last() <= key {
        ordered.push(key)
    } else {
        placed(ordered.drop_last(), key).push(ordered.last())
    }
}

/// These in order, the smallest first.
pub open spec fn in_order(keys: Seq<u64>) -> Seq<u64>
    decreases keys.len(),
{
    if keys.len() == 0 {
        Seq::empty()
    } else {
        placed(in_order(keys.drop_last()), keys.last())
    }
}

/// The list without those whose address is that of the one before.
pub open spec fn without_repeats(keys: Seq<u64>) -> Seq<u64>
    decreases keys.len(),
{
    if keys.len() < 2 {
        keys
    } else {
        let before = without_repeats(keys.drop_last());
        if keys.last() % RANK_STEP == keys[keys.len() - 2] % RANK_STEP {
            before
        } else {
            before.push(keys.last())
        }
    }
}

/// Those of the first two ranks: the networks a phone can be on.
pub open spec fn real_ones(keys: Seq<u64>) -> Seq<u64>
    decreases keys.len(),
{
    if keys.len() == 0 {
        Seq::empty()
    } else if keys.last() / RANK_STEP <= 1 {
        real_ones(keys.drop_last()).push(keys.last())
    } else {
        real_ones(keys.drop_last())
    }
}

/// The rank of virtual switches and VPNs.
pub const SYNTHETIC_RANK: u64 = 2;

/// Those that are no virtual switch's and no VPN's.
pub open spec fn plausible_ones(keys: Seq<u64>) -> Seq<u64>
    decreases keys.len(),
{
    if keys.len() == 0 {
        Seq::empty()
    } else if keys.last() / RANK_STEP != SYNTHETIC_RANK {
        plausible_ones(keys.drop_last()).push(keys.last())
    } else {
        plausible_ones(keys.drop_last())
    }
}

/// The real ones where there are any, and the plausible ones where there are none.
pub open spec fn chosen(keys: Seq<u64>) -> Seq<u64> {
    if real_ones(keys).len() == 0 {
        plausible_ones(keys)
    } else {
        real_ones(keys)
    }
}

/// The addresses a phone could reach this computer on, each with its rank, the likeliest first.
pub open spec fn reachable(interfaces: Seq<NetInterface>) -> Seq<u64> {
    chosen(without_repeats(in_order(candidates(interfaces))))
}

/// Whether this is the address of a ranked one.
pub open spec fn is_address_of(address: Address, key: u64) -> bool {
    address matches Address::V4(octets) && be_value(octets@) == key % RANK_STEP
}

proof fn rank_and_address_come_apart(name: Seq<char>, octets: Seq<u8>)
    requires
        octets.len() == 4,
    ensures
        ranked(name, octets) == rank_of(name, octets) * RANK_STEP + be_value(octets),
        ranked(name, octets) / RANK_STEP == rank_of(name, octets),
        ranked(name, octets) % RANK_STEP == be_value(octets),
{
    be_value_bound(octets);
    pow256_widths();
}

/// The addresses to choose from, each with its rank.
fn list_candidates(interfaces: &Vec<NetInterface>) -> (keys: Vec<u64>)
    ensures
        keys@ == candidates(interfaces@),
{
    let mut keys: Vec<u64> = Vec::new();
    let mut i: usize = 0;
    while i < interfaces.len()
        invariant
            i <= interfaces@.len(),
            keys@ == candidates(interfaces@.take(i as int)),
        decreases interfaces@.len() - i,
    {
        let interface = &interfaces[i];
        i += 1;
        proof {
            assert(interfaces@.take(i as int).drop_last() =~= interfaces@.take(i - 1));
            assert(interfaces@.take(i as int).last() == interface);
        }
        if interface.loopback {
            continue;
        }
        if let Some(octets) = &interface.v4 {
            let rank: u8 = rank(interface.name.as_str(), *octets);
            let number: u64 = read_be(octets, 0, 4);
            proof {
                assert(octets@.subrange(0, 4) =~= octets@);
                rank_and_address_come_apart(interface.name@, octets@);
            }
            keys.push(rank as u64 * RANK_STEP + number);
        }
    }
    assert(interfaces@.take(i as int) =~= interfaces@);
    keys
}

proof fn placed_is_inserted(ordered: Seq<u64>, key: u64, at: int)
    requires
        0 <= at <= ordered.len(),
        forall|i: int| at <= i < ordered.len() ==> ordered[i] > key,
        at > 0 ==> ordered[at - 1] <= key,
    ensures
        placed(ordered, key) == ordered.insert(at, key),
    decreases ordered.len(),
{
    if at == ordered.len() {
        assert(placed(ordered, key) =~= ordered.insert(at, key));
    } else {
        assert(ordered.last() > key);
        placed_is_inserted(ordered.drop_last(), key, at);
        assert(placed(ordered, key) =~= ordered.insert(at, key));
    }
}

/// Sorts, the smallest first.
fn sort(keys: &Vec<u64>) -> (ordered: Vec<u64>)
    ensures
        ordered@ == in_order(keys@),
{
    let mut ordered: Vec<u64> = Vec::new();
    let mut i: usize = 0;
    while i < keys.len()
        invariant
            i <= keys@.len(),
            ordered@ == in_order(keys@.take(i as int)),
            ordered@.len() == i,
        decreases keys@.len() - i,
    {
        let key: u64 = keys[i];
        let mut at: usize = ordered.len();
        while at > 0 && ordered[at - 1] > key
            invariant
                at <= ordered@.len(),
                forall|j: int| at <= j < ordered@.len() ==> ordered@[j] > key,
            decreases at,
        {
            at -= 1;
        }
        proof {
            placed_is_inserted(ordered@, key, at as int);
            assert(keys@.take(i + 1).drop_last() =~= keys@.take(i as int));
        }
        ordered.insert(at, key);
        i += 1;
    }
    assert(keys@.take(i as int) =~= keys@);
    ordered
}

/// Drops those whose address is that of the one before.
fn dedup(keys: &Vec<u64>) -> (kept: Vec<u64>)
    ensures
        kept@ == without_repeats(keys@),
{
    let mut kept: Vec<u64> = Vec::new();
    let mut i: usize = 0;
    while i < keys.len()
        invariant
            i <= keys@.len(),
            kept@ == without_repeats(keys@.take(i as int)),
        decreases keys@.len() - i,
    {
        proof {
            assert(keys@.take(i + 1).drop_last() =~= keys@.take(i as int));
            assert(keys@.take(i + 1).last() == keys@[i as int]);
            if i > 0 {
                assert(keys@.take(i + 1)[i - 1] == keys@[i - 1]);
            }
        }
        let repeated = i > 0 && keys[i] % RANK_STEP == keys[i - 1] % RANK_STEP;
        if !repeated {
            kept.push(keys[i]);
        }
        i += 1;
        assert(kept@ =~= without_repeats(keys@.take(i as int)));
    }
    assert(keys@.take(i as int) =~= keys@);
    kept
}

/// Keeps those of the first two ranks.
fn keep_real(keys: &Vec<u64>) -> (kept: Vec<u64>)
    ensures
        kept@ == real_ones(keys@),
{
    let mut kept: Vec<u64> = Vec::new();
    let mut i: usize = 0;
    while i < keys.len()
        invariant
            i <= keys@.len(),
            kept@ == real_ones(keys@.take(i as int)),
        decreases keys@.len() - i,
    {
        assert(keys@.take(i + 1).drop_last() =~= keys@.take(i as int));
        if keys[i] / RANK_STEP <= 1 {
            kept.push(keys[i]);
        }
        i += 1;
    }
    assert(keys@.take(i as int) =~= keys@);
    kept
}

/// Leaves out those of virtual switches and VPNs.
fn keep_plausible(keys: &Vec<u64>) -> (kept: Vec<u64>)
    ensures
        kept@ == plausible_ones(keys@),
{
    let mut kept: Vec<u64> = Vec::new();
    let mut i: usize = 0;
    while i < keys.len()
        invariant
            i <= keys@.len(),
            kept@ == plausible_ones(keys@.take(i as int)),
        decreases keys@.len() - i,
    {
        assert(keys@.take(i + 1).drop_last() =~= keys@.take(i as int));
        if keys[i] / RANK_STEP != SYNTHETIC_RANK {
            kept.push(keys[i]);
        }
        i += 1;
    }
    assert(keys@.take(i as int) =~= keys@);
    kept
}

/// Whether these are the addresses a phone could reach a computer with these interfaces on.
pub open spec fn are_reachable(addresses: Seq<Address>, interfaces: Seq<NetInterface>) -> bool {
    &&& addresses.len() == reachable(interfaces).len()
    &&& forall|i: int| 0 <= i < addresses.len() ==> is_address_of(
        #[trigger] addresses[i],
        reachable(interfaces)[i],
    )
}

/// The addresses a phone on the same network could reach this computer on. Where the system does
/// not tell its interfaces there are none.
pub fn local_addresses() -> (addresses: Vec<Address>)
    ensures
        forall|i: int| 0 <= i < addresses@.len() ==> #[trigger] addresses@[i] is V4,
        exists|interfaces: Seq<NetInterface>| #[trigger] are_reachable(addresses@, interfaces),
{
    let interfaces = match list_interfaces() {
        Some(interfaces) => interfaces,
        None => Vec::new(),
    };
    let addresses = addresses_of(&interfaces);
    assert(are_reachable(addresses@, interfaces@));
    assert forall|i: int| 0 <= i < addresses@.len() implies #[trigger] addresses@[i] is V4 by {
        assert(is_address_of(addresses@[i], reachable(interfaces@)[i]));
    }
    addresses
}

/// The addresses a phone on the same network could reach a computer with these interfaces on:
/// IPv4 and not loopback, the likeliest first. Addresses on interfaces a phone could not plausibly
/// reach, a virtual switch's or a VPN's, are left out.
pub fn addresses_of(interfaces: &Vec<NetInterface>) -> (addresses: Vec<Address>)
    ensures
        are_reachable(addresses@, interfaces@),
{
    let candidates = dedup(&sort(&list_candidates(interfaces)));
    // A phone can be on a home network or an office one; it is never on this computer's virtual
    // switch, and 169.254.x means no network at all.
    let likely = keep_real(&candidates);
    let chosen = if likely.len() == 0 {
        keep_plausible(&candidates)
    } else {
        likely
    };
    let mut addresses: Vec<Address> = Vec::new();
    let mut i: usize = 0;
    while i < chosen.len()
        invariant
            i <= chosen@.len(),
            addresses@.len() == i,
            forall|j: int| 0 <= j < i ==> is_address_of(#[trigger] addresses@[j], chosen@[j]),
        decreases chosen@.len() - i,
    {
        let number: u64 = chosen[i] % RANK_STEP;
        let bytes = to_be(number, 4);
        proof {
            be_bytes_len(number as nat, 4);
            pow256_widths();
            number_survives_its_bytes(number as nat, 4);
        }
        let octets: [u8; 4] = [bytes[0], bytes[1], bytes[2], bytes[3]];
        assert(octets@ =~= bytes@);
        addresses.push(Address::V4(octets));
        i += 1;
    }
    addresses
}

/// Whether the list is in order.
pub open spec fn is_ordered(keys: Seq<u64>) -> bool {
    forall|i: int, j: int| 0 <= i <= j < keys.len() ==> keys[i] <= keys[j]
}

/// Whether the list is in order and holds nothing twice.
pub open spec fn is_strictly_ordered(keys: Seq<u64>) -> bool {
    forall|i: int, j: int| 0 <= i < j < keys.len() ==> keys[i] < keys[j]
}

spec fn at_most(keys: Seq<u64>, limit: u64) -> bool {
    forall|i: int| 0 <= i < keys.len() ==> keys[i] <= limit
}

proof fn placing_keeps_order(ordered: Seq<u64>, key: u64)
    requires
        is_ordered(ordered),
    ensures
        is_ordered(placed(ordered, key)),
        placed(ordered, key).len() == ordered.len() + 1,
        placed(ordered, key).to_multiset() == ordered.to_multiset().insert(key),
        forall|k: u64|
            at_most(ordered, k) && key <= k ==> #[trigger] at_most(placed(ordered, key), k),
    decreases ordered.len(),
{
    broadcast use vstd::seq_lib::group_to_multiset_ensures;

    if ordered.len() == 0 || ordered.last() <= key {
    } else {
        let fewer = ordered.drop_last();
        let last = ordered.last();
        placing_keeps_order(fewer, key);
        assert(fewer.push(last) =~= ordered);
        assert(at_most(fewer, last));
        assert(at_most(placed(fewer, key), last));
        assert forall|k: u64| at_most(ordered, k) && key <= k implies #[trigger] at_most(
            placed(ordered, key),
            k,
        ) by {
            assert(ordered[ordered.len() - 1] <= k);
            assert forall|i: int| 0 <= i < fewer.len() implies fewer[i] <= k by {
                assert(ordered[i] <= k);
            }
            assert(at_most(placed(fewer, key), k));
        }
        assert(fewer.to_multiset().insert(key).insert(last) =~= fewer.to_multiset().insert(
            last,
        ).insert(key));
    }
}

/// Putting the addresses in order loses none and adds none.
pub proof fn ordering_keeps_every_address(keys: Seq<u64>)
    ensures
        is_ordered(in_order(keys)),
        in_order(keys).to_multiset() == keys.to_multiset(),
        in_order(keys).len() == keys.len(),
    decreases keys.len(),
{
    broadcast use vstd::seq_lib::group_to_multiset_ensures;

    if keys.len() > 0 {
        ordering_keeps_every_address(keys.drop_last());
        placing_keeps_order(in_order(keys.drop_last()), keys.last());
        assert(keys.drop_last().push(keys.last()) =~= keys);
    } else {
        assert(keys =~= Seq::empty());
    }
}

/// Dropping repeats keeps the order, keeps a list that holds something from becoming empty, and
/// keeps every address.
proof fn repeats_are_all_that_goes(keys: Seq<u64>)
    requires
        is_ordered(keys),
    ensures
        is_ordered(without_repeats(keys)),
        is_strictly_ordered(without_repeats(keys)),
        without_repeats(keys).len() <= keys.len(),
        keys.len() > 0 ==> without_repeats(keys).len() > 0 && without_repeats(keys)[0] == keys[0]
            && without_repeats(keys).last() % RANK_STEP == keys.last() % RANK_STEP
            && without_repeats(keys).last() <= keys.last(),
        forall|i: int|
            0 <= i < without_repeats(keys).len() ==> keys.contains(
                #[trigger] without_repeats(keys)[i],
            ),
    decreases keys.len(),
{
    if keys.len() >= 2 {
        let fewer = keys.drop_last();
        repeats_are_all_that_goes(fewer);
        assert(fewer.last() == keys[keys.len() - 2]);
        let kept = without_repeats(keys);
        assert forall|i: int| 0 <= i < kept.len() implies keys.contains(#[trigger] kept[i]) by {
            if i < without_repeats(fewer).len() {
                let j = choose|j: int|
                    0 <= j < fewer.len() && fewer[j] == without_repeats(fewer)[i];
                assert(keys[j] == kept[i]);
            } else {
                assert(keys[keys.len() - 1] == kept[i]);
            }
        }
    } else if keys.len() == 1 {
        assert(keys[0] == keys.last());
    }
}

proof fn real_ones_are_among_them(keys: Seq<u64>)
    ensures
        real_ones(keys).len() <= keys.len(),
        forall|i: int| 0 <= i < real_ones(keys).len() ==> keys.contains(
            #[trigger] real_ones(keys)[i],
        ) && real_ones(keys)[i] / RANK_STEP <= 1,
        is_strictly_ordered(keys) ==> is_strictly_ordered(real_ones(keys)),
        forall|i: int| 0 <= i < keys.len() && #[trigger] keys[i] / RANK_STEP <= 1
            ==> real_ones(keys).contains(keys[i]),
    decreases keys.len(),
{
    if keys.len() > 0 {
        let fewer = keys.drop_last();
        let before = real_ones(fewer);
        let kept = real_ones(keys);
        real_ones_are_among_them(fewer);
        assert forall|i: int| 0 <= i < kept.len() implies keys.contains(#[trigger] kept[i])
            && kept[i] / RANK_STEP <= 1 by {
            if i < before.len() {
                assert(before[i] == kept[i]);
                let j = choose|j: int| 0 <= j < fewer.len() && fewer[j] == before[i];
                assert(keys[j] == kept[i]);
            } else {
                assert(keys[keys.len() - 1] == kept[i]);
            }
        }
        assert forall|i: int| 0 <= i < keys.len() && #[trigger] keys[i] / RANK_STEP <= 1 implies
            kept.contains(keys[i]) by {
            if i < fewer.len() {
                assert(fewer[i] == keys[i]);
                let j = choose|j: int| 0 <= j < before.len() && before[j] == keys[i];
                assert(kept[j] == keys[i]);
            } else {
                assert(kept[kept.len() - 1] == keys[i]);
            }
        }
        if is_strictly_ordered(keys) {
            assert(is_strictly_ordered(fewer));
            assert forall|i: int, j: int| 0 <= i < j < kept.len() implies kept[i] < kept[j] by {
                if i < before.len() && j >= before.len() {
                    assert(before[i] == kept[i]);
                    let at = choose|at: int| 0 <= at < fewer.len() && fewer[at] == before[i];
                    assert(keys[at] < keys[keys.len() - 1]);
                }
            }
        }
    }
}

proof fn plausible_ones_are_among_them(keys: Seq<u64>)
    ensures
        plausible_ones(keys).len() <= keys.len(),
        forall|i: int| 0 <= i < plausible_ones(keys).len() ==> keys.contains(
            #[trigger] plausible_ones(keys)[i],
        ) && plausible_ones(keys)[i] / RANK_STEP != SYNTHETIC_RANK,
        is_strictly_ordered(keys) ==> is_strictly_ordered(plausible_ones(keys)),
        forall|i: int| 0 <= i < keys.len() && #[trigger] keys[i] / RANK_STEP != SYNTHETIC_RANK
            ==> plausible_ones(keys).contains(keys[i]),
    decreases keys.len(),
{
    if keys.len() > 0 {
        let fewer = keys.drop_last();
        let before = plausible_ones(fewer);
        let kept = plausible_ones(keys);
        plausible_ones_are_among_them(fewer);
        assert forall|i: int| 0 <= i < kept.len() implies keys.contains(#[trigger] kept[i])
            && kept[i] / RANK_STEP != SYNTHETIC_RANK by {
            if i < before.len() {
                assert(before[i] == kept[i]);
                let j = choose|j: int| 0 <= j < fewer.len() && fewer[j] == before[i];
                assert(keys[j] == kept[i]);
            } else {
                assert(keys[keys.len() - 1] == kept[i]);
            }
        }
        assert forall|i: int|
            0 <= i < keys.len() && #[trigger] keys[i] / RANK_STEP != SYNTHETIC_RANK implies
            kept.contains(keys[i]) by {
            if i < fewer.len() {
                assert(fewer[i] == keys[i]);
                let j = choose|j: int| 0 <= j < before.len() && before[j] == keys[i];
                assert(kept[j] == keys[i]);
            } else {
                assert(kept[kept.len() - 1] == keys[i]);
            }
        }
        if is_strictly_ordered(keys) {
            assert(is_strictly_ordered(fewer));
            assert forall|i: int, j: int| 0 <= i < j < kept.len() implies kept[i] < kept[j] by {
                if i < before.len() && j >= before.len() {
                    assert(before[i] == kept[i]);
                    let at = choose|at: int| 0 <= at < fewer.len() && fewer[at] == before[i];
                    assert(keys[at] < keys[keys.len() - 1]);
                }
            }
        }
    }
}

/// Whether this is the interface behind a ranked address: it carries that address, it is not
/// loopback, and it has that rank.
pub open spec fn carries(interface: NetInterface, key: u64) -> bool {
    &&& !interface.loopback
    &&& interface.v4 matches Some(octets) && be_value(octets@) == key % RANK_STEP && rank_of(
        interface.name@,
        octets@,
    ) == key / RANK_STEP
}

/// The addresses to choose from are those that the interfaces carry, each with its rank.
pub proof fn candidates_are_carried(interfaces: Seq<NetInterface>, key: u64)
    ensures
        candidates(interfaces).contains(key) <==> exists|i: int|
            0 <= i < interfaces.len() && #[trigger] carries(interfaces[i], key),
    decreases interfaces.len(),
{
    if interfaces.len() > 0 {
        let fewer = interfaces.drop_last();
        let last = interfaces[interfaces.len() - 1];
        let before = candidates(fewer);
        let all = candidates(interfaces);
        candidates_are_carried(fewer, key);
        if let Some(octets) = last.v4 {
            rank_and_address_come_apart(last.name@, octets@);
            assert(carries(last, key) ==> key == ranked(last.name@, octets@));
            if !last.loopback {
                assert(all == before.push(ranked(last.name@, octets@)));
                assert(all[before.len() as int] == ranked(last.name@, octets@));
                assert(carries(last, ranked(last.name@, octets@)));
            }
        }
        if all.contains(key) {
            let j = choose|j: int| 0 <= j < all.len() && all[j] == key;
            if j < before.len() {
                assert(before[j] == key);
                let i = choose|i: int| 0 <= i < fewer.len() && #[trigger] carries(fewer[i], key);
                assert(carries(interfaces[i], key));
            } else {
                assert(carries(interfaces[interfaces.len() - 1], key));
            }
        }
        if exists|i: int| 0 <= i < interfaces.len() && #[trigger] carries(interfaces[i], key) {
            let i = choose|i: int| 0 <= i < interfaces.len() && #[trigger] carries(
                interfaces[i],
                key,
            );
            if i < fewer.len() {
                assert(carries(fewer[i], key));
                let j = choose|j: int| 0 <= j < before.len() && before[j] == key;
                assert(all[j] == key);
            } else {
                assert(all[all.len() - 1] == key);
            }
        }
    }
}

/// An address has one rank besides that of a virtual interface.
proof fn one_rank_for_one_address(interfaces: Seq<NetInterface>, a: u64, b: u64)
    requires
        candidates(interfaces).contains(a),
        candidates(interfaces).contains(b),
        a % RANK_STEP == b % RANK_STEP,
        a / RANK_STEP != SYNTHETIC_RANK,
        b / RANK_STEP != SYNTHETIC_RANK,
    ensures
        a == b,
{
    candidates_are_carried(interfaces, a);
    candidates_are_carried(interfaces, b);
    let i = choose|i: int| 0 <= i < interfaces.len() && #[trigger] carries(interfaces[i], a);
    let j = choose|j: int| 0 <= j < interfaces.len() && #[trigger] carries(interfaces[j], b);
    let first = interfaces[i].v4->0;
    let second = interfaces[j].v4->0;
    bytes_survive_their_number(first@);
    bytes_survive_their_number(second@);
    assert(first@ == second@);
}

/// What is left after sorting and dropping repeats: addresses to choose from, in order, and among
/// them every one that is no virtual interface's.
proof fn single_ones(interfaces: Seq<NetInterface>)
    ensures
        ({
            let keys = candidates(interfaces);
            let single = without_repeats(in_order(keys));
            &&& is_strictly_ordered(single)
            &&& forall|i: int| 0 <= i < single.len() ==> keys.contains(#[trigger] single[i])
            &&& forall|i: int|
                0 <= i < keys.len() && #[trigger] keys[i] / RANK_STEP != SYNTHETIC_RANK
                    ==> single.contains(keys[i])
        }),
{
    broadcast use vstd::seq_lib::group_to_multiset_ensures;

    let keys = candidates(interfaces);
    let ordered = in_order(keys);
    let single = without_repeats(ordered);
    ordering_keeps_every_address(keys);
    repeats_are_all_that_goes(ordered);
    assert forall|k: u64| ordered.contains(k) == keys.contains(k) by {
        assert(ordered.contains(k) == (ordered.to_multiset().count(k) > 0));
        assert(keys.contains(k) == (keys.to_multiset().count(k) > 0));
    }
    assert forall|i: int|
        0 <= i < keys.len() && #[trigger] keys[i] / RANK_STEP != SYNTHETIC_RANK implies
        single.contains(keys[i]) by {
        assert(ordered.contains(keys[i]));
        smallest_of_each_stays(ordered, keys[i]);
        let j = choose|j: int|
            0 <= j < single.len() && single[j] % RANK_STEP == keys[i] % RANK_STEP && single[j]
                <= keys[i];
        assert(keys.contains(single[j]));
        assert(single[j] / RANK_STEP <= keys[i] / RANK_STEP);
        if single[j] / RANK_STEP == SYNTHETIC_RANK {
            only_private_ranks_share(interfaces, single[j], keys[i]);
        }
        one_rank_for_one_address(interfaces, single[j], keys[i]);
    }
}

/// Dropping repeats leaves of every address one that ranks no worse.
proof fn smallest_of_each_stays(keys: Seq<u64>, key: u64)
    requires
        is_ordered(keys),
        keys.contains(key),
    ensures
        exists|j: int|
            0 <= j < without_repeats(keys).len() && #[trigger] without_repeats(keys)[j] % RANK_STEP
                == key % RANK_STEP && without_repeats(keys)[j] <= key,
    decreases keys.len(),
{
    let kept = without_repeats(keys);
    let at = choose|at: int| 0 <= at < keys.len() && keys[at] == key;
    if keys.len() < 2 {
        assert(kept[at] == key);
    } else {
        let fewer = keys.drop_last();
        let before = without_repeats(fewer);
        repeats_are_all_that_goes(fewer);
        if at < fewer.len() {
            assert(fewer[at] == key);
            smallest_of_each_stays(fewer, key);
            let j = choose|j: int|
                0 <= j < before.len() && #[trigger] before[j] % RANK_STEP == key % RANK_STEP
                    && before[j] <= key;
            assert(kept[j] == before[j]);
        } else if key % RANK_STEP == keys[keys.len() - 2] % RANK_STEP {
            assert(fewer.last() == keys[keys.len() - 2]);
            assert(kept[kept.len() - 1] == before.last());
            assert(before.last() <= fewer.last() <= key);
        } else {
            assert(kept[kept.len() - 1] == key);
        }
    }
}

/// The addresses a phone is told about are this computer's own, the likeliest first, and none
/// twice; those of virtual switches and VPNs are left out; where there is a network a phone can
/// be on, the phone is told about every such network and about no other; and where there is none,
/// about every address that is left.
pub proof fn the_likeliest_come_first(interfaces: Seq<NetInterface>)
    ensures
        is_strictly_ordered(reachable(interfaces)),
        forall|i: int| 0 <= i < reachable(interfaces).len() ==> candidates(interfaces).contains(
            #[trigger] reachable(interfaces)[i],
        ),
        forall|i: int, j: int|
            0 <= i < j < reachable(interfaces).len() ==> #[trigger] reachable(interfaces)[i]
                % RANK_STEP != #[trigger] reachable(interfaces)[j] % RANK_STEP,
        forall|i: int|
            0 <= i < reachable(interfaces).len() ==> #[trigger] reachable(interfaces)[i] / RANK_STEP
                != SYNTHETIC_RANK,
        forall|i: int|
            0 <= i < candidates(interfaces).len() && #[trigger] candidates(interfaces)[i]
                / RANK_STEP <= 1 ==> reachable(interfaces).contains(candidates(interfaces)[i]),
        (exists|i: int|
            0 <= i < candidates(interfaces).len() && #[trigger] candidates(interfaces)[i]
                / RANK_STEP <= 1) ==> forall|i: int|
            0 <= i < reachable(interfaces).len() ==> #[trigger] reachable(interfaces)[i] / RANK_STEP
                <= 1,
        (forall|i: int|
            0 <= i < candidates(interfaces).len() ==> #[trigger] candidates(interfaces)[i]
                / RANK_STEP > 1) ==> forall|i: int|
            0 <= i < candidates(interfaces).len() && #[trigger] candidates(interfaces)[i]
                / RANK_STEP != SYNTHETIC_RANK ==> reachable(interfaces).contains(
                candidates(interfaces)[i],
            ),
{
    let keys = candidates(interfaces);
    let single = without_repeats(in_order(keys));
    let told = reachable(interfaces);
    single_ones(interfaces);
    real_ones_are_among_them(single);
    plausible_ones_are_among_them(single);
    assert forall|i: int| 0 <= i < told.len() implies keys.contains(#[trigger] told[i]) && told[i]
        / RANK_STEP != SYNTHETIC_RANK by {
        assert(single.contains(told[i]));
        let j = choose|j: int| 0 <= j < single.len() && single[j] == told[i];
        assert(keys.contains(single[j]));
    }
    assert forall|i: int, j: int| 0 <= i < j < told.len() implies #[trigger] told[i] % RANK_STEP
        != #[trigger] told[j] % RANK_STEP by {
        assert(keys.contains(told[i]) && keys.contains(told[j]));
        assert(told[i] < told[j]);
        if told[i] % RANK_STEP == told[j] % RANK_STEP {
            one_rank_for_one_address(interfaces, told[i], told[j]);
        }
    }
    assert forall|i: int| 0 <= i < keys.len() && #[trigger] keys[i] / RANK_STEP <= 1 implies
        told.contains(keys[i]) by {
        assert(single.contains(keys[i]));
        let j = choose|j: int| 0 <= j < single.len() && single[j] == keys[i];
        assert(single[j] / RANK_STEP <= 1);
        assert(real_ones(single).contains(single[j]));
    }
    if forall|i: int| 0 <= i < keys.len() ==> #[trigger] keys[i] / RANK_STEP > 1 {
        if real_ones(single).len() > 0 {
            assert(single.contains(real_ones(single)[0]));
            assert(keys.contains(real_ones(single)[0]));
        }
        assert forall|i: int|
            0 <= i < keys.len() && #[trigger] keys[i] / RANK_STEP != SYNTHETIC_RANK implies
            told.contains(keys[i]) by {
            assert(single.contains(keys[i]));
            let j = choose|j: int| 0 <= j < single.len() && single[j] == keys[i];
            assert(plausible_ones(single).contains(single[j]));
        }
    }
}

/// An address that a virtual interface carries is a private one, so it has no worse rank.
proof fn only_private_ranks_share(interfaces: Seq<NetInterface>, synthetic: u64, other: u64)
    requires
        candidates(interfaces).contains(synthetic),
        candidates(interfaces).contains(other),
        synthetic % RANK_STEP == other % RANK_STEP,
        synthetic / RANK_STEP == SYNTHETIC_RANK,
    ensures
        other / RANK_STEP <= SYNTHETIC_RANK,
{
    candidates_are_carried(interfaces, synthetic);
    candidates_are_carried(interfaces, other);
    let i = choose|i: int|
        0 <= i < interfaces.len() && #[trigger] carries(interfaces[i], synthetic);
    let j = choose|j: int| 0 <= j < interfaces.len() && #[trigger] carries(interfaces[j], other);
    bytes_survive_their_number((interfaces[i].v4->0)@);
    bytes_survive_their_number((interfaces[j].v4->0)@);
    assert((interfaces[i].v4->0)@ == (interfaces[j].v4->0)@);
}

/// What to call ourselves on the network: never empty.
pub open spec fn shown_as(name: Seq<char>) -> Seq<char> {
    if trim(name).len() == 0 {
        "Nearscreen receiver"@
    } else {
        trim(name)
    }
}

/// What to call ourselves on the network: never empty.
pub fn display_name(name: &str) -> (shown: String)
    ensures
        shown@ == shown_as(name@),
{
    let name = trimmed(name);
    if name.as_str().is_empty() {
        "Nearscreen receiver".to_owned()
    } else {
        name
    }
}

/// Whether a character is an ASCII letter or digit.
pub open spec fn is_plain(c: char) -> bool {
    ||| '0' <= c <= '9'
    ||| 'a' <= c <= 'z'
    ||| 'A' <= c <= 'Z'
}

/// The character itself if it is a letter or a digit, and a hyphen otherwise.
pub open spec fn label_char(c: char) -> char {
    if is_plain(c) {
        c
    } else {
        '-'
    }
}

/// The text without the hyphens at its start.
pub open spec fn past_hyphens(s: Seq<char>) -> Seq<char>
    decreases s.len(),
{
    if s.len() > 0 && s[0] == '-' {
        past_hyphens(s.skip(1))
    } else {
        s
    }
}

/// The text without the hyphens at its end.
pub open spec fn up_to_hyphens(s: Seq<char>) -> Seq<char>
    decreases s.len(),
{
    if s.len() > 0 && s.last() == '-' {
        up_to_hyphens(s.drop_last())
    } else {
        s
    }
}

/// The longest a DNS label may be.
pub const LONGEST_LABEL: usize = 63;

/// A host label a DNS name can actually carry: letters, digits and hyphens, with none of those at
/// its ends.
pub open spec fn label_of(name: Seq<char>) -> Seq<char> {
    let mapped = Seq::new(name.len(), |i: int| label_char(name[i]));
    let cut = if mapped.len() > LONGEST_LABEL {
        mapped.take(LONGEST_LABEL as int)
    } else {
        mapped
    };
    let label = up_to_hyphens(past_hyphens(cut));
    if label.len() == 0 {
        "nearscreen"@
    } else {
        label
    }
}

/// A host label a DNS name can actually carry: letters, digits and hyphens.
pub fn host_label(name: &str) -> (label: String)
    ensures
        label@ == label_of(name@),
{
    let chars = chars_of(name);
    let n: usize = if chars.len() > LONGEST_LABEL {
        LONGEST_LABEL
    } else {
        chars.len()
    };
    let mut cut: Vec<char> = Vec::new();
    let mut i: usize = 0;
    while i < n
        invariant
            chars@ == name@,
            i <= n <= chars@.len(),
            cut@ == Seq::new(i as nat, |j: int| label_char(name@[j])),
        decreases n - i,
    {
        let c = chars[i];
        let plain = ('0' <= c && c <= '9') || ('a' <= c && c <= 'z') || ('A' <= c && c <= 'Z');
        if plain {
            cut.push(c);
        } else {
            cut.push('-');
        }
        i += 1;
        assert(cut@ =~= Seq::new(i as nat, |j: int| label_char(name@[j])));
    }
    let ghost mapped = Seq::new(name@.len(), |j: int| label_char(name@[j]));
    assert(cut@ =~= if mapped.len() > LONGEST_LABEL {
        mapped.take(LONGEST_LABEL as int)
    } else {
        mapped
    });
    let mut from: usize = 0;
    assert(cut@.skip(0) =~= cut@);
    while from < cut.len() && cut[from] == '-'
        invariant
            from <= cut@.len(),
            past_hyphens(cut@) == past_hyphens(cut@.skip(from as int)),
        decreases cut@.len() - from,
    {
        assert(cut@.skip(from as int).skip(1) =~= cut@.skip(from + 1));
        from += 1;
    }
    let ghost tail = cut@.skip(from as int);
    assert(past_hyphens(cut@) == tail);
    let mut to: usize = cut.len();
    assert(cut@.subrange(from as int, to as int) =~= tail);
    while to > from && cut[to - 1] == '-'
        invariant
            from <= to <= cut@.len(),
            up_to_hyphens(tail) == up_to_hyphens(cut@.subrange(from as int, to as int)),
        decreases to,
    {
        assert(cut@.subrange(from as int, to as int).drop_last() =~= cut@.subrange(
            from as int,
            to - 1,
        ));
        to -= 1;
    }
    assert(up_to_hyphens(tail) == cut@.subrange(from as int, to as int));
    if from == to {
        "nearscreen".to_owned()
    } else {
        text_between(&cut, from, to)
    }
}

/// Whether DNS can carry this label.
pub open spec fn is_label(label: Seq<char>) -> bool {
    &&& 1 <= label.len() <= LONGEST_LABEL
    &&& label[0] != '-'
    &&& label.last() != '-'
    &&& forall|i: int| 0 <= i < label.len() ==> is_plain(#[trigger] label[i]) || label[i] == '-'
}

proof fn past_hyphens_is_a_suffix(s: Seq<char>)
    ensures
        past_hyphens(s).len() <= s.len(),
        past_hyphens(s) == s.skip(s.len() - past_hyphens(s).len()),
        past_hyphens(s).len() > 0 ==> past_hyphens(s)[0] != '-',
    decreases s.len(),
{
    if s.len() > 0 && s[0] == '-' {
        past_hyphens_is_a_suffix(s.skip(1));
        let kept = past_hyphens(s);
        assert(s.skip(1).skip(s.len() - 1 - kept.len()) =~= s.skip(s.len() - kept.len()));
    } else {
        assert(s.skip(0) =~= s);
    }
}

proof fn up_to_hyphens_is_a_prefix(s: Seq<char>)
    ensures
        up_to_hyphens(s).len() <= s.len(),
        up_to_hyphens(s) == s.take(up_to_hyphens(s).len() as int),
        up_to_hyphens(s).len() > 0 ==> up_to_hyphens(s).last() != '-',
    decreases s.len(),
{
    if s.len() > 0 && s.last() == '-' {
        up_to_hyphens_is_a_prefix(s.drop_last());
        let kept = up_to_hyphens(s);
        assert(s.drop_last().take(kept.len() as int) =~= s.take(kept.len() as int));
    } else {
        assert(s.take(s.len() as int) =~= s);
    }
}

/// Whatever a computer is called, DNS can carry its label.
pub proof fn host_labels_survive_any_name(name: Seq<char>)
    ensures
        is_label(label_of(name)),
{
    let mapped = Seq::new(name.len(), |i: int| label_char(name[i]));
    let cut = if mapped.len() > LONGEST_LABEL {
        mapped.take(LONGEST_LABEL as int)
    } else {
        mapped
    };
    let head = past_hyphens(cut);
    let label = up_to_hyphens(head);
    past_hyphens_is_a_suffix(cut);
    up_to_hyphens_is_a_prefix(head);
    reveal_strlit("nearscreen");
    if label.len() > 0 {
        assert(label[0] == head[0]);
        assert forall|i: int| 0 <= i < label.len() implies is_plain(#[trigger] label[i]) || label[i]
            == '-' by {
            assert(label[i] == head[i]);
            assert(head[i] == cut[cut.len() - head.len() + i]);
        }
    }
}

/// A name DNS can carry as it is keeps its label.
pub proof fn labels_stay_as_they_are(name: Seq<char>)
    requires
        is_label(name),
    ensures
        label_of(name) == name,
{
    let mapped = Seq::new(name.len(), |i: int| label_char(name[i]));
    assert(mapped =~= name);
    assert(past_hyphens(name) == name);
    assert(up_to_hyphens(name) == name);
}

/// Whether this is what a receiver of this name announces: "v" is the version of the protocol.
pub open spec fn announces(service: Service, name: Seq<char>, port: u16) -> bool {
    &&& service.name() == escaped(shown_as(name)) + "."@ + SERVICE_TYPE@
    &&& service.place() == label_of(shown_as(name)) + ".local."@
    &&& service.listening_on() == port
    &&& service.says("v"@, "1"@)
}

/// What a receiver of this name announces.
pub fn announcement(instance_name: &str, port: u16) -> (service: Option<Service>)
    ensures
        service matches Some(service) && announces(service, instance_name@, port),
{
    let instance = display_name(instance_name);
    let label = host_label(instance.as_str());
    let mut host = label.clone();
    host.append(".local.");
    proof {
        service_type_has_no_subtype();
        property_is_sound();
        host_ends_in_local_once(instance@);
    }
    match describe_service(SERVICE_TYPE, instance.as_str(), host.as_str(), port, "v", "1") {
        Ok(service) => Some(service),
        Err(_) => None,
    }
}

proof fn service_type_has_no_subtype()
    ensures
        !has_part(SERVICE_TYPE@, "._sub."@),
{
    reveal_strlit("_nearscreen._tcp.local.");
    reveal_strlit("._sub.");
    let all = SERVICE_TYPE@;
    let part = "._sub."@;
    assert forall|at: int| !crate::text::occurs_at(all, part, at) by {
        if crate::text::occurs_at(all, part, at) {
            let here = all.subrange(at, at + part.len());
            assert(here[0] == part[0] && here[2] == part[2]);
            assert(all[at] == '.' && all[at + 2] == 's');
        }
    }
}

proof fn property_is_sound()
    ensures
        is_ascii_chars("v"@),
        !"v"@.contains('='),
        encode_utf8("v"@).len() + 1 + encode_utf8("1"@).len() <= 255,
{
    reveal_strlit("v");
    reveal_strlit("1");
    vstd::utf8::is_ascii_chars_encode_utf8("v"@);
    vstd::utf8::is_ascii_chars_encode_utf8("1"@);
}

proof fn host_ends_in_local_once(name: Seq<char>)
    ensures
        !ends_in(label_of(name) + ".local."@, ".local.local."@),
{
    reveal_strlit(".local.");
    reveal_strlit(".local.local.");
    host_labels_survive_any_name(name);
    let label = label_of(name);
    let host = label + ".local."@;
    if ends_in(host, ".local.local."@) {
        let end = host.skip(host.len() - 13);
        assert(end[0] == '.');
        assert(host[host.len() - 13] == label[label.len() - 6]);
    }
}

/// An interface is a virtual one just where its name, in any case, holds one of the words that
/// virtual switches and VPNs go by, wherever in the name it stands.
pub proof fn virtual_interfaces_say_so(name: Seq<char>, before: Seq<char>, after: Seq<char>)
    ensures
        lower(name) == before + "vethernet"@ + after ==> is_synthetic(name),
        lower(name) == before + "wsl"@ + after ==> is_synthetic(name),
        lower(name) == before + "hyper-v"@ + after ==> is_synthetic(name),
        lower(name) == before + "virtual"@ + after ==> is_synthetic(name),
        lower(name) == before + "virtualbox"@ + after ==> is_synthetic(name),
        lower(name) == before + "vmware"@ + after ==> is_synthetic(name),
        lower(name) == before + "docker"@ + after ==> is_synthetic(name),
        lower(name) == before + "vpn"@ + after ==> is_synthetic(name),
        lower(name) == before + "tailscale"@ + after ==> is_synthetic(name),
        lower(name) == before + "zerotier"@ + after ==> is_synthetic(name),
        lower(name) == before + "tun"@ + after ==> is_synthetic(name),
        lower(name) == before + "tap"@ + after ==> is_synthetic(name),
        is_synthetic(name) ==> has_part(lower(name), "vethernet"@) || has_part(lower(name), "wsl"@)
            || has_part(lower(name), "hyper-v"@) || has_part(lower(name), "virtual"@) || has_part(
            lower(name),
            "virtualbox"@,
        ) || has_part(lower(name), "vmware"@) || has_part(lower(name), "docker"@) || has_part(
            lower(name),
            "vpn"@,
        ) || has_part(lower(name), "tailscale"@) || has_part(lower(name), "zerotier"@) || has_part(
            lower(name),
            "tun"@,
        ) || has_part(lower(name), "tap"@),
{
    let words = synthetic_markers();
    assert forall|i: int|
        0 <= i < words.len() && lower(name) == before + (#[trigger] words[i]) + after implies
        is_synthetic(name) by {
        parts_stand_between(before, words[i], after, name);
    }
    assert(words.len() == 12);
    assert(words[0] == "vethernet"@ && words[1] == "wsl"@ && words[2] == "hyper-v"@);
    assert(words[3] == "virtual"@ && words[4] == "virtualbox"@ && words[5] == "vmware"@);
    assert(words[6] == "docker"@ && words[7] == "vpn"@ && words[8] == "tailscale"@);
    assert(words[9] == "zerotier"@ && words[10] == "tun"@ && words[11] == "tap"@);
}

/// The words that virtual interfaces go by, letter by letter.
pub proof fn the_words_of_virtual_interfaces()
    ensures
        "vethernet"@ == seq!['v', 'e', 't', 'h', 'e', 'r', 'n', 'e', 't'],
        "wsl"@ == seq!['w', 's', 'l'],
        "hyper-v"@ == seq!['h', 'y', 'p', 'e', 'r', '-', 'v'],
        "virtual"@ == seq!['v', 'i', 'r', 't', 'u', 'a', 'l'],
        "vmware"@ == seq!['v', 'm', 'w', 'a', 'r', 'e'],
        "docker"@ == seq!['d', 'o', 'c', 'k', 'e', 'r'],
        "vpn"@ == seq!['v', 'p', 'n'],
        "tailscale"@ == seq!['t', 'a', 'i', 'l', 's', 'c', 'a', 'l', 'e'],
        "zerotier"@ == seq!['z', 'e', 'r', 'o', 't', 'i', 'e', 'r'],
        "tun"@ == seq!['t', 'u', 'n'],
        "tap"@ == seq!['t', 'a', 'p'],
{
    reveal_strlit("vethernet");
    reveal_strlit("wsl");
    reveal_strlit("hyper-v");
    reveal_strlit("virtual");
    reveal_strlit("vmware");
    reveal_strlit("docker");
    reveal_strlit("vpn");
    reveal_strlit("tailscale");
    reveal_strlit("zerotier");
    reveal_strlit("tun");
    reveal_strlit("tap");
}

/// Which rank an address has, by the range it lies in: 169.254.0.0/16 is no network at all,
/// 10.0.0.0/8, 172.16.0.0/12 and 192.168.0.0/16 are private, and everything else is the open
/// internet. Of the private ones, those of virtual interfaces come last, and of the others those
/// in 172.16.0.0/12.
pub proof fn ranks_go_by_range(name: Seq<char>, octets: Seq<u8>)
    requires
        octets.len() == 4,
    ensures
        ({
            let n = be_value(octets) as int;
            let home = 0x0A00_0000 <= n <= 0x0AFF_FFFF || 0xC0A8_0000 <= n <= 0xC0A8_FFFF;
            let switch = 0xAC10_0000 <= n <= 0xAC1F_FFFF;
            let nowhere = 0xA9FE_0000 <= n <= 0xA9FE_FFFF;
            &&& rank_of(name, octets) == 0 <==> home && !is_synthetic(name)
            &&& rank_of(name, octets) == 1 <==> switch && !is_synthetic(name)
            &&& rank_of(name, octets) == 2 <==> (home || switch) && is_synthetic(name)
            &&& rank_of(name, octets) == 3 <==> !home && !switch && !nowhere
            &&& rank_of(name, octets) == 4 <==> nowhere
        }),
{
    four_bytes_spell(octets);
}

/// On every private network, an interface whose name holds a word that VPNs or virtual switches go
/// by ranks behind all the others.
pub proof fn virtual_interfaces_rank_behind(
    name: Seq<char>,
    octets: Seq<u8>,
    before: Seq<char>,
    word: Seq<char>,
    after: Seq<char>,
)
    requires
        octets.len() == 4,
        octets[0] == 10 || octets[0] == 172 && 16 <= octets[1] <= 31 || octets[0] == 192
            && octets[1] == 168,
        lower(name) == before + word + after,
        word == "vethernet"@ || word == "wsl"@ || word == "hyper-v"@ || word == "virtual"@ || word
            == "vmware"@ || word == "docker"@ || word == "vpn"@ || word == "tailscale"@ || word
            == "zerotier"@ || word == "tun"@ || word == "tap"@,
    ensures
        rank_of(name, octets) == 2,
{
    virtual_interfaces_say_so(name, before, after);
}

/// Every address that a phone is told is one of this computer's own, and not a loopback one; and a
/// private one is not that of a virtual interface alone.
pub proof fn only_own_addresses_are_told(
    addresses: Seq<Address>,
    interfaces: Seq<NetInterface>,
    i: int,
)
    requires
        are_reachable(addresses, interfaces),
        0 <= i < addresses.len(),
    ensures
        addresses[i] is V4,
        exists|k: int|
            0 <= k < interfaces.len() && #[trigger] bears(interfaces[k], addresses[i]->V4_0@) && (
            is_private(addresses[i]->V4_0@) ==> !is_synthetic(interfaces[k].name@)),
{
    let key = reachable(interfaces)[i];
    let octets = addresses[i]->V4_0;
    the_likeliest_come_first(interfaces);
    assert(is_address_of(addresses[i], key));
    assert(candidates(interfaces).contains(key));
    candidates_are_carried(interfaces, key);
    let k = choose|k: int| 0 <= k < interfaces.len() && #[trigger] carries(interfaces[k], key);
    bytes_survive_their_number((interfaces[k].v4->0)@);
    bytes_survive_their_number(octets@);
    assert((interfaces[k].v4->0)@ == octets@);
    assert(bears(interfaces[k], octets@));
}

/// Whether an interface has this address and others can reach it.
pub open spec fn bears(interface: NetInterface, octets: Seq<u8>) -> bool {
    &&& !interface.loopback
    &&& interface.v4 matches Some(own) && own@ == octets
}

/// The private address of interfaces whose names hold a word that VPNs or virtual switches go by is
/// never told to a phone.
pub proof fn virtual_addresses_are_not_told(
    addresses: Seq<Address>,
    interfaces: Seq<NetInterface>,
    octets: Seq<u8>,
    word: Seq<char>,
)
    requires
        are_reachable(addresses, interfaces),
        octets.len() == 4,
        octets[0] == 10 || octets[0] == 172 && 16 <= octets[1] <= 31 || octets[0] == 192
            && octets[1] == 168,
        word == "vethernet"@ || word == "wsl"@ || word == "hyper-v"@ || word == "virtual"@ || word
            == "vmware"@ || word == "docker"@ || word == "vpn"@ || word == "tailscale"@ || word
            == "zerotier"@ || word == "tun"@ || word == "tap"@,
        forall|k: int|
            0 <= k < interfaces.len() && #[trigger] bears(interfaces[k], octets) ==> has_part(
                lower(interfaces[k].name@),
                word,
            ),
    ensures
        forall|i: int|
            0 <= i < addresses.len() ==> #[trigger] addresses[i] is V4 && addresses[i]->V4_0@
                != octets,
{
    assert forall|i: int| 0 <= i < addresses.len() implies #[trigger] addresses[i] is V4
        && addresses[i]->V4_0@ != octets by {
        only_own_addresses_are_told(addresses, interfaces, i);
        if addresses[i]->V4_0@ == octets {
            let k = choose|k: int|
                0 <= k < interfaces.len() && #[trigger] bears(interfaces[k], octets) && (
                is_private(octets) ==> !is_synthetic(interfaces[k].name@));
            let name = interfaces[k].name@;
            parts_stand_between(name, word, name, lower(name));
            let (a, b) = choose|a: Seq<char>, b: Seq<char>| lower(name) == #[trigger] (a + word
                + b);
            virtual_interfaces_say_so(name, a, b);
        }
    }
}

/// The private address of an interface that others can reach, and that no word marks as virtual, is
/// told to the phone.
pub proof fn own_networks_are_told(
    addresses: Seq<Address>,
    interfaces: Seq<NetInterface>,
    octets: Seq<u8>,
    k: int,
)
    requires
        are_reachable(addresses, interfaces),
        0 <= k < interfaces.len(),
        bears(interfaces[k], octets),
        octets[0] == 10 || octets[0] == 172 && 16 <= octets[1] <= 31 || octets[0] == 192
            && octets[1] == 168,
        !is_synthetic(interfaces[k].name@),
    ensures
        exists|i: int|
            0 <= i < addresses.len() && #[trigger] addresses[i] is V4 && addresses[i]->V4_0@
                == octets,
{
    let name = interfaces[k].name@;
    let key = ranked(name, octets);
    rank_and_address_come_apart(name, octets);
    assert(carries(interfaces[k], key));
    candidates_are_carried(interfaces, key);
    the_likeliest_come_first(interfaces);
    let at = choose|at: int|
        0 <= at < candidates(interfaces).len() && candidates(interfaces)[at] == key;
    assert(candidates(interfaces)[at] / RANK_STEP <= 1);
    assert(reachable(interfaces).contains(key));
    let i = choose|i: int| 0 <= i < reachable(interfaces).len() && reachable(interfaces)[i] == key;
    assert(is_address_of(addresses[i], reachable(interfaces)[i]));
    bytes_survive_their_number(addresses[i]->V4_0@);
    bytes_survive_their_number(octets);
}

/// What the ranks and the announcement are built from.
pub proof fn the_announcement_is_agreed_on()
    ensures
        RANK_STEP == 0x1_0000_0000,
        SYNTHETIC_RANK == 2,
        LONGEST_LABEL == 63,
        SERVICE_TYPE@ == "_nearscreen._tcp.local."@,
{
}

/// The loopback interfaces are named by the word "loopback", in any case and with any space around
/// it, and by nothing else.
pub proof fn loopback_goes_by_its_name(before: Seq<char>, word: Seq<char>, after: Seq<char>)
    requires
        forall|i: int| 0 <= i < before.len() ==> is_white(#[trigger] before[i]),
        forall|i: int| 0 <= i < after.len() ==> is_white(#[trigger] after[i]),
        word.len() > 0,
        !is_white(word[0]) && !is_white(word.last()),
    ensures
        names_loopback(before + word + after) <==> lower(word) == seq![
            'l',
            'o',
            'o',
            'p',
            'b',
            'a',
            'c',
            'k',
        ],
{
    only_the_space_around_goes(before, word, after);
    reveal_strlit("loopback");
    assert("loopback"@ =~= seq!['l', 'o', 'o', 'p', 'b', 'a', 'c', 'k']);
}

/// Every address a phone could reach is announced, in its order, and nothing else; a chosen one is
/// announced alone; and loopback is announced on both of its interfaces.
pub proof fn every_chosen_interface_is_kept(
    interfaces: Interfaces,
    local: Seq<Address>,
    kinds: Option<Vec<Kind>>,
)
    requires
        interfaces.keeps(local, kinds),
    ensures
        kinds is None <==> interfaces is All && local.len() == 0,
        interfaces is All && kinds is Some ==> {
            &&& kinds->0@.len() == local.len()
            &&& forall|i: int|
                0 <= i < local.len() ==> #[trigger] kinds->0@[i] == Kind::Addr(local[i])
        },
        interfaces matches Interfaces::Only(address) ==> kinds->0@.len() == 1 && kinds->0@[0]
            == Kind::Addr(address),
        interfaces is Loopback ==> kinds->0@.len() == 2 && kinds->0@[0] == Kind::LoopbackV4
            && kinds->0@[1] == Kind::LoopbackV6,
{
}

/// A receiver is shown by its name without the space around it; one without a visible name is shown
/// as "Nearscreen receiver".
pub proof fn receivers_go_by_their_names(before: Seq<char>, name: Seq<char>, after: Seq<char>)
    requires
        forall|i: int| 0 <= i < before.len() ==> is_white(#[trigger] before[i]),
        forall|i: int| 0 <= i < after.len() ==> is_white(#[trigger] after[i]),
        name.len() > 0 ==> !is_white(name[0]) && !is_white(name.last()),
    ensures
        shown_as(before + name + after) == if name.len() > 0 {
            name
        } else {
            "Nearscreen receiver"@
        },
{
    only_the_space_around_goes(before, name, after);
}

proof fn hyphens_are_all_that_goes(s: Seq<char>)
    ensures
        forall|i: int| 0 <= i < s.len() - past_hyphens(s).len() ==> #[trigger] s[i] == '-',
        forall|i: int| up_to_hyphens(s).len() <= i < s.len() ==> #[trigger] s[i] == '-',
    decreases s.len(),
{
    past_hyphens_is_a_suffix(s);
    up_to_hyphens_is_a_prefix(s);
    if s.len() > 0 && s[0] == '-' {
        hyphens_are_all_that_goes(s.skip(1));
        assert forall|i: int| 0 <= i < s.len() - past_hyphens(s).len() implies #[trigger] s[i]
            == '-' by {
            if i > 0 {
                assert(s.skip(1)[i - 1] == s[i]);
            }
        }
    }
    if s.len() > 0 && s.last() == '-' {
        hyphens_are_all_that_goes(s.drop_last());
        assert forall|i: int| up_to_hyphens(s).len() <= i < s.len() implies #[trigger] s[i]
            == '-' by {
            if i < s.len() - 1 {
                assert(s.drop_last()[i] == s[i]);
            }
        }
    }
}

/// Whether a label is a stretch of the first sixty-three characters of a name, from `from` on: the
/// letters and digits of ASCII stand where they stood, hyphens stand for everything else, and no
/// letter or digit is left outside.
pub open spec fn is_stretch(label: Seq<char>, name: Seq<char>, from: int) -> bool {
    &&& 0 <= from
    &&& from + label.len() <= name.len()
    &&& from + label.len() <= 63
    &&& forall|i: int|
        0 <= i < label.len() ==> #[trigger] label[i] == if '0' <= name[from + i] <= '9' || 'a'
            <= name[from + i] <= 'z' || 'A' <= name[from + i] <= 'Z' {
            name[from + i]
        } else {
            '-'
        }
    &&& forall|i: int|
        0 <= i < name.len() && i < 63 && !(from <= i < from + label.len()) ==> !('0' <= (
        #[trigger] name[i]) <= '9' || 'a' <= name[i] <= 'z' || 'A' <= name[i] <= 'Z')
}

/// A label keeps every letter and digit among the first sixty-three characters of the name, in its
/// place; a name without any there is labelled "nearscreen".
pub proof fn labels_keep_letters_and_digits(name: Seq<char>)
    ensures
        (exists|i: int|
            0 <= i < name.len() && i < 63 && ('0' <= (#[trigger] name[i]) <= '9' || 'a' <= name[i]
                <= 'z' || 'A' <= name[i] <= 'Z')) ==> exists|from: int|
            is_stretch(label_of(name), name, from),
        (forall|i: int|
            0 <= i < name.len() && i < 63 ==> !('0' <= (#[trigger] name[i]) <= '9' || 'a' <= name[i]
                <= 'z' || 'A' <= name[i] <= 'Z')) ==> label_of(name) == "nearscreen"@,
{
    let mapped = Seq::new(name.len(), |i: int| label_char(name[i]));
    let cut = if mapped.len() > LONGEST_LABEL {
        mapped.take(LONGEST_LABEL as int)
    } else {
        mapped
    };
    let head = past_hyphens(cut);
    let label = up_to_hyphens(head);
    past_hyphens_is_a_suffix(cut);
    up_to_hyphens_is_a_prefix(head);
    hyphens_are_all_that_goes(cut);
    hyphens_are_all_that_goes(head);
    let from = cut.len() - head.len();
    assert forall|i: int| 0 <= i < cut.len() && !(from <= i < from + label.len()) implies !is_plain(
        #[trigger] name[i],
    ) by {
        assert(cut[i] == label_char(name[i]));
        if i >= from {
            assert(head[i - from] == cut[i]);
        }
    }
    assert forall|i: int| 0 <= i < label.len() implies #[trigger] label[i] == label_char(
        name[from + i],
    ) by {
        assert(label[i] == head[i]);
        assert(head[i] == cut[from + i]);
    }
    if label.len() > 0 {
        assert(is_plain(name[from]));
        assert(is_stretch(label, name, from));
        assert(label_of(name) == label);
    } else {
        assert forall|i: int| 0 <= i < name.len() && i < 63 implies !is_plain(
            #[trigger] name[i],
        ) by {
            assert(0 <= i < cut.len());
        }
    }
}

/// A receiver whose name DNS can carry is announced under that name: as an instance of the service
/// that phones browse for, on the host of that name, on its port, and with version 1 of the
/// protocol.
pub proof fn receivers_are_announced_by_name(service: Service, name: Seq<char>, port: u16)
    requires
        announces(service, name, port),
        is_label(name),
    ensures
        service.name() == name + "."@ + "_nearscreen._tcp.local."@,
        service.place() == name + ".local."@,
        service.listening_on() == port,
        service.record().len() == 1,
        service.record()[0].0@ == "v"@,
        service.record()[0].1@ == "1"@,
{
    let nothing = Seq::<char>::empty();
    assert(name[name.len() - 1] == name.last());
    receivers_go_by_their_names(nothing, name, nothing);
    assert(nothing + name + nothing =~= name);
    labels_stay_as_they_are(name);
    plain_names_are_not_escaped(name);
}

} // verus!
