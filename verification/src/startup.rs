//! What is settled before the first phone comes by.

use vstd::prelude::*;

use crate::net::address::Address;
use crate::net::discovery::{names_loopback, Interfaces};
use crate::net::protocol::Codec;

verus! {

/// The codec to ask the phone for, given the one that was asked for and whether this computer can
/// decode that one.
pub open spec fn codec_to_ask(asked: Codec, supported: bool) -> Codec {
    if !supported && asked == Codec::Hevc {
        Codec::H264
    } else {
        asked
    }
}

/// The codec we ask the phone for, never HEVC on a computer that cannot decode it: `supported`
/// says whether this computer can decode the one that was asked for. Where H.264 cannot be
/// decoded there is nothing better to ask for.
pub fn choose_codec(asked: Codec, supported: bool) -> (codec: Codec)
    ensures
        codec == codec_to_ask(asked, supported),
        codec == Codec::Hevc ==> supported,
{
    if supported {
        return asked;
    }
    match asked {
        Codec::Hevc => Codec::H264,
        Codec::H264 => asked,
    }
}

/// The one of two wishes that counts: the first where there is one.
pub open spec fn wish<'a>(argument: Option<&'a str>, preferred: Option<&'a str>) -> Option<&'a str> {
    if argument is Some {
        argument
    } else {
        preferred
    }
}

/// The interface that was asked for: on the command line, or else in the settings.
pub fn chosen_interface<'a>(
    argument: Option<&'a str>,
    preferred: Option<&'a str>,
) -> (chosen: Option<&'a str>)
    ensures
        chosen == wish(argument, preferred),
{
    match argument {
        Some(value) => Some(value),
        None => preferred,
    }
}

/// Whether these are the interfaces to announce on where that was asked for, and spells that
/// address or none.
pub open spec fn are_asked_for(
    interfaces: Interfaces,
    chosen: Option<Seq<char>>,
    address: Option<Address>,
) -> bool {
    match interfaces {
        Interfaces::All => match chosen {
            Some(value) => !names_loopback(value) && address is None,
            None => true,
        },
        Interfaces::Only(only) => {
            &&& chosen matches Some(value) && !names_loopback(value)
            &&& address == Some(only)
        },
        Interfaces::Loopback => chosen matches Some(value) && names_loopback(value),
    }
}

/// The interfaces to announce on: what was asked for, and every interface where nothing was, or
/// nothing that can be understood. `address` is the address that the value spells without the
/// space around it, where it spells one.
pub fn announced_interfaces(
    chosen: Option<&str>,
    address: Option<Address>,
) -> (interfaces: Interfaces)
    ensures
        are_asked_for(
            interfaces,
            match chosen {
                Some(value) => Some(value@),
                None => None,
            },
            address,
        ),
{
    match chosen {
        Some(value) => match Interfaces::parse(value, address) {
            Some(interfaces) => interfaces,
            None => Interfaces::default(),
        },
        None => Interfaces::default(),
    }
}

/// Whether an address is in the list at `at` and nowhere before.
pub open spec fn first_at(addresses: Seq<Address>, address: Address, at: int) -> bool {
    &&& 0 <= at < addresses.len()
    &&& addresses[at].is_same(address)
    &&& forall|i: int| 0 <= i < at ==> !(#[trigger] addresses[i]).is_same(address)
}

/// The list with the first and another entry swapped.
pub open spec fn swapped(addresses: Seq<Address>, at: int) -> Seq<Address> {
    addresses.update(0, addresses[at]).update(at, addresses[0])
}

/// Whether this is the list with the address from the settings file first, where there is one and
/// it is in the list.
pub open spec fn is_reordered(
    ordered: Seq<Address>,
    addresses: Seq<Address>,
    preferred: Option<Address>,
) -> bool {
    match preferred {
        None => ordered == addresses,
        Some(address) => {
            ||| exists|at: int| #[trigger] first_at(addresses, address, at) && ordered == swapped(
                addresses,
                at,
            )
            ||| ordered == addresses && forall|i: int|
                0 <= i < addresses.len() ==> !(#[trigger] addresses[i]).is_same(address)
        },
    }
}

/// Puts the address from the settings file first, when it is one this computer actually has: the
/// person who set it knows which network the phone is on.
pub fn preferred_first(addresses: Vec<Address>, preferred: Option<Address>) -> (ordered: Vec<
    Address,
>)
    ensures
        is_reordered(ordered@, addresses@, preferred),
{
    let wanted = match &preferred {
        Some(wanted) => wanted,
        None => {
            return addresses;
        },
    };
    let mut i: usize = 0;
    while i < addresses.len()
        invariant
            preferred == Some(*wanted),
            i <= addresses@.len(),
            forall|j: int| 0 <= j < i ==> !(#[trigger] addresses@[j]).is_same(*wanted),
        decreases addresses@.len() - i,
    {
        if addresses[i].same(wanted) {
            assert(first_at(addresses@, *wanted, i as int));
            let first = addresses[0];
            let found = addresses[i];
            let mut ordered = addresses;
            ordered.set(0, found);
            ordered.set(i, first);
            return ordered;
        }
        i += 1;
    }
    addresses
}

/// The preferred address comes first where this computer has it, and no address is lost.
pub proof fn preferring_loses_no_address(addresses: Seq<Address>, address: Address, at: int)
    requires
        first_at(addresses, address, at),
    ensures
        swapped(addresses, at)[0].is_same(address),
        swapped(addresses, at).to_multiset() == addresses.to_multiset(),
{
    broadcast use vstd::seq_lib::group_to_multiset_ensures;

    let once = addresses.update(0, addresses[at]);
    vstd::seq_lib::to_multiset_update(addresses, 0, addresses[at]);
    vstd::seq_lib::to_multiset_update(once, at, addresses[0]);
    assert(swapped(addresses, at).to_multiset() =~= addresses.to_multiset());
}

/// HEVC is asked for just where it was wanted and can be decoded here.
pub proof fn hevc_is_asked_for_where_it_helps(asked: Codec, supported: bool)
    ensures
        codec_to_ask(asked, supported) == Codec::Hevc <==> asked == Codec::Hevc && supported,
{
}

/// The command line wins over the settings, and the settings count where it says nothing.
pub proof fn the_command_line_wins<'a>(argument: Option<&'a str>, preferred: Option<&'a str>)
    ensures
        argument is Some ==> wish(argument, preferred) == argument,
        argument is None ==> wish(argument, preferred) == preferred,
{
}

/// Loopback is announced on just where it was asked for by name; one address where the wish spells
/// it; and every network where nothing was asked for, or nothing that can be understood.
pub proof fn wishes_are_followed_where_they_can_be(
    interfaces: Interfaces,
    chosen: Option<Seq<char>>,
    address: Option<Address>,
)
    requires
        are_asked_for(interfaces, chosen, address),
    ensures
        chosen is None ==> interfaces is All,
        chosen is Some && names_loopback(chosen->0) ==> interfaces is Loopback,
        chosen is Some && !names_loopback(chosen->0) && address is Some ==> interfaces
            == Interfaces::Only(address->0),
        chosen is Some && !names_loopback(chosen->0) && address is None ==> interfaces is All,
{
}

/// The preferred address comes first where this computer has it; the one that was first takes its
/// place, and every other stays where it is. Where this computer does not have it, or none is
/// preferred, nothing changes.
pub proof fn the_preferred_address_comes_first(
    ordered: Seq<Address>,
    addresses: Seq<Address>,
    preferred: Option<Address>,
    at: int,
)
    requires
        is_reordered(ordered, addresses, preferred),
    ensures
        ordered.len() == addresses.len(),
        preferred is None ==> ordered == addresses,
        preferred matches Some(address) && (forall|i: int|
            0 <= i < addresses.len() ==> !(#[trigger] addresses[i]).is_same(address)) ==> ordered
            == addresses,
        preferred is Some && first_at(addresses, preferred->0, at) ==> {
            &&& ordered[0] == addresses[at]
            &&& ordered[at] == addresses[0]
            &&& forall|i: int|
                0 < i < addresses.len() && i != at ==> #[trigger] ordered[i] == addresses[i]
        },
{
    if preferred is Some && first_at(addresses, preferred->0, at) {
        let address = preferred->0;
        assert(addresses[at].is_same(address));
        let found = choose|k: int| #[trigger] first_at(addresses, address, k) && ordered == swapped(
            addresses,
            k,
        );
        assert(first_at(addresses, address, found));
        if found < at {
            assert(!addresses[found].is_same(address));
        }
        if at < found {
            assert(!addresses[at].is_same(address));
        }
    }
}

} // verus!
