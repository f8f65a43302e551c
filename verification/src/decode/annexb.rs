//! Annex-B: the shape the phone sends its video in.
//!
//! An access unit is a run of NAL units separated by start codes. Windows takes that as it
//! comes; VideoToolbox wants the parameter sets handed over separately and everything else
//! prefixed with its length.

use vstd::prelude::*;

use crate::bytes::{
    be_bytes, be_bytes_len, be_value, number_survives_its_bytes, pow256_widths, push_be,
    same_bytes,
};
use crate::net::protocol::Codec;

verus! {

/// Whether a start code `00 00 01` stands at `at`.
pub open spec fn code_at(data: Seq<u8>, at: int) -> bool {
    &&& 0 <= at
    &&& at + 3 <= data.len()
    &&& data[at] == 0
    &&& data[at + 1] == 0
    &&& data[at + 2] == 1
}

/// Where the first start code at or after `from` stands.
pub open spec fn next_code(data: Seq<u8>, from: int) -> Option<int>
    decreases data.len() - from,
{
    if from + 3 > data.len() {
        None
    } else if code_at(data, from) {
        Some(from)
    } else {
        next_code(data, from + 1)
    }
}

/// The bytes without the zeroes at their end.
pub open spec fn without_zeroes(bytes: Seq<u8>) -> Seq<u8>
    decreases bytes.len(),
{
    if bytes.len() > 0 && bytes.last() == 0 {
        without_zeroes(bytes.drop_last())
    } else {
        bytes
    }
}

/// The NAL units from `at` on: what stands between one start code and the next, without the
/// zeroes at its end, where that leaves anything.
pub open spec fn units_from(data: Seq<u8>, at: int) -> Seq<Seq<u8>>
    decreases data.len() - at,
    via units_from_shrinks
{
    match next_code(data, at) {
        None => Seq::empty(),
        Some(code) => {
            let from = code + 3;
            let (end, rest) = match next_code(data, from) {
                None => (data.len() as int, Seq::empty()),
                Some(next) => (next, units_from(data, next)),
            };
            let unit = without_zeroes(data.subrange(from, end));
            if unit.len() == 0 {
                rest
            } else {
                seq![unit] + rest
            }
        },
    }
}

#[via_fn]
proof fn units_from_shrinks(data: Seq<u8>, at: int) {
    if let Some(code) = next_code(data, at) {
        next_code_is_first(data, at);
        next_code_is_first(data, code + 3);
    }
}

/// The NAL units of a whole buffer.
pub open spec fn units_of(data: Seq<u8>) -> Seq<Seq<u8>> {
    units_from(data, 0)
}

/// `next_code` is what its name says.
proof fn next_code_is_first(data: Seq<u8>, from: int)
    ensures
        match next_code(data, from) {
            None => forall|i: int| from <= i ==> !code_at(data, i),
            Some(code) => {
                &&& from <= code
                &&& code + 3 <= data.len()
                &&& (0 <= from ==> code_at(data, code))
                &&& forall|i: int| from <= i < code ==> !code_at(data, i)
            },
        },
    decreases data.len() - from,
{
    if from + 3 > data.len() {
    } else if code_at(data, from) {
    } else {
        next_code_is_first(data, from + 1);
    }
}

/// The first start code is found from anywhere between where the search began and itself.
proof fn next_code_skips(data: Seq<u8>, from: int, code: int)
    requires
        0 <= from <= code,
        code_at(data, code),
        forall|i: int| from <= i < code ==> !code_at(data, i),
    ensures
        next_code(data, from) == Some(code),
    decreases code - from,
{
    if from < code {
        assert(!code_at(data, from));
        next_code_skips(data, from + 1, code);
    }
}

/// Where a start code begins and where the payload behind it does.
fn start_code(data: &[u8], from: usize) -> (found: Option<(usize, usize)>)
    ensures
        match found {
            None => next_code(data@, from as int) is None,
            Some((begins, payload)) => {
                &&& next_code(data@, from as int) == Some(payload - 3)
                &&& from <= begins <= payload - 3
                &&& payload <= data@.len()
                &&& begins == payload - 3 || (begins == payload - 4 && data@[begins as int] == 0)
            },
        },
{
    let n: usize = data.len();
    if n < 3 {
        return None;
    }
    let mut at: usize = from;
    while at <= n - 3
        invariant
            from <= at,
            3 <= n,
            n == data@.len(),
            next_code(data@, from as int) == next_code(data@, at as int),
        decreases n - at,
    {
        if data[at] == 0 && data[at + 1] == 0 && data[at + 2] == 1 {
            // A four-byte start code is the three-byte one with a zero in front.
            let begins: usize = if at > from && data[at - 1] == 0 {
                at - 1
            } else {
                at
            };
            return Some((begins, at + 3));
        }
        at += 1;
    }
    None
}

fn trim_trailing_zeroes(unit: &[u8]) -> (trimmed: &[u8])
    ensures
        trimmed@ == without_zeroes(unit@),
{
    let mut end: usize = unit.len();
    assert(unit@.subrange(0, end as int) =~= unit@);
    while end > 0 && unit[end - 1] == 0
        invariant
            end <= unit@.len(),
            without_zeroes(unit@.subrange(0, end as int)) == without_zeroes(unit@),
        decreases end,
    {
        assert(unit@.subrange(0, end as int).drop_last() =~= unit@.subrange(0, end - 1));
        end -= 1;
    }
    &unit[0..end]
}

/// The NAL units in a buffer, without their start codes and without the trailing zeroes some
/// encoders leave behind.
pub fn nal_units(data: &[u8]) -> (units: NalUnits<'_>)
    ensures
        units.remaining() == units_of(data@),
{
    NalUnits { data, at: 0 }
}

/// A walk over the NAL units of a buffer.
pub struct NalUnits<'a> {
    data: &'a [u8],
    at: usize,
}

impl<'a> NalUnits<'a> {
    /// The units still to come.
    pub closed spec fn remaining(self) -> Seq<Seq<u8>> {
        units_from(self.data@, self.at as int)
    }

    /// The next unit, if one is left.
    pub fn next(&mut self) -> (unit: Option<&'a [u8]>)
        ensures
            match unit {
                Some(unit) => {
                    &&& unit@.len() > 0
                    &&& old(self).remaining() == seq![unit@] + final(self).remaining()
                },
                None => old(self).remaining().len() == 0 && final(self).remaining().len() == 0,
            },
    {
        let data = self.data;
        loop
            invariant
                self.data == data,
                self.remaining() == old(self).remaining(),
            decreases data@.len() - self.at,
        {
            let ghost at = self.at as int;
            let from: usize = match start_code(data, self.at) {
                None => {
                    return None;
                },
                Some((_, from)) => from,
            };
            let found = start_code(data, from);
            let end: usize = match found {
                Some((next_start, _)) => next_start,
                None => data.len(),
            };
            proof {
                next_code_is_first(data@, at);
                next_code_is_first(data@, from as int);
                if let Some((begins, payload)) = found {
                    next_code_skips(data@, begins as int, payload - 3);
                    units_from_code(data@, begins as int, payload - 3);
                    if begins < payload - 3 {
                        let wide = data@.subrange(from as int, payload - 3);
                        assert(wide.drop_last() =~= data@.subrange(from as int, begins as int));
                    }
                } else {
                    next_code_is_first(data@, data@.len() as int);
                }
            }
            self.at = end;
            let unit = trim_trailing_zeroes(&data[from..end]);
            if unit.len() != 0 {
                return Some(unit);
            }
            assert(self.remaining() =~= old(self).remaining());
        }
    }

    /// All the units still to come, in order.
    pub fn collect(self) -> (units: Vec<&'a [u8]>)
        ensures
            units@.len() == self.remaining().len(),
            forall|i: int| 0 <= i < units@.len() ==> #[trigger] units@[i]@ == self.remaining()[i],
    {
        let mut walk = self;
        let mut units: Vec<&'a [u8]> = Vec::new();
        let ghost all = self.remaining();
        loop
            invariant
                all == self.remaining(),
                units@.len() + walk.remaining().len() == all.len(),
                walk.remaining() == all.subrange(units@.len() as int, all.len() as int),
                forall|i: int| 0 <= i < units@.len() ==> #[trigger] units@[i]@ == all[i],
            ensures
                units@.len() == all.len(),
            decreases walk.remaining().len(),
        {
            let ghost left = walk.remaining();
            match walk.next() {
                None => {
                    break;
                },
                Some(unit) => {
                    assert(unit@ == left[0]);
                    assert(walk.remaining() =~= left.subrange(1, left.len() as int));
                    units.push(unit);
                },
            }
        }
        units
    }

    /// How many units are still to come.
    pub fn count(self) -> (n: usize)
        ensures
            n == self.remaining().len(),
    {
        self.collect().len()
    }
}

/// A search that starts just before a start code goes on from the same place as one that
/// starts at it.
proof fn units_from_code(data: Seq<u8>, from: int, code: int)
    requires
        0 <= from <= code,
        next_code(data, from) == Some(code),
    ensures
        units_from(data, from) == units_from(data, code),
{
    next_code_is_first(data, from);
    next_code_skips(data, code, code);
}

/// What one step of a walk over `units` leaves behind and ahead.
proof fn one_step(units: Seq<Seq<u8>>, seen: int, unit: Seq<u8>, left: Seq<Seq<u8>>)
    requires
        0 <= seen <= units.len(),
        units.skip(seen) == seq![unit] + left,
    ensures
        seen < units.len(),
        units[seen] == unit,
        left == units.skip(seen + 1),
        units.take(seen + 1).drop_last() == units.take(seen),
        units.take(seen + 1).last() == unit,
{
    assert(units.skip(seen).len() == 1 + left.len());
    assert(units.skip(seen)[0] == units[seen]);
    assert forall|i: int| 0 <= i < left.len() implies left[i] == units.skip(seen + 1)[i] by {
        assert((seq![unit] + left)[i + 1] == left[i]);
    }
    assert(left =~= units.skip(seen + 1));
    assert(units.take(seen + 1).drop_last() =~= units.take(seen));
}

/// The kind of a NAL unit, in the numbering of its codec; an empty one is of kind 0.
pub open spec fn kind_of(unit: Seq<u8>, codec: Codec) -> int {
    if unit.len() == 0 {
        0
    } else {
        match codec {
            Codec::H264 => unit[0] as int % 32,
            Codec::Hevc => unit[0] as int / 2 % 64,
        }
    }
}

/// The kind of NAL, in the numbering of its codec.
pub fn kind(unit: &[u8], codec: Codec) -> (kind: u8)
    ensures
        kind == kind_of(unit@, codec),
{
    if unit.len() == 0 {
        return 0;
    }
    let first: u8 = unit[0];
    match codec {
        Codec::H264 => {
            assert(first & 0x1F == first % 32) by (bit_vector);
            first & 0x1F
        },
        Codec::Hevc => {
            assert((first >> 1) & 0x3F == first / 2 % 64) by (bit_vector);
            (first >> 1) & 0x3F
        },
    }
}

/// Where a parameter set belongs.
#[derive(Debug, Clone, Copy, PartialEq, Eq, Structural)]
pub enum Slot {
    /// HEVC only.
    Vps,
    Sps,
    Pps,
}

/// The slot a NAL unit fills; a piece of picture fills none.
pub open spec fn slot_of(unit: Seq<u8>, codec: Codec) -> Option<Slot> {
    let kind = kind_of(unit, codec);
    match codec {
        Codec::H264 => if kind == 7 {
            Some(Slot::Sps)
        } else if kind == 8 {
            Some(Slot::Pps)
        } else {
            None
        },
        Codec::Hevc => if kind == 32 {
            Some(Slot::Vps)
        } else if kind == 33 {
            Some(Slot::Sps)
        } else if kind == 34 {
            Some(Slot::Pps)
        } else {
            None
        },
    }
}

fn slot(unit: &[u8], codec: Codec) -> (slot: Option<Slot>)
    ensures
        slot == slot_of(unit@, codec),
{
    let kind: u8 = kind(unit, codec);
    match codec {
        Codec::H264 => match kind {
            7 => Some(Slot::Sps),
            8 => Some(Slot::Pps),
            _ => None,
        },
        Codec::Hevc => match kind {
            32 => Some(Slot::Vps),
            33 => Some(Slot::Sps),
            34 => Some(Slot::Pps),
            _ => None,
        },
    }
}

/// Whether this NAL is a parameter set: a description of the stream rather than a piece of
/// picture.
pub fn is_parameter_set(unit: &[u8], codec: Codec) -> (is_set: bool)
    ensures
        is_set == (slot_of(unit@, codec) is Some),
{
    slot(unit, codec).is_some()
}

/// The parameter sets a stream needs before any picture can be decoded.
#[derive(Debug, PartialEq, Eq)]
pub struct ParameterSets {
    /// HEVC only.
    pub vps: Option<Vec<u8>>,
    pub sps: Option<Vec<u8>>,
    pub pps: Option<Vec<u8>>,
}

fn copied(set: &Option<Vec<u8>>) -> (copy: Option<Vec<u8>>)
    ensures
        bytes_of(copy) == bytes_of(*set),
{
    match set {
        Some(bytes) => Some(vstd::slice::slice_to_vec(bytes.as_slice())),
        None => None,
    }
}

impl Clone for ParameterSets {
    fn clone(&self) -> (copy: Self)
        ensures
            bytes_of(copy.vps) == bytes_of(self.vps),
            bytes_of(copy.sps) == bytes_of(self.sps),
            bytes_of(copy.pps) == bytes_of(self.pps),
    {
        ParameterSets {
            vps: copied(&self.vps),
            sps: copied(&self.sps),
            pps: copied(&self.pps),
        }
    }
}

impl Default for ParameterSets {
    fn default() -> (sets: Self)
        ensures
            sets.vps is None,
            sets.sps is None,
            sets.pps is None,
    {
        ParameterSets { vps: None, sps: None, pps: None }
    }
}

/// The bytes of a parameter set, where there is one.
pub open spec fn bytes_of(set: Option<Vec<u8>>) -> Option<Seq<u8>> {
    match set {
        Some(bytes) => Some(bytes@),
        None => None,
    }
}

/// What `slot` holds after `units` went by, where it held `before` to begin with: the last of
/// them that belongs there.
pub open spec fn latest(
    units: Seq<Seq<u8>>,
    codec: Codec,
    slot: Slot,
    before: Option<Seq<u8>>,
) -> Option<Seq<u8>>
    decreases units.len(),
{
    if units.len() == 0 {
        before
    } else if slot_of(units.last(), codec) == Some(slot) {
        Some(units.last())
    } else {
        latest(units.drop_last(), codec, slot, before)
    }
}

/// Whether the unit at `i` differs from what its slot held when it came by.
pub open spec fn is_news(
    units: Seq<Seq<u8>>,
    codec: Codec,
    before: spec_fn(Slot) -> Option<Seq<u8>>,
    i: int,
) -> bool {
    match slot_of(units[i], codec) {
        Some(slot) => latest(units.take(i), codec, slot, before(slot)) != Some(units[i]),
        None => false,
    }
}

/// Whether any of `units` is news.
pub open spec fn any_news(
    units: Seq<Seq<u8>>,
    codec: Codec,
    before: spec_fn(Slot) -> Option<Seq<u8>>,
) -> bool {
    exists|i: int| 0 <= i < units.len() && #[trigger] is_news(units, codec, before, i)
}

impl ParameterSets {
    /// What a slot holds.
    pub open spec fn held(self, slot: Slot) -> Option<Seq<u8>> {
        match slot {
            Slot::Vps => bytes_of(self.vps),
            Slot::Sps => bytes_of(self.sps),
            Slot::Pps => bytes_of(self.pps),
        }
    }

    /// What every slot holds.
    pub open spec fn contents(self) -> spec_fn(Slot) -> Option<Seq<u8>> {
        |slot: Slot| self.held(slot)
    }

    /// Takes one parameter set; says whether it differs from the one that was there.
    fn take(&mut self, slot: Slot, unit: &[u8]) -> (changed: bool)
        ensures
            changed == (old(self).held(slot) != Some(unit@)),
            final(self).held(slot) == Some(unit@),
            forall|other: Slot|
                other != slot ==> #[trigger] final(self).held(other) == old(self).held(other),
    {
        let held = match slot {
            Slot::Vps => &self.vps,
            Slot::Sps => &self.sps,
            Slot::Pps => &self.pps,
        };
        if let Some(bytes) = held {
            if same_bytes(bytes.as_slice(), unit) {
                return false;
            }
        }
        let bytes = vstd::slice::slice_to_vec(unit);
        match slot {
            Slot::Vps => self.vps = Some(bytes),
            Slot::Sps => self.sps = Some(bytes),
            Slot::Pps => self.pps = Some(bytes),
        }
        true
    }

    /// Takes whatever this access unit carries. Returns whether anything changed: a change
    /// means the decoder has to be rebuilt.
    pub fn take_from(&mut self, access_unit: &[u8], codec: Codec) -> (changed: bool)
        ensures
            changed == any_news(units_of(access_unit@), codec, old(self).contents()),
            forall|slot: Slot| #[trigger]
                final(self).held(slot) == latest(
                    units_of(access_unit@),
                    codec,
                    slot,
                    old(self).held(slot),
                ),
    {
        let ghost units = units_of(access_unit@);
        let ghost before = old(self).contents();
        let mut changed = false;
        let mut walk = nal_units(access_unit);
        let ghost mut seen: int = 0;
        proof {
            assert(units.take(0) =~= Seq::empty());
            assert(units.skip(0) =~= units);
        }
        loop
            invariant
                0 <= seen <= units.len(),
                before == old(self).contents(),
                walk.remaining() == units.skip(seen),
                forall|slot: Slot| #[trigger]
                    self.held(slot) == latest(units.take(seen), codec, slot, before(slot)),
                changed == exists|i: int| 0 <= i < seen && #[trigger] is_news(
                    units,
                    codec,
                    before,
                    i,
                ),
            ensures
                seen == units.len(),
            decreases units.len() - seen,
        {
            let next = walk.next();
            if next.is_none() {
                break;
            }
            let unit = next.unwrap();
            proof {
                one_step(units, seen, unit@, walk.remaining());
            }
            let ghost was = *self;
            let ghost had = changed;
            if let Some(slot) = slot(unit, codec) {
                assert(was.held(slot) == latest(units.take(seen), codec, slot, before(slot)));
                if self.take(slot, unit) {
                    changed = true;
                }
            }
            proof {
                assert(changed == (had || is_news(units, codec, before, seen)));
                seen = seen + 1;
            }
        }
        proof {
            assert(units.take(seen) =~= units);
        }
        changed
    }

    /// Whether there is enough here to describe a stream of this codec.
    pub open spec fn describes(self, codec: Codec) -> bool {
        &&& self.sps is Some
        &&& self.pps is Some
        &&& codec == Codec::Hevc ==> self.vps is Some
    }

    /// Whether there is enough here to describe the stream.
    pub fn complete(&self, codec: Codec) -> (complete: bool)
        ensures
            complete == self.describes(codec),
    {
        let base = self.sps.is_some() && self.pps.is_some();
        match codec {
            Codec::H264 => base,
            Codec::Hevc => base && self.vps.is_some(),
        }
    }

    /// The sets that are there: VPS, SPS, PPS.
    pub open spec fn in_order(self) -> Seq<Seq<u8>> {
        listed(bytes_of(self.vps)) + listed(bytes_of(self.sps)) + listed(bytes_of(self.pps))
    }

    /// The sets in the order VideoToolbox expects them.
    pub fn ordered(&self) -> (sets: Vec<&[u8]>)
        ensures
            sets@.len() == self.in_order().len(),
            forall|i: int| 0 <= i < sets@.len() ==> #[trigger] sets@[i]@ == self.in_order()[i],
    {
        let mut sets: Vec<&[u8]> = Vec::new();
        if let Some(bytes) = &self.vps {
            sets.push(bytes.as_slice());
        }
        if let Some(bytes) = &self.sps {
            sets.push(bytes.as_slice());
        }
        if let Some(bytes) = &self.pps {
            sets.push(bytes.as_slice());
        }
        sets
    }
}

/// One set, or none.
pub open spec fn listed(set: Option<Seq<u8>>) -> Seq<Seq<u8>> {
    match set {
        Some(bytes) => seq![bytes],
        None => Seq::empty(),
    }
}

/// These units with their lengths in front, the parameter sets left out.
pub open spec fn prefixed(units: Seq<Seq<u8>>, codec: Codec) -> Seq<u8>
    decreases units.len(),
{
    if units.len() == 0 {
        Seq::empty()
    } else {
        let before = prefixed(units.drop_last(), codec);
        let unit = units.last();
        if slot_of(unit, codec) is Some {
            before
        } else {
            before + be_bytes(unit.len(), 4) + unit
        }
    }
}

/// Rewrites an access unit with four-byte lengths in front of each NAL instead of start codes,
/// leaving the parameter sets out: they travel separately.
pub fn length_prefixed(access_unit: &[u8], codec: Codec, out: &mut Vec<u8>)
    ensures
        final(out)@ == prefixed(units_of(access_unit@), codec),
{
    out.clear();
    let ghost units = units_of(access_unit@);
    let mut walk = nal_units(access_unit);
    let ghost mut seen: int = 0;
    proof {
        assert(units.take(0) =~= Seq::empty());
        assert(units.skip(0) =~= units);
    }
    loop
        invariant
            0 <= seen <= units.len(),
            walk.remaining() == units.skip(seen),
            out@ == prefixed(units.take(seen), codec),
        ensures
            seen == units.len(),
        decreases units.len() - seen,
    {
        let next = walk.next();
        if next.is_none() {
            break;
        }
        let unit = next.unwrap();
        proof {
            one_step(units, seen, unit@, walk.remaining());
            seen = seen + 1;
        }
        if is_parameter_set(unit, codec) {
            continue;
        }
        push_be(out, unit.len() as u64, 4);
        out.extend_from_slice(unit);
    }
    assert(units.take(seen) =~= units);
}

/// Whether bytes begin with a start code of three or of four bytes.
pub open spec fn begins_with_code(bytes: Seq<u8>) -> bool {
    code_at(bytes, 0) || (bytes.len() > 0 && bytes[0] == 0 && code_at(bytes, 1))
}

proof fn next_code_behind(a: Seq<u8>, b: Seq<u8>, at: int)
    requires
        0 <= at,
    ensures
        next_code(a + b, a.len() + at) == match next_code(b, at) {
            Some(code) => Some(a.len() + code),
            None => None::<int>,
        },
    decreases b.len() - at,
{
    if at + 3 <= b.len() && !code_at(b, at) {
        next_code_behind(a, b, at + 1);
    }
}

proof fn units_behind(a: Seq<u8>, b: Seq<u8>, at: int)
    requires
        0 <= at,
    ensures
        units_from(a + b, a.len() + at) == units_from(b, at),
    decreases b.len() - at,
{
    next_code_behind(a, b, at);
    if let Some(code) = next_code(b, at) {
        next_code_is_first(b, at);
        next_code_behind(a, b, code + 3);
        next_code_is_first(b, code + 3);
        let from = a.len() + code + 3;
        match next_code(b, code + 3) {
            Some(next) => {
                units_behind(a, b, next);
                assert((a + b).subrange(from, a.len() + next) =~= b.subrange(code + 3, next));
            },
            None => {
                assert((a + b).subrange(from, (a + b).len() as int) =~= b.subrange(
                    code + 3,
                    b.len() as int,
                ));
            },
        }
    }
}

/// The first start code of two buffers laid end to end is that of the first, or else that of the
/// second: none comes about where they meet.
proof fn next_code_of_both(a: Seq<u8>, b: Seq<u8>, at: int)
    requires
        begins_with_code(b),
        0 <= at <= a.len(),
    ensures
        next_code(b, 0) == Some(0int) || next_code(b, 0) == Some(1int),
        next_code(a + b, at) == match next_code(a, at) {
            Some(code) => Some(code),
            None => Some(a.len() + next_code(b, 0)->0),
        },
{
    let both = a + b;
    let c: int = if code_at(b, 0) {
        0
    } else {
        1
    };
    next_code_skips(b, 0, c);
    assert forall|i: int| 0 <= i < a.len() && code_at(both, i) implies code_at(a, i) by {
        if i + 2 >= a.len() {
            assert(both[i + 2] == b[i + 2 - a.len()]);
        }
    }
    next_code_is_first(a, at);
    match next_code(a, at) {
        Some(code) => {
            assert(code_at(both, code));
            next_code_skips(both, at, code);
        },
        None => {
            assert(code_at(both, a.len() + c));
            assert forall|i: int| at <= i < a.len() + c implies !code_at(both, i) by {
                if i >= a.len() && code_at(both, i) {
                    assert(code_at(b, i - a.len()));
                }
            }
            next_code_skips(both, at, a.len() + c);
        },
    }
}

proof fn units_of_both_from(a: Seq<u8>, b: Seq<u8>, at: int)
    requires
        begins_with_code(b),
        0 <= at <= a.len(),
    ensures
        units_from(a + b, at) == units_from(a, at) + units_of(b),
    decreases a.len() - at,
{
    let both = a + b;
    next_code_of_both(a, b, at);
    let c = next_code(b, 0)->0;
    units_from_code(b, 0, c);
    units_behind(a, b, c);
    match next_code(a, at) {
        None => {
            units_from_code(both, at, a.len() + c);
            assert(units_from(both, at) =~= units_from(a, at) + units_of(b));
        },
        Some(code) => {
            let from = code + 3;
            next_code_is_first(a, at);
            next_code_of_both(a, b, from);
            next_code_is_first(a, from);
            match next_code(a, from) {
                Some(next) => {
                    units_of_both_from(a, b, next);
                    assert(both.subrange(from, next) =~= a.subrange(from, next));
                },
                None => {
                    let wide = both.subrange(from, a.len() + c);
                    let unit = a.subrange(from, a.len() as int);
                    if c == 0 {
                        assert(wide =~= unit);
                    } else {
                        assert(wide.drop_last() =~= unit);
                    }
                },
            }
            assert(units_from(both, at) =~= units_from(a, at) + units_of(b));
        },
    }
}

/// Access units laid end to end hold the units of the first and then those of the second, where
/// the second begins with a start code.
pub proof fn units_of_both(a: Seq<u8>, b: Seq<u8>)
    requires
        begins_with_code(b),
    ensures
        units_of(a + b) == units_of(a) + units_of(b),
{
    units_of_both_from(a, b, 0);
}

proof fn zeroes_fall_off(bytes: Seq<u8>, zeroes: Seq<u8>)
    requires
        forall|i: int| 0 <= i < zeroes.len() ==> zeroes[i] == 0,
    ensures
        without_zeroes(bytes + zeroes) == without_zeroes(bytes),
    decreases zeroes.len(),
{
    if zeroes.len() > 0 {
        zeroes_fall_off(bytes, zeroes.drop_last());
        assert((bytes + zeroes).drop_last() =~= bytes + zeroes.drop_last());
    } else {
        assert(bytes + zeroes =~= bytes);
    }
}

proof fn next_code_before_zeroes(data: Seq<u8>, zeroes: Seq<u8>, at: int)
    requires
        forall|i: int| 0 <= i < zeroes.len() ==> zeroes[i] == 0,
        0 <= at,
    ensures
        next_code(data + zeroes, at) == next_code(data, at),
{
    let all = data + zeroes;
    assert forall|i: int| 0 <= i implies code_at(all, i) == code_at(data, i) by {
        if code_at(all, i) && i + 2 >= data.len() {
            assert(all[i + 2] == zeroes[i + 2 - data.len()]);
        }
    }
    next_code_is_first(all, at);
    next_code_is_first(data, at);
    if let Some(code) = next_code(data, at) {
        next_code_skips(all, at, code);
    }
}

proof fn zeroes_change_nothing_from(data: Seq<u8>, zeroes: Seq<u8>, at: int)
    requires
        forall|i: int| 0 <= i < zeroes.len() ==> zeroes[i] == 0,
        0 <= at,
    ensures
        units_from(data + zeroes, at) == units_from(data, at),
    decreases data.len() - at,
{
    let all = data + zeroes;
    next_code_before_zeroes(data, zeroes, at);
    if let Some(code) = next_code(data, at) {
        let from = code + 3;
        next_code_is_first(data, at);
        next_code_before_zeroes(data, zeroes, from);
        next_code_is_first(data, from);
        match next_code(data, from) {
            Some(next) => {
                zeroes_change_nothing_from(data, zeroes, next);
                assert(all.subrange(from, next) =~= data.subrange(from, next));
            },
            None => {
                let unit = data.subrange(from, data.len() as int);
                assert(all.subrange(from, all.len() as int) =~= unit + zeroes);
                zeroes_fall_off(unit, zeroes);
            },
        }
    }
}

/// Zeroes at the end of an access unit change none of its units, however many there are.
pub proof fn zeroes_at_the_end_change_nothing(data: Seq<u8>, zeroes: Seq<u8>)
    requires
        forall|i: int| 0 <= i < zeroes.len() ==> zeroes[i] == 0,
    ensures
        units_of(data + zeroes) == units_of(data),
{
    zeroes_change_nothing_from(data, zeroes, 0);
}

/// What a NAL unit looks like: something that does not end in a zero and holds no start code.
pub open spec fn is_unit(bytes: Seq<u8>) -> bool {
    &&& bytes.len() > 0
    &&& bytes.last() != 0
    &&& forall|i: int| !code_at(bytes, i)
}

proof fn without_zeroes_is_a_prefix(bytes: Seq<u8>)
    ensures
        without_zeroes(bytes).len() <= bytes.len(),
        without_zeroes(bytes) == bytes.take(without_zeroes(bytes).len() as int),
        without_zeroes(bytes).len() > 0 ==> without_zeroes(bytes).last() != 0,
    decreases bytes.len(),
{
    if bytes.len() > 0 && bytes.last() == 0 {
        without_zeroes_is_a_prefix(bytes.drop_last());
        let kept = without_zeroes(bytes);
        assert(bytes.drop_last().take(kept.len() as int) =~= bytes.take(kept.len() as int));
    } else {
        assert(bytes.take(bytes.len() as int) =~= bytes);
    }
}

/// Whatever the buffer holds, what comes out of it are NAL units.
pub proof fn only_units_come_out(data: Seq<u8>, at: int)
    requires
        0 <= at,
    ensures
        forall|i: int| 0 <= i < units_from(data, at).len() ==> is_unit(
            #[trigger] units_from(data, at)[i],
        ),
    decreases data.len() - at,
{
    next_code_is_first(data, at);
    if let Some(code) = next_code(data, at) {
        let from = code + 3;
        next_code_is_first(data, from);
        let end = match next_code(data, from) {
            None => data.len() as int,
            Some(next) => next,
        };
        let rest = match next_code(data, from) {
            None => Seq::empty(),
            Some(next) => units_from(data, next),
        };
        if let Some(next) = next_code(data, from) {
            only_units_come_out(data, next);
        }
        let raw = data.subrange(from, end);
        let unit = without_zeroes(raw);
        without_zeroes_is_a_prefix(raw);
        assert forall|i: int| !code_at(unit, i) by {
            if code_at(unit, i) {
                assert(unit[i] == raw[i] && unit[i + 1] == raw[i + 1] && unit[i + 2] == raw[i + 2]);
                assert(code_at(data, from + i));
            }
        }
        let all = units_from(data, at);
        assert(all == if unit.len() == 0 {
            rest
        } else {
            seq![unit] + rest
        });
        assert forall|i: int| 0 <= i < all.len() implies is_unit(#[trigger] all[i]) by {
            if unit.len() == 0 {
                assert(is_unit(rest[i]));
            } else if i > 0 {
                assert(is_unit(rest[i - 1]));
            }
        }
    }
}

/// A start code of four bytes or of three.
pub open spec fn code(long: bool) -> Seq<u8> {
    if long {
        seq![0u8, 0, 0, 1]
    } else {
        seq![0u8, 0, 1]
    }
}

/// These units as a buffer, each behind a start code of four bytes or of three.
pub open spec fn stream(units: Seq<Seq<u8>>, long: Seq<bool>) -> Seq<u8>
    decreases units.len(),
{
    if units.len() == 0 {
        Seq::empty()
    } else {
        code(long[0]) + units[0] + stream(units.skip(1), long.skip(1))
    }
}

/// Units come back out the way they went in, whichever start codes stand between them.
pub proof fn units_survive_the_trip(units: Seq<Seq<u8>>, long: Seq<bool>)
    requires
        long.len() == units.len(),
        forall|i: int| 0 <= i < units.len() ==> is_unit(#[trigger] units[i]),
    ensures
        units_of(stream(units, long)) == units,
{
    assert(Seq::<u8>::empty() + stream(units, long) =~= stream(units, long));
    units_survive_behind(Seq::empty(), units, long);
}

proof fn units_survive_behind(before: Seq<u8>, units: Seq<Seq<u8>>, long: Seq<bool>)
    requires
        long.len() == units.len(),
        forall|i: int| 0 <= i < units.len() ==> is_unit(#[trigger] units[i]),
    ensures
        units_from(before + stream(units, long), before.len() as int) == units,
    decreases units.len(),
{
    let data = before + stream(units, long);
    let at = before.len() as int;
    if units.len() == 0 {
        assert(units_from(data, at) =~= units);
    } else {
        let unit = units[0];
        let others = units.skip(1);
        let first = at + code(long[0]).len() - 3;
        let behind = first + 3 + unit.len();
        stream_unfolds(before, units, long);
        assert(units =~= seq![unit] + others);
        units_survive_behind(data.take(behind), others, long.skip(1));
        if others.len() == 0 {
            last_unit(data, at, first, unit);
        } else {
            inner_unit(data, at, first, unit, behind + code(long[1]).len() - 3);
        }
    }
}

/// Where the first unit of a stream stands, and what comes behind it.
proof fn stream_unfolds(before: Seq<u8>, units: Seq<Seq<u8>>, long: Seq<bool>)
    requires
        units.len() > 0,
        long.len() == units.len(),
    ensures
        ({
            let data = before + stream(units, long);
            let at = before.len() as int;
            let first = at + code(long[0]).len() - 3;
            let behind = first + 3 + units[0].len();
            let tail = stream(units.skip(1), long.skip(1));
            &&& code_at(data, first)
            &&& long[0] ==> data[at + 2] == 0
            &&& data.subrange(first + 3, behind) == units[0]
            &&& data == data.take(behind) + tail
            &&& data.len() == behind + tail.len()
            &&& units.len() == 1 ==> tail.len() == 0
            &&& units.len() > 1 ==> {
                &&& code_at(data, behind + code(long[1]).len() - 3)
                &&& data[behind] == 0
                &&& long[1] ==> data[behind + 2] == 0
            }
        }),
{
    let data = before + stream(units, long);
    let at = before.len() as int;
    let unit = units[0];
    let mark = code(long[0]);
    let tail = stream(units.skip(1), long.skip(1));
    let behind = at + mark.len() + unit.len();
    assert(data =~= before + mark + unit + tail);
    assert(data.subrange(at + mark.len(), behind) =~= unit);
    assert(data.take(behind) + tail =~= data);
    if units.len() > 1 {
        assert(long.skip(1)[0] == long[1]);
        stream_begins(units.skip(1), long.skip(1));
        let next = code(long[1]);
        assert forall|i: int| 0 <= i < next.len() implies data[behind + i] == next[i] by {
            assert(tail[i] == next[i]);
        }
        assert(data[behind + 0] == next[0]);
        assert(data[behind + 1] == next[1]);
        assert(data[behind + 2] == next[2]);
        assert(long[1] ==> data[behind + 3] == next[3]);
    }
}

proof fn stream_begins(units: Seq<Seq<u8>>, long: Seq<bool>)
    requires
        units.len() > 0,
    ensures
        stream(units, long).len() >= code(long[0]).len(),
        forall|i: int| 0 <= i < code(long[0]).len() ==> #[trigger] stream(units, long)[i]
            == code(long[0])[i],
{
}

/// No start code begins inside a unit, wherever the unit stands.
proof fn no_code_inside(data: Seq<u8>, from: int, unit: Seq<u8>, i: int)
    requires
        0 <= from <= i,
        from + unit.len() <= data.len(),
        data.subrange(from, from + unit.len()) == unit,
        is_unit(unit),
        i + 3 <= from + unit.len() || i + 1 == from + unit.len(),
    ensures
        !code_at(data, i),
{
    let inside = data.subrange(from, from + unit.len());
    if code_at(data, i) {
        assert(inside[i - from] == data[i]);
        if i + 3 <= from + unit.len() {
            assert(inside[i - from + 1] == data[i + 1]);
            assert(inside[i - from + 2] == data[i + 2]);
            assert(code_at(unit, i - from));
        }
    }
}

proof fn last_unit(data: Seq<u8>, at: int, first: int, unit: Seq<u8>)
    requires
        0 <= at <= first <= at + 1,
        code_at(data, first),
        at < first ==> data[at + 2] == 0,
        first + 3 + unit.len() == data.len(),
        data.subrange(first + 3, data.len() as int) == unit,
        is_unit(unit),
    ensures
        units_from(data, at) == seq![unit],
{
    next_code_skips(data, at, first);
    next_code_is_first(data, first + 3);
    if let Some(next) = next_code(data, first + 3) {
        no_code_inside(data, first + 3, unit, next);
    }
    assert(units_from(data, at) =~= seq![unit]);
}

proof fn inner_unit(data: Seq<u8>, at: int, first: int, unit: Seq<u8>, second: int)
    requires
        0 <= at <= first <= at + 1,
        code_at(data, first),
        at < first ==> data[at + 2] == 0,
        first + 3 + unit.len() <= second <= first + 4 + unit.len(),
        code_at(data, second),
        data[first + 3 + unit.len()] == 0,
        first + 3 + unit.len() < second ==> data[first + 5 + unit.len()] == 0,
        data.subrange(first + 3, first + 3 + unit.len()) == unit,
        is_unit(unit),
    ensures
        units_from(data, at) == seq![unit] + units_from(data, first + 3 + unit.len()),
{
    let from = first + 3;
    let behind = from + unit.len();
    next_code_skips(data, at, first);
    assert forall|i: int| from <= i < second implies !code_at(data, i) by {
        if i + 3 <= behind || i + 1 == behind {
            no_code_inside(data, from, unit, i);
        } else {
            assert(i + 2 == behind || i == behind);
        }
    }
    next_code_skips(data, from, second);
    next_code_skips(data, behind, second);
    units_from_code(data, behind, second);
    let raw = data.subrange(from, second);
    if behind < second {
        assert(raw.last() == 0);
        assert(raw.drop_last() =~= data.subrange(from, behind));
    }
    assert(without_zeroes(unit) == unit);
    assert(without_zeroes(raw) == unit);
}

/// A set that is the last of its slot is what the slot holds, and whatever the slot held before
/// no longer matters once one has come by.
proof fn latest_forgets(
    units: Seq<Seq<u8>>,
    codec: Codec,
    slot: Slot,
    a: Option<Seq<u8>>,
    b: Option<Seq<u8>>,
)
    ensures
        latest(units, codec, slot, a) == latest(units, codec, slot, b) || (latest(
            units,
            codec,
            slot,
            a,
        ) == a && latest(units, codec, slot, b) == b),
    decreases units.len(),
{
    if units.len() > 0 && slot_of(units.last(), codec) != Some(slot) {
        latest_forgets(units.drop_last(), codec, slot, a, b);
    }
}

proof fn latest_is_one_of_them(
    units: Seq<Seq<u8>>,
    codec: Codec,
    slot: Slot,
    before: Option<Seq<u8>>,
    i: int,
)
    requires
        0 <= i < units.len(),
        slot_of(units[i], codec) == Some(slot),
    ensures
        exists|j: int|
            0 <= j < units.len() && slot_of(#[trigger] units[j], codec) == Some(slot) && latest(
                units,
                codec,
                slot,
                before,
            ) == Some(units[j]),
    decreases units.len(),
{
    if slot_of(units.last(), codec) == Some(slot) {
        assert(units[units.len() - 1] == units.last());
    } else {
        let fewer = units.drop_last();
        latest_is_one_of_them(fewer, codec, slot, before, i);
        let j = choose|j: int|
            0 <= j < fewer.len() && slot_of(#[trigger] fewer[j], codec) == Some(slot) && latest(
                fewer,
                codec,
                slot,
                before,
            ) == Some(fewer[j]);
        assert(units[j] == fewer[j]);
    }
}

/// Taking the same access unit a second time leaves every slot as it is.
pub proof fn taking_again_keeps_the_sets(
    units: Seq<Seq<u8>>,
    codec: Codec,
    slot: Slot,
    before: Option<Seq<u8>>,
)
    ensures
        latest(units, codec, slot, latest(units, codec, slot, before)) == latest(
            units,
            codec,
            slot,
            before,
        ),
{
    latest_forgets(units, codec, slot, before, latest(units, codec, slot, before));
}

/// The same sets again are no news, so no decoder is rebuilt: this holds of every access unit
/// that does not carry two different sets for one slot.
pub proof fn the_same_sets_are_no_news(
    units: Seq<Seq<u8>>,
    codec: Codec,
    before: spec_fn(Slot) -> Option<Seq<u8>>,
)
    requires
        forall|i: int, j: int|
            0 <= i < units.len() && 0 <= j < units.len() && slot_of(#[trigger] units[i], codec)
                is Some && slot_of(units[i], codec) == slot_of(#[trigger] units[j], codec)
                ==> units[i] == units[j],
    ensures
        !any_news(units, codec, |slot: Slot| latest(units, codec, slot, before(slot))),
{
    let after = |slot: Slot| latest(units, codec, slot, before(slot));
    assert forall|i: int| 0 <= i < units.len() implies !#[trigger] is_news(
        units,
        codec,
        after,
        i,
    ) by {
        if let Some(slot) = slot_of(units[i], codec) {
            latest_is_one_of_them(units, codec, slot, before(slot), i);
            let seen = units.take(i);
            assert(after(slot) == Some(units[i]));
            if latest(seen, codec, slot, after(slot)) != after(slot) {
                latest_of_some(seen, codec, slot, after(slot));
                let j = choose|j: int|
                    0 <= j < seen.len() && slot_of(#[trigger] seen[j], codec) == Some(slot)
                        && latest(seen, codec, slot, after(slot)) == Some(seen[j]);
                assert(units[j] == seen[j]);
                assert(units[j] == units[i]);
            }
        }
    }
}

proof fn latest_of_some(
    units: Seq<Seq<u8>>,
    codec: Codec,
    slot: Slot,
    before: Option<Seq<u8>>,
)
    requires
        latest(units, codec, slot, before) != before,
    ensures
        exists|j: int|
            0 <= j < units.len() && slot_of(#[trigger] units[j], codec) == Some(slot) && latest(
                units,
                codec,
                slot,
                before,
            ) == Some(units[j]),
    decreases units.len(),
{
    if slot_of(units.last(), codec) == Some(slot) {
        assert(units[units.len() - 1] == units.last());
    } else {
        let fewer = units.drop_last();
        latest_of_some(fewer, codec, slot, before);
        let j = choose|j: int|
            0 <= j < fewer.len() && slot_of(#[trigger] fewer[j], codec) == Some(slot) && latest(
                fewer,
                codec,
                slot,
                before,
            ) == Some(fewer[j]);
        assert(units[j] == fewer[j]);
    }
}

/// Where nothing was news, every slot holds what it held.
pub proof fn no_news_keeps_the_sets(
    units: Seq<Seq<u8>>,
    codec: Codec,
    before: spec_fn(Slot) -> Option<Seq<u8>>,
    slot: Slot,
)
    requires
        !any_news(units, codec, before),
    ensures
        latest(units, codec, slot, before(slot)) == before(slot),
    decreases units.len(),
{
    if units.len() > 0 {
        let fewer = units.drop_last();
        assert forall|i: int| 0 <= i < fewer.len() implies !#[trigger] is_news(
            fewer,
            codec,
            before,
            i,
        ) by {
            assert(fewer.take(i) =~= units.take(i));
            assert(!is_news(units, codec, before, i));
        }
        no_news_keeps_the_sets(fewer, codec, before, slot);
        assert(!is_news(units, codec, before, units.len() - 1));
        assert(units.take(units.len() - 1) =~= fewer);
    }
}

/// A slot that is filled stays filled, so sets that describe a stream go on describing it.
pub proof fn filled_slots_stay_filled(
    units: Seq<Seq<u8>>,
    codec: Codec,
    slot: Slot,
    before: Option<Seq<u8>>,
)
    requires
        before is Some,
    ensures
        latest(units, codec, slot, before) is Some,
    decreases units.len(),
{
    if units.len() > 0 && slot_of(units.last(), codec) != Some(slot) {
        filled_slots_stay_filled(units.drop_last(), codec, slot, before);
    }
}

/// The units that are pieces of picture.
pub open spec fn pictures(units: Seq<Seq<u8>>, codec: Codec) -> Seq<Seq<u8>>
    decreases units.len(),
{
    if units.len() == 0 {
        Seq::empty()
    } else if slot_of(units.last(), codec) is Some {
        pictures(units.drop_last(), codec)
    } else {
        pictures(units.drop_last(), codec).push(units.last())
    }
}

/// What a reader of four-byte lengths finds from `at` on.
pub open spec fn read_prefixed(bytes: Seq<u8>, at: int) -> Seq<Seq<u8>>
    decreases bytes.len() - at,
{
    if at < 0 || at + 4 > bytes.len() {
        Seq::empty()
    } else {
        let len = be_value(bytes.subrange(at, at + 4));
        let end = at + 4 + len;
        if end > bytes.len() {
            Seq::empty()
        } else {
            seq![bytes.subrange(at + 4, end)] + read_prefixed(bytes, end)
        }
    }
}

/// A reader of four-byte lengths finds every piece of picture, whole and in order, and nothing
/// else.
pub proof fn every_picture_is_found(units: Seq<Seq<u8>>, codec: Codec)
    requires
        forall|i: int| 0 <= i < units.len() ==> (#[trigger] units[i]).len() <= u32::MAX,
    ensures
        read_prefixed(prefixed(units, codec), 0) == pictures(units, codec),
{
    every_picture_is_found_before(units, codec, Seq::empty());
    assert(prefixed(units, codec) + Seq::<u8>::empty() =~= prefixed(units, codec));
    let end = prefixed(units, codec).len() as int;
    assert(read_prefixed(prefixed(units, codec), end) =~= Seq::empty());
    assert(pictures(units, codec) + Seq::<Seq<u8>>::empty() =~= pictures(units, codec));
}

proof fn every_picture_is_found_before(units: Seq<Seq<u8>>, codec: Codec, tail: Seq<u8>)
    requires
        forall|i: int| 0 <= i < units.len() ==> (#[trigger] units[i]).len() <= u32::MAX,
    ensures
        read_prefixed(prefixed(units, codec) + tail, 0) == pictures(units, codec) + read_prefixed(
            prefixed(units, codec) + tail,
            prefixed(units, codec).len() as int,
        ),
    decreases units.len(),
{
    let all = prefixed(units, codec) + tail;
    if units.len() == 0 {
        assert(read_prefixed(all, 0) =~= Seq::<Seq<u8>>::empty() + read_prefixed(all, 0));
    } else {
        let fewer = units.drop_last();
        let unit = units.last();
        let before = prefixed(fewer, codec);
        assert forall|i: int| 0 <= i < fewer.len() implies (#[trigger] fewer[i]).len()
            <= u32::MAX by {
            assert(fewer[i] == units[i]);
        }
        if slot_of(unit, codec) is Some {
            every_picture_is_found_before(fewer, codec, tail);
        } else {
            let len = be_bytes(unit.len(), 4);
            be_bytes_len(unit.len(), 4);
            let end = prefixed(units, codec).len() as int;
            assert(all =~= before + (len + unit + tail));
            every_picture_is_found_before(fewer, codec, len + unit + tail);
            let at = before.len() as int;
            assert(units[units.len() - 1].len() <= u32::MAX);
            pow256_widths();
            number_survives_its_bytes(unit.len(), 4);
            assert(all.subrange(at, at + 4) =~= len);
            assert(all.subrange(at + 4, end) =~= unit);
            assert(read_prefixed(all, at) == seq![unit] + read_prefixed(all, end));
            assert(pictures(fewer, codec) + (seq![unit] + read_prefixed(all, end))
                =~= pictures(units, codec) + read_prefixed(all, end));
        }
    }
}

/// An HEVC unit is told by the six bits behind the top one of its first byte: 32 is a VPS, 33 an
/// SPS, 34 a PPS, and everything else a piece of picture.
pub proof fn hevc_sets_are_known_by_their_first_byte(unit: Seq<u8>)
    requires
        unit.len() > 0,
    ensures
        slot_of(unit, Codec::Hevc) == Some(Slot::Vps) <==> unit[0] as int / 2 % 64 == 32,
        slot_of(unit, Codec::Hevc) == Some(Slot::Sps) <==> unit[0] as int / 2 % 64 == 33,
        slot_of(unit, Codec::Hevc) == Some(Slot::Pps) <==> unit[0] as int / 2 % 64 == 34,
        slot_of(unit, Codec::Hevc) is None <==> !(64 <= unit[0] as int % 128 <= 69),
{
}

/// An H.264 unit is told by the lowest five bits of its first byte: 7 is an SPS, 8 a PPS, and
/// everything else a piece of picture.
pub proof fn h264_sets_are_known_by_their_first_byte(unit: Seq<u8>)
    requires
        unit.len() > 0,
    ensures
        slot_of(unit, Codec::H264) != Some(Slot::Vps),
        slot_of(unit, Codec::H264) == Some(Slot::Sps) <==> unit[0] as int % 32 == 7,
        slot_of(unit, Codec::H264) == Some(Slot::Pps) <==> unit[0] as int % 32 == 8,
        slot_of(unit, Codec::H264) is None <==> unit[0] as int % 32 != 7 && unit[0] as int % 32
            != 8,
{
}

/// What a unit is called by its codec: five bits of the first byte for H.264, six for HEVC.
pub proof fn kinds_are_bits_of_the_first_byte(unit: Seq<u8>)
    requires
        unit.len() > 0,
    ensures
        kind_of(unit, Codec::H264) == (unit[0] & 0x1F) as int,
        kind_of(unit, Codec::Hevc) == ((unit[0] >> 1) & 0x3F) as int,
{
    let first = unit[0];
    assert(first & 0x1F == first % 32) by (bit_vector);
    assert((first >> 1) & 0x3F == first / 2 % 64) by (bit_vector);
}

/// The last set of its kind stays, whatever was there and whatever came before it; a kind that
/// none of the units is of stays as it was.
pub proof fn the_last_of_its_kind_stays(
    units: Seq<Seq<u8>>,
    codec: Codec,
    slot: Slot,
    before: Option<Seq<u8>>,
    i: int,
)
    requires
        -1 <= i < units.len(),
        i >= 0 ==> slot_of(units[i], codec) == Some(slot),
        forall|j: int| i < j < units.len() ==> slot_of(#[trigger] units[j], codec) != Some(slot),
    ensures
        latest(units, codec, slot, before) == if i >= 0 {
            Some(units[i])
        } else {
            before
        },
    decreases units.len(),
{
    if units.len() > 0 && i < units.len() - 1 {
        assert(slot_of(units[units.len() - 1], codec) != Some(slot));
        let fewer = units.drop_last();
        assert forall|j: int| i < j < fewer.len() implies slot_of(#[trigger] fewer[j], codec)
            != Some(slot) by {
            assert(fewer[j] == units[j]);
        }
        the_last_of_its_kind_stays(fewer, codec, slot, before, i);
    }
}

/// After HEVC units of which one is of kind 32, one of kind 33 and one of kind 34, those three are
/// the VPS, the SPS and the PPS, whatever was there before, and they are listed in that order,
/// however they came.
pub proof fn hevc_sets_land_where_they_belong(
    before: ParameterSets,
    after: ParameterSets,
    units: Seq<Seq<u8>>,
    v: int,
    s: int,
    p: int,
)
    requires
        forall|slot: Slot| #[trigger]
            after.held(slot) == latest(units, Codec::Hevc, slot, before.held(slot)),
        0 <= v < units.len() && 0 <= s < units.len() && 0 <= p < units.len(),
        forall|i: int| 0 <= i < units.len() ==> (#[trigger] units[i]).len() > 0,
        forall|i: int|
            0 <= i < units.len() ==> ((#[trigger] units[i])[0] as int / 2 % 64 == 32 <==> i == v),
        forall|i: int|
            0 <= i < units.len() ==> ((#[trigger] units[i])[0] as int / 2 % 64 == 33 <==> i == s),
        forall|i: int|
            0 <= i < units.len() ==> ((#[trigger] units[i])[0] as int / 2 % 64 == 34 <==> i == p),
    ensures
        bytes_of(after.vps) == Some(units[v]),
        bytes_of(after.sps) == Some(units[s]),
        bytes_of(after.pps) == Some(units[p]),
        after.in_order() == seq![units[v], units[s], units[p]],
        after.describes(Codec::Hevc),
{
    the_last_of_its_kind_stays(units, Codec::Hevc, Slot::Vps, before.held(Slot::Vps), v);
    the_last_of_its_kind_stays(units, Codec::Hevc, Slot::Sps, before.held(Slot::Sps), s);
    the_last_of_its_kind_stays(units, Codec::Hevc, Slot::Pps, before.held(Slot::Pps), p);
    assert(after.held(Slot::Vps) == Some(units[v]));
    assert(after.held(Slot::Sps) == Some(units[s]));
    assert(after.held(Slot::Pps) == Some(units[p]));
    assert(after.in_order() =~= seq![units[v], units[s], units[p]]);
}

/// After H.264 units of which one is of kind 7 and one of kind 8, those two are the SPS and the
/// PPS, whatever was there before; a VPS is left alone, and without one they are listed in that
/// order.
pub proof fn h264_sets_land_where_they_belong(
    before: ParameterSets,
    after: ParameterSets,
    units: Seq<Seq<u8>>,
    s: int,
    p: int,
)
    requires
        forall|slot: Slot| #[trigger]
            after.held(slot) == latest(units, Codec::H264, slot, before.held(slot)),
        0 <= s < units.len() && 0 <= p < units.len(),
        forall|i: int| 0 <= i < units.len() ==> (#[trigger] units[i]).len() > 0,
        forall|i: int|
            0 <= i < units.len() ==> ((#[trigger] units[i])[0] as int % 32 == 7 <==> i == s),
        forall|i: int|
            0 <= i < units.len() ==> ((#[trigger] units[i])[0] as int % 32 == 8 <==> i == p),
    ensures
        bytes_of(after.vps) == bytes_of(before.vps),
        bytes_of(after.sps) == Some(units[s]),
        bytes_of(after.pps) == Some(units[p]),
        before.vps is None ==> after.in_order() == seq![units[s], units[p]],
        after.describes(Codec::H264),
{
    the_last_of_its_kind_stays(units, Codec::H264, Slot::Vps, before.held(Slot::Vps), -1);
    the_last_of_its_kind_stays(units, Codec::H264, Slot::Sps, before.held(Slot::Sps), s);
    the_last_of_its_kind_stays(units, Codec::H264, Slot::Pps, before.held(Slot::Pps), p);
    assert(after.held(Slot::Vps) == bytes_of(before.vps));
    assert(after.held(Slot::Sps) == Some(units[s]));
    assert(after.held(Slot::Pps) == Some(units[p]));
    if before.vps is None {
        assert(after.in_order() =~= seq![units[s], units[p]]);
    }
}

/// H.264 needs an SPS and a PPS, HEVC a VPS as well; nothing else is needed.
pub proof fn what_a_stream_needs(sets: ParameterSets)
    ensures
        sets.describes(Codec::H264) <==> sets.sps is Some && sets.pps is Some,
        sets.describes(Codec::Hevc) <==> sets.vps is Some && sets.sps is Some && sets.pps is Some,
{
}

/// Sets are listed as VPS, SPS, PPS, and those that are not there are left out.
pub proof fn sets_are_listed_in_order(sets: ParameterSets)
    ensures
        ({
            let v: int = if sets.vps is Some {
                1
            } else {
                0
            };
            let s: int = if sets.sps is Some {
                1
            } else {
                0
            };
            let p: int = if sets.pps is Some {
                1
            } else {
                0
            };
            &&& sets.in_order().len() == v + s + p
            &&& sets.vps is Some ==> sets.in_order()[0] == sets.vps->0@
            &&& sets.sps is Some ==> sets.in_order()[v] == sets.sps->0@
            &&& sets.pps is Some ==> sets.in_order()[v + s] == sets.pps->0@
        }),
{
}

/// There is news just where some unit is a set that differs from the one of its kind that was
/// there before any of them came.
pub proof fn news_is_a_set_that_differs(
    units: Seq<Seq<u8>>,
    codec: Codec,
    before: spec_fn(Slot) -> Option<Seq<u8>>,
)
    ensures
        any_news(units, codec, before) <==> exists|i: int|
            0 <= i < units.len() && differs(#[trigger] units[i], codec, before),
{
    if any_news(units, codec, before) {
        let i = choose|i: int| 0 <= i < units.len() && #[trigger] is_news(units, codec, before, i);
        let slot = slot_of(units[i], codec)->0;
        let seen = units.take(i);
        if latest(seen, codec, slot, before(slot)) != before(slot) {
            latest_of_some(seen, codec, slot, before(slot));
            let j = choose|j: int|
                0 <= j < seen.len() && slot_of(#[trigger] seen[j], codec) == Some(slot) && latest(
                    seen,
                    codec,
                    slot,
                    before(slot),
                ) == Some(seen[j]);
            assert(seen[j] == units[j]);
            assert(differs(units[j], codec, before));
        } else {
            assert(differs(units[i], codec, before));
        }
    }
    if exists|i: int| 0 <= i < units.len() && differs(#[trigger] units[i], codec, before) {
        let i = choose|i: int| 0 <= i < units.len() && differs(#[trigger] units[i], codec, before);
        a_set_that_differs_is_news(units, codec, before, i);
    }
}

/// Whether a unit is a set other than the one of its kind that is there.
pub open spec fn differs(
    unit: Seq<u8>,
    codec: Codec,
    before: spec_fn(Slot) -> Option<Seq<u8>>,
) -> bool {
    slot_of(unit, codec) matches Some(slot) && before(slot) != Some(unit)
}

proof fn a_set_that_differs_is_news(
    units: Seq<Seq<u8>>,
    codec: Codec,
    before: spec_fn(Slot) -> Option<Seq<u8>>,
    i: int,
)
    requires
        0 <= i < units.len(),
        differs(units[i], codec, before),
    ensures
        any_news(units, codec, before),
    decreases i,
{
    let slot = slot_of(units[i], codec)->0;
    let seen = units.take(i);
    if latest(seen, codec, slot, before(slot)) == Some(units[i]) {
        latest_of_some(seen, codec, slot, before(slot));
        let j = choose|j: int|
            0 <= j < seen.len() && slot_of(#[trigger] seen[j], codec) == Some(slot) && latest(
                seen,
                codec,
                slot,
                before(slot),
            ) == Some(seen[j]);
        assert(seen[j] == units[j]);
        a_set_that_differs_is_news(units, codec, before, j);
    } else {
        assert(is_news(units, codec, before, i));
    }
}

} // verus!
