//! Nearscreen wire protocol v1: framing and messages.
//!
//! All integers on the wire are big-endian. Nothing here does any I/O.

use vstd::prelude::*;

use crate::bytes::{
    be_bytes, be_bytes_len, be_value, be_value_bound, eight_bytes_spell, four_bytes_spell,
    number_survives_its_bytes, numbers_take_eight_bytes, numbers_take_four_bytes, pow256_widths,
    push_be, read_be,
};
use crate::text::{
    chars_of, is_white, lower, lowered, only_the_space_around_goes, same_text, text_between, trim,
    trimmed, upper, uppered,
};

pub mod record;

verus! {

/// Magic the phone sends before its HELLO: "NSC1".
pub const CLIENT_MAGIC: [u8; 4] = [0x4E, 0x53, 0x43, 0x31];

/// Magic the receiver sends before its reply: "NSS1".
pub const SERVER_MAGIC: [u8; 4] = [0x4E, 0x53, 0x53, 0x31];

/// Every record starts with a header of this size.
pub const HEADER_SIZE: usize = 16;

/// Port the phone looks for by default.
pub const DEFAULT_PORT: u16 = 9913;

/// Largest record payload we accept; a 1792p keyframe is far below this.
pub const MAX_PAYLOAD: usize = 16 * 1024 * 1024;

/// Largest HELLO JSON we accept.
pub const MAX_HELLO: usize = 64 * 1024;

/// `flags` bit 0 on a video record: keyframe, carries the parameter sets.
pub const FLAG_KEYFRAME: u8 = 0x01;

/// The 16-byte record header: `u8 type, u8 flags, u16 reserved, u32 len, u64 pts_us`.
#[derive(Debug, Clone, Copy, PartialEq, Eq, Structural)]
pub struct Header {
    pub rtype: u8,
    pub flags: u8,
    pub payload_len: u32,
    /// The phone's host clock in microseconds.
    pub pts_us: u64,
}

impl Header {
    /// The bytes of this header on the wire.
    pub open spec fn wire(self) -> Seq<u8> {
        seq![self.rtype, self.flags, 0u8, 0u8] + be_bytes(self.payload_len as nat, 4) + be_bytes(
            self.pts_us as nat,
            8,
        )
    }

    /// The header that stands at the start of these bytes. The reserved bytes may hold anything.
    pub open spec fn of(bytes: Seq<u8>) -> Header {
        Header {
            rtype: bytes[0],
            flags: bytes[1],
            payload_len: be_value(bytes.subrange(4, 8)) as u32,
            pts_us: be_value(bytes.subrange(8, 16)) as u64,
        }
    }

    /// Whether bit 0 of the flags is set.
    pub open spec fn marks_keyframe(self) -> bool {
        self.flags % 2 == 1
    }

    pub fn new(rtype: u8, flags: u8, payload_len: u32, pts_us: u64) -> (header: Self)
        ensures
            header == (Header { rtype, flags, payload_len, pts_us }),
    {
        Self { rtype, flags, payload_len, pts_us }
    }

    pub fn parse(bytes: &[u8; HEADER_SIZE]) -> (header: Self)
        ensures
            header == Header::of(bytes@),
    {
        let payload_len: u64 = read_be(bytes, 4, 4);
        let pts_us: u64 = read_be(bytes, 8, 8);
        proof {
            be_value_bound(bytes@.subrange(4, 8));
            pow256_widths();
        }
        Self { rtype: bytes[0], flags: bytes[1], payload_len: payload_len as u32, pts_us }
    }

    pub fn encode(&self) -> (bytes: [u8; HEADER_SIZE])
        ensures
            bytes@ == self.wire(),
    {
        let mut w: Vec<u8> = Vec::new();
        w.push(self.rtype);
        w.push(self.flags);
        w.push(0);
        w.push(0);
        push_be(&mut w, self.payload_len as u64, 4);
        push_be(&mut w, self.pts_us, 8);
        proof {
            be_bytes_len(self.payload_len as nat, 4);
            be_bytes_len(self.pts_us as nat, 8);
        }
        assert(w@ =~= self.wire());
        let bytes: [u8; HEADER_SIZE] = [
            w[0], w[1], w[2], w[3], w[4], w[5], w[6], w[7],
            w[8], w[9], w[10], w[11], w[12], w[13], w[14], w[15],
        ];
        assert(bytes@ =~= w@);
        bytes
    }

    pub fn is_keyframe(&self) -> (keyframe: bool)
        ensures
            keyframe == self.marks_keyframe(),
    {
        let flags: u8 = self.flags;
        assert((flags & FLAG_KEYFRAME != 0) == (flags % 2 == 1)) by (bit_vector);
        flags & FLAG_KEYFRAME != 0
    }
}

/// A header always takes sixteen bytes, and the reserved ones among them are zero.
pub proof fn header_takes_sixteen_bytes(header: Header)
    ensures
        header.wire().len() == HEADER_SIZE,
        header.wire()[2] == 0,
        header.wire()[3] == 0,
{
    be_bytes_len(header.payload_len as nat, 4);
    be_bytes_len(header.pts_us as nat, 8);
}

/// What was written is what is read back, whatever follows it.
pub proof fn header_reads_back(header: Header, rest: Seq<u8>)
    ensures
        Header::of(header.wire() + rest) == header,
{
    header_takes_sixteen_bytes(header);
    let len = be_bytes(header.payload_len as nat, 4);
    let pts = be_bytes(header.pts_us as nat, 8);
    be_bytes_len(header.payload_len as nat, 4);
    be_bytes_len(header.pts_us as nat, 8);
    let all = header.wire() + rest;
    assert(all.subrange(4, 8) =~= len);
    assert(all.subrange(8, 16) =~= pts);
    pow256_widths();
    number_survives_its_bytes(header.payload_len as nat, 4);
    number_survives_its_bytes(header.pts_us as nat, 8);
}

/// Video codec of the elementary stream.
#[derive(Debug, Clone, Copy, PartialEq, Eq, Structural)]
pub enum Codec {
    H264,
    Hevc,
}

impl Codec {
    /// What the codec is called on the wire.
    pub open spec fn wire_name(self) -> Seq<char> {
        match self {
            Codec::H264 => "h264"@,
            Codec::Hevc => "hevc"@,
        }
    }

    /// The codec that goes by this name, in any case.
    pub open spec fn named(s: Seq<char>) -> Option<Codec> {
        let name = lower(s);
        if name == "h264"@ || name == "avc"@ {
            Some(Codec::H264)
        } else if name == "hevc"@ || name == "h265"@ {
            Some(Codec::Hevc)
        } else {
            None
        }
    }

    pub fn as_str(self) -> (name: &'static str)
        ensures
            name@ == self.wire_name(),
    {
        match self {
            Codec::H264 => "h264",
            Codec::Hevc => "hevc",
        }
    }

    pub fn parse(s: &str) -> (codec: Option<Self>)
        ensures
            codec == Codec::named(s@),
    {
        let name = lowered(s);
        let name = name.as_str();
        if same_text(name, "h264") || same_text(name, "avc") {
            Some(Codec::H264)
        } else if same_text(name, "hevc") || same_text(name, "h265") {
            Some(Codec::Hevc)
        } else {
            None
        }
    }
}

/// A codec's own name names it.
pub proof fn codec_names_read_back(codec: Codec)
    ensures
        Codec::named(codec.wire_name()) == Some(codec),
{
    reveal_strlit("h264");
    reveal_strlit("avc");
    reveal_strlit("hevc");
    reveal_strlit("h265");
    assert(lower("h264"@) =~= "h264"@);
    assert(lower("hevc"@) =~= "hevc"@);
    assert("hevc"@[1] != "h264"@[1]);
    assert("hevc"@.len() != "avc"@.len());
}

/// A floating-point number, carried by its bit pattern. It passes from the settings to the
/// phone and from the phone to the log; nothing here computes with it.
#[derive(Debug, Clone, Copy, PartialEq, Eq, Structural)]
pub struct Real {
    /// IEEE 754 binary64.
    pub bits: u64,
}

/// The phone's opening message.
#[derive(Debug)]
pub struct Hello {
    pub v: u32,
    /// Stable for this app on that phone: the identity consent remembers.
    pub id: String,
    pub model: String,
    pub ios: String,
    pub name: String,
    /// Native screen size in pixels.
    pub w: u32,
    pub h: u32,
    /// Codec the phone would use if we express no preference.
    pub codec: String,
    /// App version.
    pub app: String,
}

impl Clone for Hello {
    fn clone(&self) -> (copy: Self)
        ensures
            copy == *self,
    {
        Hello {
            v: self.v,
            id: self.id.clone(),
            model: self.model.clone(),
            ios: self.ios.clone(),
            name: self.name.clone(),
            w: self.w,
            h: self.h,
            codec: self.codec.clone(),
            app: self.app.clone(),
        }
    }
}

impl Default for Hello {
    fn default() -> (hello: Self)
        ensures
            hello.v == 0,
            hello.w == 0,
            hello.h == 0,
            hello.id@ == Seq::<char>::empty(),
            hello.model@ == Seq::<char>::empty(),
            hello.ios@ == Seq::<char>::empty(),
            hello.name@ == Seq::<char>::empty(),
            hello.codec@ == Seq::<char>::empty(),
            hello.app@ == Seq::<char>::empty(),
    {
        Hello {
            v: 0,
            id: String::new(),
            model: String::new(),
            ios: String::new(),
            name: String::new(),
            w: 0,
            h: 0,
            codec: String::new(),
            app: String::new(),
        }
    }
}

/// How an identity is shown: its last eight characters, in capitals.
pub open spec fn shortened(id: Seq<char>) -> Seq<char> {
    let from = if id.len() > 8 {
        id.len() - 8
    } else {
        0
    };
    upper(id.subrange(from, id.len() as int))
}

/// How a phone is called: its name without the space around it, or "iPhone" if it has none.
pub open spec fn called(name: Seq<char>) -> Seq<char> {
    if trim(name).len() == 0 {
        "iPhone"@
    } else {
        trim(name)
    }
}

/// The last eight characters of `id`, in capitals.
pub fn shorten(id: &str) -> (short: String)
    ensures
        short@ == shortened(id@),
{
    let chars = chars_of(id);
    let n: usize = chars.len();
    let from: usize = n.saturating_sub(8);
    uppered(text_between(&chars, from, n).as_str())
}

impl Hello {
    /// Short form of the device id, for window titles and dialogs.
    pub fn short_id(&self) -> (short: String)
        ensures
            short@ == shortened(self.id@),
    {
        shorten(self.id.as_str())
    }

    /// What to call this phone in the interface.
    pub fn display_name(&self) -> (name: String)
        ensures
            name@ == called(self.name@),
    {
        let name = trimmed(self.name.as_str());
        if name.as_str().is_empty() {
            "iPhone".to_owned()
        } else {
            name
        }
    }
}

/// A short id is never longer than eight characters, and an id that is already short keeps
/// its length.
pub proof fn short_ids_are_short(id: Seq<char>)
    ensures
        shortened(id).len() == if id.len() > 8 {
            8
        } else {
            id.len()
        },
{
}

/// A phone always has something to be called by.
pub proof fn every_phone_has_a_name(name: Seq<char>)
    ensures
        called(name).len() > 0,
{
    reveal_strlit("iPhone");
}

/// Our answer to HELLO. Everything but `ok` is optional; whatever we leave out the phone
/// keeps at its own default.
#[derive(Debug)]
pub struct HelloReply {
    pub ok: bool,
    pub error: Option<String>,
    pub name: Option<String>,
    pub fps: Option<Real>,
    pub bitrate: Option<i64>,
    pub keyframe_interval_s: Option<Real>,
    pub codec: Option<String>,
    pub scale: Option<Real>,
}

impl Clone for HelloReply {
    fn clone(&self) -> (copy: Self)
        ensures
            copy == *self,
    {
        HelloReply {
            ok: self.ok,
            error: self.error.clone(),
            name: self.name.clone(),
            fps: self.fps,
            bitrate: self.bitrate,
            keyframe_interval_s: self.keyframe_interval_s,
            codec: self.codec.clone(),
            scale: self.scale,
        }
    }
}

impl Default for HelloReply {
    fn default() -> (reply: Self)
        ensures
            !reply.ok,
            reply.error is None,
            reply.name is None,
            reply.fps is None,
            reply.bitrate is None,
            reply.keyframe_interval_s is None,
            reply.codec is None,
            reply.scale is None,
    {
        HelloReply {
            ok: false,
            error: None,
            name: None,
            fps: None,
            bitrate: None,
            keyframe_interval_s: None,
            codec: None,
            scale: None,
        }
    }
}

impl HelloReply {
    /// Whether this is a refusal that gives `reason` and sets nothing else.
    pub open spec fn refuses(self, reason: Seq<char>) -> bool {
        &&& !self.ok
        &&& self.error matches Some(text) && text@ == reason
        &&& self.name is None
        &&& self.fps is None
        &&& self.bitrate is None
        &&& self.keyframe_interval_s is None
        &&& self.codec is None
        &&& self.scale is None
    }

    /// `ok:false` with a reason: the phone closes and retries with backoff.
    pub fn refused(error: &str) -> (reply: Self)
        ensures
            reply.refuses(error@),
    {
        Self { error: Some(error.to_owned()), ..Self::default() }
    }
}

/// What the encoder actually produces (record `0x03`).
#[derive(Debug)]
pub struct StreamConfig {
    pub codec: String,
    pub w: u32,
    pub h: u32,
    pub fps: Real,
    pub bitrate: i64,
}

impl Clone for StreamConfig {
    fn clone(&self) -> (copy: Self)
        ensures
            copy == *self,
    {
        StreamConfig {
            codec: self.codec.clone(),
            w: self.w,
            h: self.h,
            fps: self.fps,
            bitrate: self.bitrate,
        }
    }
}

impl Default for StreamConfig {
    fn default() -> (config: Self)
        ensures
            config.codec@ == Seq::<char>::empty(),
            config.w == 0,
            config.h == 0,
            config.fps.bits == 0,
            config.bitrate == 0,
    {
        StreamConfig { codec: String::new(), w: 0, h: 0, fps: Real { bits: 0 }, bitrate: 0 }
    }
}

/// Live encoder settings we can push at any time (record `0x11`).
#[derive(Debug)]
pub struct Params {
    pub fps: Option<Real>,
    pub bitrate: Option<i64>,
    pub keyframe_interval_s: Option<Real>,
    pub codec: Option<String>,
    pub scale: Option<Real>,
}

impl Clone for Params {
    fn clone(&self) -> (copy: Self)
        ensures
            copy == *self,
    {
        Params {
            fps: self.fps,
            bitrate: self.bitrate,
            keyframe_interval_s: self.keyframe_interval_s,
            codec: self.codec.clone(),
            scale: self.scale,
        }
    }
}

impl Default for Params {
    fn default() -> (params: Self)
        ensures
            params.fps is None,
            params.bitrate is None,
            params.keyframe_interval_s is None,
            params.codec is None,
            params.scale is None,
    {
        Params { fps: None, bitrate: None, keyframe_interval_s: None, codec: None, scale: None }
    }
}

/// Every field of a header has its place on the wire: the type first, the flags second, the length
/// in the second four bytes and the timestamp in the last eight, the most significant byte first.
pub proof fn header_fields_have_their_places(header: Header)
    ensures
        ({
            let w = header.wire();
            &&& w.len() == 16
            &&& w[0] == header.rtype
            &&& w[1] == header.flags
            &&& w[2] == 0 && w[3] == 0
            &&& header.payload_len == 0x100_0000 * w[4] + 0x1_0000 * w[5] + 0x100 * w[6] + w[7]
            &&& header.pts_us == 0x1_0000_0000 * (0x100_0000 * w[8] + 0x1_0000 * w[9] + 0x100
                * w[10] + w[11]) + 0x100_0000 * w[12] + 0x1_0000 * w[13] + 0x100 * w[14] + w[15]
        }),
{
    numbers_take_four_bytes(header.payload_len as nat);
    numbers_take_eight_bytes(header.pts_us as nat);
    let len = be_bytes(header.payload_len as nat, 4);
    let pts = be_bytes(header.pts_us as nat, 8);
    let w = header.wire();
    assert(forall|i: int| 0 <= i < 4 ==> w[4 + i] == #[trigger] len[i]);
    assert(forall|i: int| 0 <= i < 8 ==> w[8 + i] == #[trigger] pts[i]);
    assert(w[4] == len[0] && w[5] == len[1] && w[6] == len[2] && w[7] == len[3]);
    assert(w[8] == pts[0] && w[9] == pts[1] && w[10] == pts[2] && w[11] == pts[3]);
    assert(w[12] == pts[4] && w[13] == pts[5] && w[14] == pts[6] && w[15] == pts[7]);
}

/// A header is read from where its fields stand, whatever the reserved bytes hold.
pub proof fn header_fields_are_read_from_their_places(w: Seq<u8>)
    requires
        w.len() >= 16,
    ensures
        ({
            let header = Header::of(w);
            &&& header.rtype == w[0]
            &&& header.flags == w[1]
            &&& header.payload_len == 0x100_0000 * w[4] + 0x1_0000 * w[5] + 0x100 * w[6] + w[7]
            &&& header.pts_us == 0x1_0000_0000 * (0x100_0000 * w[8] + 0x1_0000 * w[9] + 0x100
                * w[10] + w[11]) + 0x100_0000 * w[12] + 0x1_0000 * w[13] + 0x100 * w[14] + w[15]
        }),
{
    four_bytes_spell(w.subrange(4, 8));
    eight_bytes_spell(w.subrange(8, 16));
}

/// A keyframe is marked by the lowest bit of the flags, whatever the others are.
pub proof fn the_lowest_flag_marks_a_keyframe(header: Header)
    ensures
        header.marks_keyframe() <==> header.flags & 0x01 == 0x01,
{
    let flags = header.flags;
    assert((flags & 0x01 == 0x01) == (flags % 2 == 1)) by (bit_vector);
}

/// What both sides of the wire agreed on: the magics spell "NSC1" and "NSS1", a header takes
/// sixteen bytes, a payload sixteen mebibytes at the most and a HELLO sixty-four kibibytes.
pub proof fn the_wire_is_agreed_on()
    ensures
        CLIENT_MAGIC@ == seq![0x4Eu8, 0x53, 0x43, 0x31],
        SERVER_MAGIC@ == seq![0x4Eu8, 0x53, 0x53, 0x31],
        HEADER_SIZE == 16,
        DEFAULT_PORT == 9913,
        MAX_PAYLOAD == 16_777_216,
        MAX_HELLO == 65_536,
        FLAG_KEYFRAME == 1,
{
}

/// "h264" and "avc" name the one codec, "hevc" and "h265" the other, in any case; nothing else
/// names one.
pub proof fn codecs_go_by_four_names(name: Seq<char>)
    ensures
        Codec::named(name) == Some(Codec::H264) <==> (lower(name) == seq!['h', '2', '6', '4']
            || lower(name) == seq!['a', 'v', 'c']),
        Codec::named(name) == Some(Codec::Hevc) <==> (lower(name) == seq!['h', 'e', 'v', 'c']
            || lower(name) == seq!['h', '2', '6', '5']),
        Codec::H264.wire_name() == seq!['h', '2', '6', '4'],
        Codec::Hevc.wire_name() == seq!['h', 'e', 'v', 'c'],
{
    reveal_strlit("h264");
    reveal_strlit("avc");
    reveal_strlit("hevc");
    reveal_strlit("h265");
    assert("h264"@ =~= seq!['h', '2', '6', '4']);
    assert("avc"@ =~= seq!['a', 'v', 'c']);
    assert("hevc"@ =~= seq!['h', 'e', 'v', 'c']);
    assert("h265"@ =~= seq!['h', '2', '6', '5']);
    assert("h264"@[3] != "h265"@[3]);
    assert("h264"@[1] != "hevc"@[1]);
    assert("avc"@.len() == 3);
}

/// An id is shown by its end: what stands before the last eight characters makes no difference,
/// and those are shown in capitals.
pub proof fn ids_are_shown_by_their_end(front: Seq<char>, end: Seq<char>)
    requires
        end.len() == 8 || end.len() < 8 && front.len() == 0,
    ensures
        shortened(front + end) == upper(end),
{
    assert((front + end).subrange(front.len() as int, (front + end).len() as int) =~= end);
}

/// A phone is called by its name, however much white space stands around it; one with no visible
/// name is called "iPhone".
pub proof fn phones_go_by_their_names(before: Seq<char>, name: Seq<char>, after: Seq<char>)
    requires
        forall|i: int| 0 <= i < before.len() ==> is_white(#[trigger] before[i]),
        forall|i: int| 0 <= i < after.len() ==> is_white(#[trigger] after[i]),
        name.len() > 0 ==> !is_white(name[0]) && !is_white(name.last()),
    ensures
        called(before + name + after) == if name.len() > 0 {
            name
        } else {
            seq!['i', 'P', 'h', 'o', 'n', 'e']
        },
{
    only_the_space_around_goes(before, name, after);
    reveal_strlit("iPhone");
    assert("iPhone"@ =~= seq!['i', 'P', 'h', 'o', 'n', 'e']);
}

/// A refusal says no, says why, and asks for nothing.
pub proof fn refusals_ask_for_nothing(reply: HelloReply, reason: Seq<char>)
    requires
        reply.refuses(reason),
    ensures
        !reply.ok,
        reply.error is Some && reply.error->0@ == reason,
        reply.name is None && reply.fps is None && reply.bitrate is None,
        reply.keyframe_interval_s is None && reply.codec is None && reply.scale is None,
{
}

} // verus!
