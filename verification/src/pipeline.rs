//! Everything that happens to a stream between the socket and the screen.
//!
//! The decoder, the phone's connection and the window belong to the program around this; here is
//! what to do with them, and when. Moments are in nanoseconds since any fixed moment.

use vstd::prelude::*;
use vstd::utf8::encode_utf8;

use crate::decode::nv12::{byte_or, colours_are_0rgb, same_shape_has_no_bars, Nv12Frame};
use crate::net::protocol::{
    called, ids_are_shown_by_their_end, phones_go_by_their_names, shortened, Codec, Hello,
    StreamConfig,
};
use crate::net::server::{Peer, ServerEvent};
use crate::text::{decimal, decimal_text, is_white, upper};

verus! {

/// How often the running statistics are printed: every 2 seconds.
pub const REPORT_EVERY: u64 = 2_000_000_000;

/// Never pester the phone for keyframes more often than this: once a second.
pub const KEYFRAME_EVERY: u64 = 1_000_000_000;

/// Frames and bytes since the last report.
#[derive(Debug, Clone, Copy, PartialEq, Eq, Structural)]
pub struct Stats {
    pub since: u64,
    pub frames: u32,
    pub keyframes: u32,
    pub bytes: u64,
}

/// What came in over a stretch of time.
#[derive(Debug, Clone, Copy, PartialEq, Eq, Structural)]
pub struct Tally {
    pub nanoseconds: u64,
    pub frames: u32,
    pub keyframes: u32,
    pub bytes: u64,
}

/// How much time has passed; none where the clock stands behind.
pub open spec fn elapsed(since: u64, now: u64) -> int {
    if now > since {
        now - since
    } else {
        0
    }
}

impl Stats {
    /// Nothing counted yet.
    pub open spec fn fresh(now: u64) -> Stats {
        Stats { since: now, frames: 0, keyframes: 0, bytes: 0 }
    }

    /// Whether one more access unit of this many bytes can be counted.
    pub open spec fn has_room(self, bytes: nat) -> bool {
        &&& self.keyframes <= self.frames < u32::MAX
        &&& self.bytes + bytes <= u64::MAX
    }

    /// One more access unit counted.
    pub open spec fn counted(self, bytes: nat, keyframe: bool) -> Stats {
        Stats {
            since: self.since,
            frames: (self.frames + 1) as u32,
            keyframes: if keyframe {
                (self.keyframes + 1) as u32
            } else {
                self.keyframes
            },
            bytes: (self.bytes + bytes) as u64,
        }
    }

    /// Whether it is time for a report.
    pub open spec fn is_due(self, now: u64) -> bool {
        elapsed(self.since, now) >= REPORT_EVERY
    }

    /// What there is to report: what came in, and over how much time.
    pub open spec fn tally(self, now: u64) -> Option<Tally> {
        if self.frames > 0 && elapsed(self.since, now) > 0 {
            Some(
                Tally {
                    nanoseconds: elapsed(self.since, now) as u64,
                    frames: self.frames,
                    keyframes: self.keyframes,
                    bytes: self.bytes,
                },
            )
        } else {
            None
        }
    }

    pub fn new(now: u64) -> (stats: Self)
        ensures
            stats == Stats::fresh(now),
    {
        Stats { since: now, frames: 0, keyframes: 0, bytes: 0 }
    }

    pub fn reset(&mut self, now: u64)
        ensures
            *final(self) == Stats::fresh(now),
    {
        *self = Stats::new(now);
    }

    /// Whether one more access unit of this many bytes can be counted.
    pub fn can_count(&self, bytes: usize) -> (can: bool)
        ensures
            can == self.has_room(bytes as nat),
    {
        self.keyframes <= self.frames && self.frames < u32::MAX && bytes as u64 <= u64::MAX
            - self.bytes
    }

    pub fn count(&mut self, bytes: usize, keyframe: bool)
        requires
            old(self).has_room(bytes as nat),
        ensures
            *final(self) == old(self).counted(bytes as nat, keyframe),
    {
        self.frames += 1;
        self.bytes += bytes as u64;
        if keyframe {
            self.keyframes += 1;
        }
    }

    pub fn due(&self, now: u64) -> (due: bool)
        ensures
            due == self.is_due(now),
    {
        now.saturating_sub(self.since) >= REPORT_EVERY
    }

    /// How the stream is doing, if anything came in; counting starts over.
    pub fn report(&mut self, now: u64) -> (tally: Option<Tally>)
        ensures
            *final(self) == Stats::fresh(now),
            tally == old(self).tally(now),
    {
        let nanoseconds: u64 = now.saturating_sub(self.since);
        let tally = if self.frames > 0 && nanoseconds > 0 {
            Some(
                Tally {
                    nanoseconds,
                    frames: self.frames,
                    keyframes: self.keyframes,
                    bytes: self.bytes,
                },
            )
        } else {
            None
        };
        self.reset(now);
        tally
    }
}

/// What the decoder is currently set up for.
#[derive(Debug, Clone, Copy, PartialEq, Eq, Structural)]
pub struct Format {
    pub codec: Codec,
    pub width: u32,
    pub height: u32,
}

/// Where a stream stands.
#[derive(Debug, Clone, Copy, PartialEq, Eq, Structural)]
pub struct Pipeline {
    /// Whether a decoder is running.
    pub decoding: bool,
    /// What the phone says it sends.
    pub format: Option<Format>,
    /// Whether a phone is there to be asked for a keyframe.
    pub phone: bool,
    pub asked_for_keyframe: Option<u64>,
    /// Whether the first picture is to be kept in a file.
    pub save_frame: bool,
    pub frame_saved: bool,
    pub stats: Stats,
}

/// The format a phone announces, if it names a codec we know.
pub open spec fn announced(codec: Seq<char>, width: u32, height: u32) -> Option<Format> {
    match Codec::named(codec) {
        Some(codec) => Some(Format { codec, width, height }),
        None => None,
    }
}

/// How a phone is named while it streams.
pub open spec fn device_text(hello: Hello) -> Seq<char> {
    called(hello.name@) + " ("@ + shortened(hello.id@) + ")"@
}

/// What came of a description of the stream.
#[derive(Debug, Clone, Copy, PartialEq, Eq, Structural)]
pub enum Reconfigured {
    /// The phone reports a codec we do not know.
    UnknownCodec,
    /// Nothing changed.
    Same,
    /// The stream has this format now: the decoder goes, and the phone is asked for a keyframe
    /// where `ask` says so.
    Changed { format: Format, ask: bool },
}

/// What to do with an access unit.
#[derive(Debug, Clone, Copy, PartialEq, Eq, Structural)]
pub enum VideoStep {
    /// Drop it; ask the phone for a keyframe where `ask` says so.
    Drop { ask: bool },
    /// Start a decoder for this format, and report whether it started.
    Build(Format),
    /// Feed it to the decoder.
    Decode,
}

/// What came out of the decoder.
#[derive(Debug, Clone, Copy, PartialEq, Eq, Structural)]
pub enum Decoded {
    Picture,
    Nothing,
    Failed,
}

/// What to do after decoding.
#[derive(Debug, Clone, Copy, PartialEq, Eq, Structural)]
pub struct AfterDecode {
    /// Keep the picture in a file.
    pub save: bool,
    /// Show the picture.
    pub show: bool,
    /// The decoder gave up: let go of it.
    pub drop_decoder: bool,
    /// Ask the phone for a keyframe.
    pub ask: bool,
}

/// What to do about an event.
#[derive(Debug)]
pub enum Action {
    /// Let go of the decoder, remember the phone, and show that this device streams.
    Streaming { device: String },
    /// Do as the outcome says.
    Reconfigured(Reconfigured),
    /// Keep the access unit if the stream is being kept, and do as the step says.
    Video { step: VideoStep, data: Vec<u8>, pts_us: u64 },
    /// Let go of the decoder and of the phone, and wait for another one.
    Idle { reason: String },
    /// Put the phone's statistics in the log.
    PhoneStats { json: String },
    /// Put the refusal in the log.
    TurnedAway { peer: Peer, reason: String },
    Nothing,
}

impl Action {
    /// Whether this is what to do about an event that finds the pipeline like this.
    pub open spec fn is_for(self, event: ServerEvent, pipeline: Pipeline, now: u64) -> bool {
        match event {
            ServerEvent::SessionStarted { hello, .. } => self matches Action::Streaming { device }
                && device@ == device_text(hello),
            ServerEvent::StreamConfig { config, .. } => self == Action::Reconfigured(
                pipeline.config_outcome(config, now),
            ),
            ServerEvent::Video { keyframe, data, pts_us } => self == (Action::Video {
                step: pipeline.video_step(keyframe, now),
                data,
                pts_us,
            }),
            ServerEvent::SessionEnded { reason, .. } => self == Action::Idle { reason },
            ServerEvent::Stats { json, .. } => self == Action::PhoneStats { json },
            ServerEvent::Refused { peer, reason } => self == Action::TurnedAway { peer, reason },
            ServerEvent::Log { .. } => self == Action::Nothing,
        }
    }
}

impl Pipeline {
    /// Whether a decoder is running only where its format is known.
    pub open spec fn sound(self) -> bool {
        self.decoding ==> self.format is Some
    }

    /// Whether the phone is asked for a keyframe at `now`: not more than once a second, since it
    /// has to re-encode a whole picture for each one.
    pub open spec fn asks(self, now: u64) -> bool {
        self.phone && match self.asked_for_keyframe {
            Some(when) => elapsed(when, now) >= KEYFRAME_EVERY,
            None => true,
        }
    }

    /// The pipeline after it wanted a keyframe at `now`.
    pub open spec fn after_asking(self, now: u64) -> Pipeline {
        if self.asks(now) {
            Pipeline { asked_for_keyframe: Some(now), ..self }
        } else {
            self
        }
    }

    /// The pipeline after a phone was admitted: what it says of its stream is taken at its word.
    pub open spec fn after_start(self, hello: Hello, now: u64) -> Pipeline {
        Pipeline {
            decoding: false,
            format: announced(hello.codec@, hello.w, hello.h),
            phone: true,
            stats: Stats::fresh(now),
            ..self
        }
    }

    /// The pipeline after a session.
    pub open spec fn after_end(self, now: u64) -> Pipeline {
        Pipeline { decoding: false, phone: false, stats: Stats::fresh(now), ..self }
    }

    /// What comes of a description of the stream.
    pub open spec fn config_outcome(self, config: StreamConfig, now: u64) -> Reconfigured {
        match announced(config.codec@, config.w, config.h) {
            None => Reconfigured::UnknownCodec,
            Some(format) => if self.format == Some(format) {
                Reconfigured::Same
            } else {
                Reconfigured::Changed { format, ask: self.asks(now) }
            },
        }
    }

    /// The pipeline after a description of the stream.
    pub open spec fn after_config(self, config: StreamConfig, now: u64) -> Pipeline {
        match self.config_outcome(config, now) {
            Reconfigured::Changed { format, .. } => Pipeline {
                decoding: false,
                format: Some(format),
                ..self.after_asking(now)
            },
            _ => self,
        }
    }

    /// What to do with an access unit: a decoder that starts mid-picture produces nothing but
    /// errors, so only a keyframe starts one.
    pub open spec fn video_step(self, keyframe: bool, now: u64) -> VideoStep {
        if self.decoding {
            VideoStep::Decode
        } else if !keyframe {
            VideoStep::Drop { ask: self.asks(now) }
        } else {
            match self.format {
                Some(format) => VideoStep::Build(format),
                None => VideoStep::Drop { ask: false },
            }
        }
    }

    /// The pipeline after an access unit, before it is decoded.
    pub open spec fn after_video(self, keyframe: bool, now: u64) -> Pipeline {
        if !self.decoding && !keyframe {
            self.after_asking(now)
        } else {
            self
        }
    }

    /// The pipeline after an event.
    pub open spec fn after_event(self, event: ServerEvent, now: u64) -> Pipeline {
        match event {
            ServerEvent::SessionStarted { hello, .. } => self.after_start(hello, now),
            ServerEvent::StreamConfig { config, .. } => self.after_config(config, now),
            ServerEvent::Video { keyframe, data, .. } => Pipeline {
                stats: self.stats.counted(data@.len(), keyframe),
                ..self
            }.after_video(keyframe, now),
            ServerEvent::SessionEnded { .. } => self.after_end(now),
            _ => self,
        }
    }

    /// What to do after decoding. Only the first picture is kept.
    pub open spec fn decode_outcome(self, outcome: Decoded, now: u64) -> AfterDecode {
        match outcome {
            Decoded::Picture => AfterDecode {
                save: self.save_frame && !self.frame_saved,
                show: true,
                drop_decoder: false,
                ask: false,
            },
            Decoded::Nothing => AfterDecode {
                save: false,
                show: false,
                drop_decoder: false,
                ask: false,
            },
            Decoded::Failed => AfterDecode {
                save: false,
                show: false,
                drop_decoder: true,
                ask: self.asks(now),
            },
        }
    }

    /// The pipeline after decoding.
    pub open spec fn after_decoded(self, outcome: Decoded, now: u64) -> Pipeline {
        match outcome {
            Decoded::Picture => Pipeline {
                frame_saved: self.frame_saved || self.save_frame,
                ..self
            },
            Decoded::Nothing => self,
            Decoded::Failed => Pipeline { decoding: false, ..self.after_asking(now) },
        }
    }

    /// The pipeline after a decoder was to be started.
    pub open spec fn after_built(self, started: bool) -> Pipeline {
        Pipeline { decoding: started, ..self }
    }

    /// The pipeline before any phone came.
    pub open spec fn idle(save_frame: bool, now: u64) -> Pipeline {
        Pipeline {
            decoding: false,
            format: None,
            phone: false,
            asked_for_keyframe: None,
            save_frame,
            frame_saved: false,
            stats: Stats::fresh(now),
        }
    }

    pub fn new(save_frame: bool, now: u64) -> (pipeline: Self)
        ensures
            pipeline == Pipeline::idle(save_frame, now),
            pipeline.sound(),
    {
        Self {
            decoding: false,
            format: None,
            phone: false,
            asked_for_keyframe: None,
            save_frame,
            frame_saved: false,
            stats: Stats::new(now),
        }
    }

    /// Something happened on the network: what to do about it.
    pub fn handle(&mut self, event: ServerEvent, now: u64) -> (action: Action)
        requires
            event matches ServerEvent::Video { data, .. } ==> old(self).stats.has_room(data@.len()),
        ensures
            action.is_for(event, *old(self), now),
            *final(self) == old(self).after_event(event, now),
            old(self).sound() ==> final(self).sound(),
    {
        match event {
            ServerEvent::SessionStarted { hello, .. } => {
                let device = self.session_started(&hello, now);
                Action::Streaming { device }
            },
            ServerEvent::StreamConfig { config, .. } => {
                let outcome = self.reconfigure(&config, now);
                Action::Reconfigured(outcome)
            },
            ServerEvent::Video { keyframe, data, pts_us } => {
                self.stats.count(data.len(), keyframe);
                let step = self.on_video(keyframe, now);
                Action::Video { step, data, pts_us }
            },
            ServerEvent::SessionEnded { reason, .. } => {
                self.session_ended(now);
                Action::Idle { reason }
            },
            ServerEvent::Stats { json, .. } => Action::PhoneStats { json },
            ServerEvent::Refused { peer, reason } => Action::TurnedAway { peer, reason },
            // It is in the log already.
            ServerEvent::Log { .. } => Action::Nothing,
        }
    }

    /// A phone was admitted. Returns how it is named while it streams.
    pub fn session_started(&mut self, hello: &Hello, now: u64) -> (device: String)
        ensures
            device@ == device_text(*hello),
            *final(self) == old(self).after_start(*hello, now),
            final(self).sound(),
    {
        let mut device = hello.display_name();
        device.append(" (");
        device.append(hello.short_id().as_str());
        device.append(")");
        self.format = match Codec::parse(hello.codec.as_str()) {
            Some(codec) => Some(Format { codec, width: hello.w, height: hello.h }),
            None => None,
        };
        self.decoding = false;
        self.phone = true;
        self.stats.reset(now);
        device
    }

    /// The session is over.
    pub fn session_ended(&mut self, now: u64)
        ensures
            *final(self) == old(self).after_end(now),
            final(self).sound(),
    {
        self.decoding = false;
        self.phone = false;
        self.stats.reset(now);
    }

    /// The phone told us what its encoder actually produces.
    pub fn reconfigure(&mut self, config: &StreamConfig, now: u64) -> (outcome: Reconfigured)
        ensures
            outcome == old(self).config_outcome(*config, now),
            *final(self) == old(self).after_config(*config, now),
            old(self).sound() ==> final(self).sound(),
    {
        let format = match Codec::parse(config.codec.as_str()) {
            Some(codec) => Format { codec, width: config.w, height: config.h },
            None => {
                return Reconfigured::UnknownCodec;
            },
        };
        if let Some(current) = self.format {
            if current == format {
                return Reconfigured::Same;
            }
        }
        self.format = Some(format);
        // The next keyframe starts a decoder for the new shape.
        self.decoding = false;
        let ask = self.ask_for_keyframe(now);
        Reconfigured::Changed { format, ask }
    }

    /// An access unit came in: what to do with it before it is decoded.
    pub fn on_video(&mut self, keyframe: bool, now: u64) -> (step: VideoStep)
        ensures
            step == old(self).video_step(keyframe, now),
            *final(self) == old(self).after_video(keyframe, now),
            old(self).sound() ==> final(self).sound(),
    {
        if self.decoding {
            return VideoStep::Decode;
        }
        if !keyframe {
            // Wait for a keyframe and hurry it along.
            let ask = self.ask_for_keyframe(now);
            return VideoStep::Drop { ask };
        }
        match self.format {
            Some(format) => VideoStep::Build(format),
            None => VideoStep::Drop { ask: false },
        }
    }

    /// A decoder was to be started; says whether to feed it.
    pub fn on_built(&mut self, started: bool) -> (feed: bool)
        requires
            old(self).format is Some,
        ensures
            feed == started,
            *final(self) == old(self).after_built(started),
            final(self).sound(),
    {
        self.decoding = started;
        started
    }

    /// The decoder was fed.
    pub fn on_decoded(&mut self, outcome: Decoded, now: u64) -> (after: AfterDecode)
        ensures
            after == old(self).decode_outcome(outcome, now),
            *final(self) == old(self).after_decoded(outcome, now),
            old(self).sound() ==> final(self).sound(),
    {
        match outcome {
            Decoded::Picture => {
                let save = self.save_first_frame();
                AfterDecode { save, show: true, drop_decoder: false, ask: false }
            },
            Decoded::Nothing => AfterDecode {
                save: false,
                show: false,
                drop_decoder: false,
                ask: false,
            },
            Decoded::Failed => {
                self.decoding = false;
                let ask = self.ask_for_keyframe(now);
                AfterDecode { save: false, show: false, drop_decoder: true, ask }
            },
        }
    }

    /// Whether to ask the phone for a keyframe: not more than once a second.
    fn ask_for_keyframe(&mut self, now: u64) -> (ask: bool)
        ensures
            ask == old(self).asks(now),
            *final(self) == old(self).after_asking(now),
    {
        if !self.phone {
            return false;
        }
        if let Some(when) = self.asked_for_keyframe {
            if now.saturating_sub(when) < KEYFRAME_EVERY {
                return false;
            }
        }
        self.asked_for_keyframe = Some(now);
        true
    }

    /// Whether this picture is the one to keep.
    fn save_first_frame(&mut self) -> (save: bool)
        ensures
            save == (old(self).save_frame && !old(self).frame_saved),
            *final(self) == (Pipeline { frame_saved: old(self).frame_saved || save, ..*old(self) }),
    {
        if !self.save_frame || self.frame_saved {
            return false;
        }
        self.frame_saved = true;
        true
    }
}

/// Only a keyframe starts a decoder, and it starts for the format the phone last told us.
pub proof fn only_a_keyframe_starts_a_decoder(
    pipeline: Pipeline,
    keyframe: bool,
    now: u64,
    format: Format,
)
    requires
        pipeline.video_step(keyframe, now) == VideoStep::Build(format),
    ensures
        keyframe,
        !pipeline.decoding,
        pipeline.format == Some(format),
{
}

/// A decoder never outlives the format it was started for: no event leaves one running while it
/// changes the format.
pub proof fn a_new_format_ends_the_decoder(pipeline: Pipeline, event: ServerEvent, now: u64)
    requires
        pipeline.after_event(event, now).format != pipeline.format,
    ensures
        !pipeline.after_event(event, now).decoding,
{
}

/// Something that happens to a stream.
pub enum Happening {
    /// Something came from the network.
    Event(ServerEvent),
    /// A decoder was to be started, and did or did not.
    Built(bool),
    /// The decoder was fed.
    Decoded(Decoded),
}

impl Pipeline {
    /// Whether the phone is asked for a keyframe when this happens.
    pub open spec fn asks_over(self, happening: Happening, now: u64) -> bool {
        match happening {
            Happening::Event(ServerEvent::StreamConfig { config, .. }) => self.config_outcome(
                config,
                now,
            ) matches Reconfigured::Changed { ask, .. } && ask,
            Happening::Event(ServerEvent::Video { keyframe, .. }) => self.video_step(
                keyframe,
                now,
            ) matches VideoStep::Drop { ask } && ask,
            Happening::Decoded(outcome) => self.decode_outcome(outcome, now).ask,
            _ => false,
        }
    }

    /// The pipeline after this happened.
    pub open spec fn after(self, happening: Happening, now: u64) -> Pipeline {
        match happening {
            Happening::Event(event) => self.after_event(event, now),
            Happening::Built(started) => self.after_built(started),
            Happening::Decoded(outcome) => self.after_decoded(outcome, now),
        }
    }

    /// The pipeline after all this happened, each at its moment, one after the other.
    pub open spec fn after_all(self, history: Seq<(Happening, u64)>) -> Pipeline
        decreases history.len(),
    {
        if history.len() == 0 {
            self
        } else {
            self.after_all(history.drop_last()).after(history.last().0, history.last().1)
        }
    }
}

/// Once the phone was asked for a keyframe, the moment of the last request is never an earlier
/// one.
proof fn requests_are_remembered(
    start: Pipeline,
    history: Seq<(Happening, u64)>,
    asked: int,
    seen: int,
)
    requires
        0 <= asked < seen <= history.len(),
        start.after_all(history.take(asked)).asks_over(history[asked].0, history[asked].1),
    ensures
        start.after_all(history.take(seen)).asked_for_keyframe matches Some(when) && when
            >= history[asked].1,
    decreases seen,
{
    assert(history.take(seen).drop_last() =~= history.take(seen - 1));
    if asked < seen - 1 {
        requests_are_remembered(start, history, asked, seen - 1);
    }
}

/// The phone is never asked for two keyframes within a second, whatever happens to the stream.
pub proof fn keyframe_requests_keep_their_distance(
    start: Pipeline,
    history: Seq<(Happening, u64)>,
    first: int,
    second: int,
)
    requires
        0 <= first < second < history.len(),
        start.after_all(history.take(first)).asks_over(history[first].0, history[first].1),
        start.after_all(history.take(second)).asks_over(history[second].0, history[second].1),
    ensures
        history[second].1 - history[first].1 >= KEYFRAME_EVERY,
{
    requests_are_remembered(start, history, first, second);
}

/// The first picture is kept where one is to be kept, and no other, whatever happens in between.
pub proof fn one_picture_is_kept(
    start: Pipeline,
    history: Seq<(Happening, u64)>,
    first: int,
    second: int,
)
    requires
        0 <= first < second < history.len(),
        history[first].0 == Happening::Decoded(Decoded::Picture),
    ensures
        !start.after_all(history.take(second)).decode_outcome(
            Decoded::Picture,
            history[second].1,
        ).save,
    decreases second,
{
    assert(history.take(second).drop_last() =~= history.take(second - 1));
    if first < second - 1 {
        one_picture_is_kept(start, history, first, second - 1);
    }
}

/// A phone that is gone is not asked for anything.
pub proof fn nobody_is_asked_without_a_phone(pipeline: Pipeline, now: u64)
    requires
        !pipeline.phone,
    ensures
        !pipeline.asks(now),
        pipeline.after_asking(now) == pipeline,
{
}

/// The header of a PPM picture.
pub open spec fn ppm_header(width: u32, height: u32) -> Seq<char> {
    "P6\n"@ + decimal_text(width as nat) + " "@ + decimal_text(height as nat) + "\n255\n"@
}

/// The red, green or blue byte of a pixel.
pub open spec fn channel_of(pixel: int, which: int) -> u8 {
    if which == 0 {
        (pixel / 0x1_0000 % 256) as u8
    } else if which == 1 {
        (pixel / 0x100 % 256) as u8
    } else {
        (pixel % 256) as u8
    }
}

/// The bytes of the pixels of a picture, row by row, each as its red, green and blue.
pub open spec fn ppm_pixels(frame: Nv12Frame) -> Seq<u8> {
    Seq::new(
        (frame.width * frame.height * 3) as nat,
        |i: int|
            channel_of(
                frame.colour_at(i / 3 % (frame.width as int), i / 3 / (frame.width as int)),
                i % 3,
            ),
    )
}

proof fn pixel_of_a_whole_picture(frame: Nv12Frame, i: int)
    requires
        frame.width > 0,
        frame.height > 0,
        0 <= i < frame.width * frame.height,
    ensures
        frame.pixel_at(
            frame.width as int,
            frame.height as int,
            0,
            i / frame.width as int,
            i % frame.width as int,
        ) == frame.colour_at(i % frame.width as int, i / frame.width as int),
{
    let w = frame.width as int;
    let h = frame.height as int;
    let row = i / w;
    let col = i % w;
    assert(0 <= row < h) by (nonlinear_arith)
        requires
            0 <= i < w * h,
            w > 0,
            row == i / w,
    ;
    assert(w * h == h * w) by (nonlinear_arith);
    same_shape_has_no_bars(frame, w, h, 0, row, col);
    assert(col * w / w == col) by (nonlinear_arith)
        requires
            w > 0,
    ;
    assert(row * h / h == row) by (nonlinear_arith)
        requires
            h > 0,
    ;
}

/// A picture as a plain PPM: no image library, and every viewer and converter reads it.
pub fn save_ppm(frame: &Nv12Frame) -> (bytes: Vec<u8>)
    requires
        frame.luma_len() <= usize::MAX,
        frame.width * frame.height * 3 + 32 <= usize::MAX,
    ensures
        bytes@ == encode_utf8(ppm_header(frame.width, frame.height)) + ppm_pixels(*frame),
{
    let ghost area = frame.width * frame.height;
    assert(0 <= area) by (nonlinear_arith)
        requires
            area == frame.width * frame.height,
    ;
    let count: usize = frame.width as usize * frame.height as usize;
    let mut pixels: Vec<u32> = vec![0u32; count];
    frame.blit_fit(pixels.as_mut_slice(), frame.width, frame.height, 0);
    let mut header = "P6\n".to_owned();
    header.append(decimal(frame.width as u64).as_str());
    header.append(" ");
    header.append(decimal(frame.height as u64).as_str());
    header.append("\n255\n");
    let mut bytes: Vec<u8> = Vec::new();
    bytes.extend_from_slice(header.as_str().as_bytes());
    let ghost head = bytes@;
    let ghost all = ppm_pixels(*frame);
    assert(head + all.take(0) =~= head);
    let mut i: usize = 0;
    while i < count
        invariant
            i <= count,
            count == area,
            area == frame.width * frame.height,
            pixels@.len() == count,
            all == ppm_pixels(*frame),
            all.len() == 3 * count,
            forall|j: int|
                0 <= j < count ==> #[trigger] pixels@[j] == frame.pixel_at(
                    frame.width as int,
                    frame.height as int,
                    0,
                    j / frame.width as int,
                    j % frame.width as int,
                ),
            bytes@ == head + all.take(3 * i),
        decreases count - i,
    {
        let pixel: u32 = pixels[i];
        proof {
            assert(frame.width > 0 && frame.height > 0) by (nonlinear_arith)
                requires
                    0 < frame.width * frame.height,
            ;
            pixel_of_a_whole_picture(*frame, i as int);
            assert(all[3 * i] == channel_of(pixel as int, 0));
            assert(all[3 * i + 1] == channel_of(pixel as int, 1));
            assert(all[3 * i + 2] == channel_of(pixel as int, 2));
        }
        bytes.push((pixel / 0x1_0000 % 256) as u8);
        bytes.push((pixel / 0x100 % 256) as u8);
        bytes.push((pixel % 256) as u8);
        i += 1;
        assert(bytes@ =~= head + all.take(3 * i));
    }
    assert(all.take(3 * i) =~= all);
    bytes
}

/// The codec, spelled the way people write it.
pub open spec fn spoken_name(codec: Codec) -> Seq<char> {
    match codec {
        Codec::H264 => "H.264"@,
        Codec::Hevc => "HEVC"@,
    }
}

/// The codec, spelled the way people write it.
pub fn spoken(codec: Codec) -> (name: &'static str)
    ensures
        name@ == spoken_name(codec),
{
    match codec {
        Codec::H264 => "H.264",
        Codec::Hevc => "HEVC",
    }
}

/// After a description of the stream that names a codec we know, the format is that codec and that
/// size, whatever it was before. Where any of the three differs from before, no decoder is left
/// running, and the phone is asked for a keyframe unless it was asked within the last second;
/// where none does, nothing changes.
pub proof fn descriptions_are_taken_at_their_word(
    pipeline: Pipeline,
    config: StreamConfig,
    now: u64,
    codec: Codec,
)
    requires
        Codec::named(config.codec@) == Some(codec),
    ensures
        ({
            let after = pipeline.after_config(config, now);
            let outcome = pipeline.config_outcome(config, now);
            let same = pipeline.format is Some && pipeline.format->0.codec == codec
                && pipeline.format->0.width == config.w && pipeline.format->0.height == config.h;
            &&& after.format is Some
            &&& after.format->0.codec == codec
            &&& after.format->0.width == config.w
            &&& after.format->0.height == config.h
            &&& same ==> after == pipeline && outcome == Reconfigured::Same
            &&& !same ==> {
                &&& !after.decoding
                &&& outcome matches Reconfigured::Changed { format, ask } && after.format == Some(
                    format,
                ) && (ask <==> pipeline.phone && match pipeline.asked_for_keyframe {
                    Some(when) => now >= when + 1_000_000_000,
                    None => true,
                })
            }
        }),
{
}

/// A description that names no codec we know changes nothing, and no other is said to.
pub proof fn unknown_codecs_change_nothing(pipeline: Pipeline, config: StreamConfig, now: u64)
    ensures
        pipeline.config_outcome(config, now) == Reconfigured::UnknownCodec <==> Codec::named(
            config.codec@,
        ) is None,
        Codec::named(config.codec@) is None ==> pipeline.after_config(config, now) == pipeline,
{
}

/// While a decoder runs, every access unit goes to it, keyframe or not, and nobody is asked for
/// anything. An access unit is dropped only where none runs, and then only if it is no keyframe or
/// the format is unknown; a keyframe of a known format starts a decoder for that format.
pub proof fn running_decoders_are_fed(pipeline: Pipeline, keyframe: bool, now: u64)
    ensures
        pipeline.video_step(keyframe, now) == VideoStep::Decode <==> pipeline.decoding,
        pipeline.video_step(keyframe, now) is Drop <==> !pipeline.decoding && (!keyframe
            || pipeline.format is None),
        pipeline.video_step(keyframe, now) is Build <==> !pipeline.decoding && keyframe
            && pipeline.format is Some,
        pipeline.video_step(keyframe, now) matches VideoStep::Build(format)
            ==> pipeline.format == Some(format),
        pipeline.decoding || keyframe ==> pipeline.after_video(keyframe, now) == pipeline,
        pipeline.after_video(keyframe, now).decoding == pipeline.decoding,
        pipeline.after_video(keyframe, now).format == pipeline.format,
{
}

/// Whether the phone may be asked for a keyframe: there is one, and it was not asked within the
/// last second.
pub open spec fn may_be_asked(phone: bool, asked: Option<u64>, now: u64) -> bool {
    phone && (asked matches Some(when) ==> now >= when + 1_000_000_000)
}

/// A phone is hurried along wherever a keyframe is wanted and it may be asked: over a picture that
/// no decoder can start with, over a new format, and over a decoder that gave up; and over
/// nothing else. The moment is then remembered.
pub proof fn phones_are_hurried_along(pipeline: Pipeline, happening: Happening, now: u64)
    ensures
        ({
            let wanted = match happening {
                Happening::Event(ServerEvent::Video { keyframe, .. }) => !pipeline.decoding
                    && !keyframe,
                Happening::Event(ServerEvent::StreamConfig { config, .. }) => pipeline.after(
                    happening,
                    now,
                ).format != pipeline.format,
                Happening::Decoded(outcome) => outcome == Decoded::Failed,
                _ => false,
            };
            let may = may_be_asked(pipeline.phone, pipeline.asked_for_keyframe, now);
            &&& pipeline.asks_over(happening, now) <==> wanted && may
            &&& pipeline.after(happening, now).asked_for_keyframe == if wanted && may {
                Some(now)
            } else {
                pipeline.asked_for_keyframe
            }
        }),
{
}

/// How often the phone may be asked and the statistics are printed.
pub proof fn a_second_and_two()
    ensures
        KEYFRAME_EVERY == 1_000_000_000,
        REPORT_EVERY == 2_000_000_000,
{
}

/// A phone that is let in is taken at its word: the format is the codec it names and the size it
/// gives, or unknown where it names no codec we know. No decoder runs, the phone is there to be
/// asked, counting starts over, and nothing else changes.
pub proof fn phones_are_taken_at_their_word(pipeline: Pipeline, hello: Hello, now: u64)
    ensures
        ({
            let after = pipeline.after_start(hello, now);
            &&& !after.decoding
            &&& after.phone
            &&& after.format is Some <==> Codec::named(hello.codec@) is Some
            &&& after.format matches Some(format) ==> Codec::named(hello.codec@) == Some(
                format.codec,
            ) && format.width == hello.w && format.height == hello.h
            &&& after.asked_for_keyframe == pipeline.asked_for_keyframe
            &&& after.save_frame == pipeline.save_frame
            &&& after.frame_saved == pipeline.frame_saved
            &&& after.stats.frames == 0 && after.stats.keyframes == 0 && after.stats.bytes == 0
            &&& after.stats.since == now
        }),
{
}

/// After a session no decoder runs, nobody is there to be asked, counting starts over, and nothing
/// else changes.
pub proof fn nothing_runs_after_a_session(pipeline: Pipeline, now: u64)
    ensures
        ({
            let after = pipeline.after_end(now);
            &&& !after.decoding
            &&& !after.phone
            &&& after.format == pipeline.format
            &&& after.asked_for_keyframe == pipeline.asked_for_keyframe
            &&& after.save_frame == pipeline.save_frame
            &&& after.frame_saved == pipeline.frame_saved
            &&& after.stats.frames == 0 && after.stats.keyframes == 0 && after.stats.bytes == 0
            &&& after.stats.since == now
        }),
{
}

/// A pipeline begins with nothing running, nothing known and nobody there.
pub proof fn a_pipeline_begins_with_nothing(save_frame: bool, now: u64)
    ensures
        ({
            let new = Pipeline::idle(save_frame, now);
            &&& !new.decoding
            &&& new.format is None
            &&& !new.phone
            &&& new.asked_for_keyframe is None
            &&& new.save_frame == save_frame
            &&& !new.frame_saved
            &&& new.stats.frames == 0 && new.stats.keyframes == 0 && new.stats.bytes == 0
            &&& new.stats.since == now
        }),
{
}

/// Every picture is shown, the first one is kept where one is to be kept, and the decoder goes on;
/// a decoder that gave up is let go of; and where nothing came out, nothing happens.
pub proof fn pictures_are_shown(pipeline: Pipeline, outcome: Decoded, now: u64)
    ensures
        pipeline.decode_outcome(outcome, now).show <==> outcome == Decoded::Picture,
        pipeline.decode_outcome(outcome, now).save <==> outcome == Decoded::Picture
            && pipeline.save_frame && !pipeline.frame_saved,
        pipeline.decode_outcome(outcome, now).drop_decoder <==> outcome == Decoded::Failed,
        pipeline.after_decoded(outcome, now).decoding <==> pipeline.decoding && outcome
            != Decoded::Failed,
        pipeline.after_decoded(outcome, now).frame_saved <==> pipeline.frame_saved || (
        pipeline.save_frame && outcome == Decoded::Picture),
        pipeline.after_decoded(outcome, now).format == pipeline.format,
        pipeline.after_decoded(outcome, now).phone == pipeline.phone,
        pipeline.after_decoded(outcome, now).save_frame == pipeline.save_frame,
        pipeline.after_decoded(outcome, now).stats == pipeline.stats,
        outcome == Decoded::Nothing ==> pipeline.after_decoded(outcome, now) == pipeline,
{
}

/// A decoder runs after it was to be started just where it did start, and nothing else changes.
pub proof fn decoders_run_where_they_started(pipeline: Pipeline, started: bool)
    ensures
        pipeline.after_built(started).decoding == started,
        pipeline.after_built(started).format == pipeline.format,
        pipeline.after_built(started).phone == pipeline.phone,
        pipeline.after_built(started).asked_for_keyframe == pipeline.asked_for_keyframe,
        pipeline.after_built(started).save_frame == pipeline.save_frame,
        pipeline.after_built(started).frame_saved == pipeline.frame_saved,
        pipeline.after_built(started).stats == pipeline.stats,
{
}

/// A picture is kept where one is to be kept: the first that comes out of any decoder.
pub proof fn the_first_picture_is_kept(start: Pipeline, history: Seq<(Happening, u64)>, now: u64)
    requires
        start.save_frame,
        !start.frame_saved,
        forall|i: int|
            0 <= i < history.len() ==> (#[trigger] history[i]).0 != Happening::Decoded(
                Decoded::Picture,
            ),
    ensures
        start.after_all(history).decode_outcome(Decoded::Picture, now).save,
        start.after_all(history).save_frame,
        !start.after_all(history).frame_saved,
    decreases history.len(),
{
    if history.len() > 0 {
        let before = history.drop_last();
        assert forall|i: int| 0 <= i < before.len() implies (#[trigger] before[i]).0
            != Happening::Decoded(Decoded::Picture) by {
            assert(before[i] == history[i]);
        }
        the_first_picture_is_kept(start, before, now);
        assert(history.last() == history[history.len() - 1]);
    }
}

/// Statistics add up: one more access unit, one more keyframe if it is one, and its bytes, since
/// the same moment.
pub proof fn statistics_add_up(stats: Stats, bytes: nat, keyframe: bool)
    requires
        stats.has_room(bytes),
    ensures
        stats.counted(bytes, keyframe).frames == stats.frames + 1,
        stats.counted(bytes, keyframe).keyframes - stats.keyframes == if keyframe {
            1int
        } else {
            0
        },
        stats.counted(bytes, keyframe).bytes == stats.bytes + bytes,
        stats.counted(bytes, keyframe).since == stats.since,
{
}

/// Every access unit is counted, whatever becomes of it; nothing else is.
pub proof fn every_access_unit_is_counted(
    pipeline: Pipeline,
    pts_us: u64,
    keyframe: bool,
    data: Vec<u8>,
    now: u64,
)
    requires
        pipeline.stats.has_room(data@.len()),
    ensures
        ({
            let event = ServerEvent::Video { pts_us, keyframe, data };
            let after = pipeline.after_event(event, now).stats;
            &&& after.frames == pipeline.stats.frames + 1
            &&& after.keyframes - pipeline.stats.keyframes == if keyframe {
                1int
            } else {
                0
            }
            &&& after.bytes == pipeline.stats.bytes + data@.len()
            &&& after.since == pipeline.stats.since
        }),
{
}

/// A report is due once two seconds have passed since the last one. It gives the time that passed
/// and what came in over it; where nothing came in, or no time passed, there is none.
pub proof fn reports_tell_what_came_in(stats: Stats, now: u64)
    ensures
        stats.is_due(now) <==> now >= stats.since + 2_000_000_000,
        stats.tally(now) is Some <==> stats.frames > 0 && now > stats.since,
        stats.tally(now) matches Some(tally) ==> {
            &&& stats.since + tally.nanoseconds == now
            &&& tally.frames == stats.frames
            &&& tally.keyframes == stats.keyframes
            &&& tally.bytes == stats.bytes
        },
{
}

/// What an event carries is handed on as it came: the access unit with its timestamp, the reason
/// of an end or of a refusal, and the phone's statistics.
pub proof fn events_are_handed_on(action: Action, event: ServerEvent, pipeline: Pipeline, now: u64)
    requires
        action.is_for(event, pipeline, now),
    ensures
        event matches ServerEvent::Video { keyframe, data, pts_us } ==> {
            &&& action is Video
            &&& action->Video_data == data
            &&& action->Video_pts_us == pts_us
            &&& action->Video_step == pipeline.video_step(keyframe, now)
        },
        event matches ServerEvent::StreamConfig { config, .. } ==> {
            &&& action is Reconfigured
            &&& action->Reconfigured_0 == pipeline.config_outcome(config, now)
        },
        event matches ServerEvent::SessionStarted { hello, .. } ==> {
            &&& action is Streaming
            &&& action->device@ == device_text(hello)
        },
        event matches ServerEvent::SessionEnded { reason, .. } ==> {
            &&& action is Idle
            &&& action->Idle_reason == reason
        },
        event matches ServerEvent::Stats { json, .. } ==> {
            &&& action is PhoneStats
            &&& action->json == json
        },
        event matches ServerEvent::Refused { peer, reason } ==> {
            &&& action is TurnedAway
            &&& action->TurnedAway_peer == peer
            &&& action->TurnedAway_reason == reason
        },
        event is Log ==> action is Nothing,
{
}

/// A log line, a refusal and the phone's statistics leave the pipeline alone.
pub proof fn words_leave_the_stream_alone(pipeline: Pipeline, event: ServerEvent, now: u64)
    requires
        event is Log || event is Refused || event is Stats,
    ensures
        pipeline.after_event(event, now) == pipeline,
{
}

/// A streaming phone is named by its name and the end of its id: the name without the space around
/// it, a space, and in brackets the last eight characters of the id in capitals.
pub proof fn devices_show_name_and_id(
    hello: Hello,
    before: Seq<char>,
    name: Seq<char>,
    after: Seq<char>,
    front: Seq<char>,
    end: Seq<char>,
)
    requires
        hello.name@ == before + name + after,
        forall|i: int| 0 <= i < before.len() ==> is_white(#[trigger] before[i]),
        forall|i: int| 0 <= i < after.len() ==> is_white(#[trigger] after[i]),
        name.len() > 0,
        !is_white(name[0]) && !is_white(name.last()),
        hello.id@ == front + end,
        end.len() == 8,
    ensures
        device_text(hello) == name + seq![' ', '('] + upper(end) + seq![')'],
{
    phones_go_by_their_names(before, name, after);
    ids_are_shown_by_their_end(front, end);
    reveal_strlit(" (");
    reveal_strlit(")");
    assert(" ("@ =~= seq![' ', '(']);
    assert(")"@ =~= seq![')']);
}

/// A picture file says that it is one, its width and its height in decimal, and that a channel goes
/// up to 255.
pub proof fn picture_files_say_their_size(width: u32, height: u32)
    ensures
        ppm_header(width, height) == seq!['P', '6', '\n'] + decimal_text(width as nat) + seq![' ']
            + decimal_text(height as nat) + seq!['\n', '2', '5', '5', '\n'],
{
    reveal_strlit("P6\n");
    reveal_strlit(" ");
    reveal_strlit("\n255\n");
    assert("P6\n"@ =~= seq!['P', '6', '\n']);
    assert(" "@ =~= seq![' ']);
    assert("\n255\n"@ =~= seq!['\n', '2', '5', '5', '\n']);
}

/// A picture file holds the picture row by row, three bytes for each pixel, and those are its red,
/// its green and its blue: put together again they are the pixel.
pub proof fn picture_files_hold_the_picture(frame: Nv12Frame, row: int, col: int)
    requires
        0 <= row < frame.height,
        0 <= col < frame.width,
    ensures
        ppm_pixels(frame).len() == 3 * (frame.width * frame.height),
        ({
            let at = 3 * (row * frame.width + col);
            let bytes = ppm_pixels(frame);
            &&& 0 <= at
            &&& at + 3 <= bytes.len()
            &&& bytes[at] * 0x1_0000 + bytes[at + 1] * 0x100 + bytes[at + 2] == frame.colour_at(
                col,
                row,
            )
        }),
{
    let w = frame.width as int;
    let h = frame.height as int;
    let i = row * w + col;
    assert(0 <= row * w && i < w * h) by (nonlinear_arith)
        requires
            0 <= row < h,
            0 <= col < w,
            i == row * w + col,
    ;
    assert(frame.width * frame.height * 3 == 3 * (w * h));
    let bytes = ppm_pixels(frame);
    let at = 3 * i;
    let pixel = frame.colour_at(col, row);
    three_bytes_for_a_pixel(i, w, row, col);
    assert(bytes[at] == channel_of(pixel, 0));
    assert(bytes[at + 1] == channel_of(pixel, 1));
    assert(bytes[at + 2] == channel_of(pixel, 2));
    colours_take_three_bytes(frame, col, row);
    channels_make_up_the_pixel(pixel);
}

proof fn three_bytes_for_a_pixel(i: int, w: int, row: int, col: int)
    requires
        0 <= row,
        0 <= col < w,
        i == row * w + col,
    ensures
        (3 * i) / 3 == i && (3 * i) % 3 == 0,
        (3 * i + 1) / 3 == i && (3 * i + 1) % 3 == 1,
        (3 * i + 2) / 3 == i && (3 * i + 2) % 3 == 2,
        i / w == row,
        i % w == col,
{
    vstd::arithmetic::div_mod::lemma_fundamental_div_mod_converse(i, w, row, col);
}

proof fn colours_take_three_bytes(frame: Nv12Frame, sx: int, sy: int)
    ensures
        0 <= frame.colour_at(sx, sy) <= 0xFF_FFFF,
{
    let pair = (sy / 2) * frame.stride + (sx - sx % 2);
    colours_are_0rgb(
        byte_or(frame.luma_plane(), sy * frame.stride + sx, 16),
        byte_or(frame.colour_plane(), pair, 128),
        byte_or(frame.colour_plane(), pair + 1, 128),
    );
}

proof fn channels_make_up_the_pixel(pixel: int)
    requires
        0 <= pixel <= 0xFF_FFFF,
    ensures
        channel_of(pixel, 0) * 0x1_0000 + channel_of(pixel, 1) * 0x100 + channel_of(pixel, 2)
            == pixel,
{
}

/// The codecs are spelled H.264 and HEVC.
pub proof fn codecs_are_spelled_as_people_do()
    ensures
        spoken_name(Codec::H264) == seq!['H', '.', '2', '6', '4'],
        spoken_name(Codec::Hevc) == seq!['H', 'E', 'V', 'C'],
{
    reveal_strlit("H.264");
    reveal_strlit("HEVC");
    assert("H.264"@ =~= seq!['H', '.', '2', '6', '4']);
    assert("HEVC"@ =~= seq!['H', 'E', 'V', 'C']);
}

/// There is room for one more access unit as long as the counters do not run over; a fresh count
/// has room for anything, and counting never makes the keyframes more than the frames.
pub proof fn counters_have_room(stats: Stats, bytes: nat, keyframe: bool, now: u64)
    ensures
        stats.has_room(bytes) <==> stats.keyframes <= stats.frames && stats.frames < 0xFFFF_FFFF
            && stats.bytes + bytes <= 0xFFFF_FFFF_FFFF_FFFF,
        bytes <= 0xFFFF_FFFF_FFFF_FFFF ==> Stats::fresh(now).has_room(bytes),
        stats.has_room(bytes) ==> stats.counted(bytes, keyframe).keyframes <= stats.counted(
            bytes,
            keyframe,
        ).frames,
{
}

} // verus!
