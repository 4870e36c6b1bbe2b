//! The streaming audio decode engine.
//!
//! The engine turns a probed container into a continuous stream of PCM
//! samples.  It is written as a state machine over plain data: the caller
//! (the unverified shell that owns the demuxer and the codec) reads packets
//! and decodes them, and hands every observation to the methods here, which
//! make all decisions: which track to decode, which packets to discard
//! after a coarse seek, how to reuse the sample buffer, when to emit title
//! events, and what a pull of the next sample returns.
//!
//! Every transition is mirrored by a spec-level function over
//! [`SymphoniaModel`], so that properties about whole decode runs (error
//! recovery, seek precision, buffer reuse, end-of-stream idempotence) can be
//! stated and proved over sequences of transitions.

use vstd::prelude::*;

verus! {

/// A title event for the "now playing" consumer.
#[derive(Debug, Clone, PartialEq)]
pub enum MediaTitleType {
    /// Command to instruct storage to clear / reset
    Reset,
    /// Command to provide a new value
    Value(String),
}

/// Spec-level image of a [`MediaTitleType`] value.
pub enum TitleEvent {
    Reset,
    Value(Seq<char>),
}

impl View for MediaTitleType {
    type V = TitleEvent;

    open spec fn view(&self) -> TitleEvent {
        match self {
            MediaTitleType::Reset => TitleEvent::Reset,
            MediaTitleType::Value(s) => TitleEvent::Value(s@),
        }
    }
}

/// Error that can happen when creating a decoder.
#[derive(Debug, Clone)]
pub enum SymphoniaDecoderError {
    /// The format of the data has not been recognized.
    UnrecognizedFormat,
    /// An IO error occured while reading, writing, or seeking the stream.
    IoError(String),
    /// The stream contained malformed data and could not be decoded or demuxed.
    DecodeError(String),
    /// A default or user-defined limit was reached while decoding or demuxing
    /// the stream.  Limits are used to prevent denial-of-service attacks from
    /// malicious streams.
    LimitError(String),
    /// The demuxer or decoder needs to be reset before continuing.
    ResetRequired,
    /// No streams were found by the decoder.
    NoStreams,
}

impl SymphoniaDecoderError {
    /// The error as display text.
    pub fn message(&self) -> (r: String)
        ensures
            r@ == (match self {
                SymphoniaDecoderError::UnrecognizedFormat => "Unrecognized format"@,
                SymphoniaDecoderError::IoError(m) => m@,
                SymphoniaDecoderError::DecodeError(m) => m@,
                SymphoniaDecoderError::LimitError(m) => m@,
                SymphoniaDecoderError::ResetRequired => "Reset required"@,
                SymphoniaDecoderError::NoStreams => "No streams"@,
            }),
    {
        match self {
            SymphoniaDecoderError::UnrecognizedFormat => String::from_str("Unrecognized format"),
            SymphoniaDecoderError::IoError(m) => m.clone(),
            SymphoniaDecoderError::DecodeError(m) => m.clone(),
            SymphoniaDecoderError::LimitError(m) => m.clone(),
            SymphoniaDecoderError::ResetRequired => String::from_str("Reset required"),
            SymphoniaDecoderError::NoStreams => String::from_str("No streams"),
        }
    }
}

/// An error reported by the demux/decode layer, as plain data.
///
/// The shell that owns the demuxer maps the library-specific error value
/// onto this enum, one variant for one variant, before handing it in.
#[derive(Debug, Clone)]
pub enum DemuxError {
    IoError(String),
    DecodeError(String),
    SeekError(String),
    Unsupported(String),
    LimitError(String),
    ResetRequired,
}

/// What the engine reads of a codec: whether the track is decodable audio
/// at all, and whether it belongs to the family that needs a decoder reset
/// after seeking.
#[derive(Debug, Clone, Copy, PartialEq, Eq, Structural)]
pub enum CodecKind {
    /// The sentinel "null" codec, or no audio codec parameters at all.
    Null,
    /// The common lossy codec family whose decoders must be reset after a
    /// seek.
    Mp3,
    /// Any other decodable audio codec.
    OtherAudio,
}

/// A track's time base: each timestamp tick spans `numer / denom` seconds.
#[derive(Debug, Clone, Copy, PartialEq, Eq, Structural)]
pub struct TimeBase {
    pub numer: u32,
    pub denom: u32,
}

impl TimeBase {
    pub open spec fn wf(self) -> bool {
        self.denom > 0
    }
}

/// What the engine reads of a probed track.
#[derive(Debug, Clone)]
pub struct TrackMeta {
    /// The container-assigned track id, carried by every packet.
    pub id: u32,
    /// The track's codec, classified.
    pub codec: CodecKind,
    /// The track's time base, if the container declares one.
    pub time_base: Option<TimeBase>,
    /// The track's total frame count, if the container declares one.
    pub n_frames: Option<u64>,
}

impl TrackMeta {
    pub open spec fn wf(self) -> bool {
        match self.time_base {
            Some(tb) => tb.wf(),
            None => true,
        }
    }
}

/// Whether a track is tagged with the sentinel "null codec" (used by some
/// containers for non-decodable or video-only slots), or carries no audio
/// codec parameters at all.
pub fn is_codec_null(track: &TrackMeta) -> (r: bool)
    ensures
        r == (track.codec is Null),
{
    matches!(track.codec, CodecKind::Null)
}

/// The least index of a decodable audio track at or after `i`, in container
/// order.
pub open spec fn first_audio_from(tracks: Seq<TrackMeta>, i: int) -> Option<int>
    decreases tracks.len() - i,
{
    if i < 0 || i >= tracks.len() {
        None
    } else if !(tracks[i].codec is Null) {
        Some(i)
    } else {
        first_audio_from(tracks, i + 1)
    }
}

/// The track the selector must pick: the container's default audio track,
/// unless that one is null-codec or absent, in which case the first
/// decodable audio track in container order; `None` if there is none.
pub open spec fn select_track_spec(tracks: Seq<TrackMeta>, default_track: Option<int>) -> Option<
    int,
> {
    match default_track {
        Some(d) => if 0 <= d < tracks.len() && !(tracks[d].codec is Null) {
            Some(d)
        } else {
            first_audio_from(tracks, 0)
        },
        None => first_audio_from(tracks, 0),
    }
}

/// Select exactly one audio track of a probed container to decode, or
/// report that none is usable.
///
/// The container's designated default audio track is preferred, unless its
/// codec is the sentinel null codec; in that case, or when there is no
/// default, the tracks are scanned in container order for the first one
/// whose codec is decodable audio.
pub fn select_track(tracks: &Vec<TrackMeta>, default_track: Option<usize>) -> (r: Option<usize>)
    requires
        match default_track {
            Some(d) => d < tracks.len(),
            None => true,
        },
    ensures
        match r {
            Some(i) => {
                &&& Some(i as int) == select_track_spec(
                    tracks@,
                    match default_track {
                        Some(d) => Some(d as int),
                        None => None,
                    },
                )
                &&& i < tracks.len()
                &&& !(tracks@[i as int].codec is Null)
            },
            None => {
                &&& select_track_spec(
                    tracks@,
                    match default_track {
                        Some(d) => Some(d as int),
                        None => None,
                    },
                ) is None
                &&& forall|j: int| 0 <= j < tracks.len() ==> tracks@[j].codec is Null
            },
        },
{
    let ghost dflt: Option<int> = match default_track {
        Some(d) => Some(d as int),
        None => None,
    };
    if let Some(d) = default_track {
        if !is_codec_null(&tracks[d]) {
            return Some(d);
        }
    }
    proof {
        assert(select_track_spec(tracks@, dflt) == first_audio_from(tracks@, 0));
    }
    let mut i: usize = 0;
    while i < tracks.len()
        invariant
            i <= tracks.len(),
            select_track_spec(tracks@, dflt) == first_audio_from(tracks@, i as int),
            dflt == (match default_track {
                Some(d) => Some(d as int),
                None => None::<int>,
            }),
            forall|j: int| 0 <= j < i ==> tracks@[j].codec is Null,
        decreases tracks.len() - i,
    {
        if !is_codec_null(&tracks[i]) {
            proof {
                assert(first_audio_from(tracks@, i as int) == Some(i as int));
            }
            return Some(i);
        }
        i = i + 1;
    }
    None
}

/// The position, in nanoseconds, of a (mathematical) timestamp under time
/// base `tb`.
pub open spec fn time_nanos_int(tb: TimeBase, ts: int) -> int {
    (ts * 1_000_000_000 * tb.numer) / (tb.denom as int)
}

/// The position, in nanoseconds, of timestamp `ts` under time base `tb`.
pub open spec fn time_nanos_spec(tb: TimeBase, ts: u64) -> int {
    time_nanos_int(tb, ts as int)
}

/// Convert a track timestamp to nanoseconds under the given time base.
pub fn calc_time_nanos(tb: &TimeBase, ts: u64) -> (r: u128)
    requires
        tb.wf(),
    ensures
        r == time_nanos_spec(*tb, ts),
{
    proof {
        assert((ts as int) * 1_000_000_000 * (tb.numer as int) < 0x1_0000_0000_0000_0000_0000_0000_0000_0000int)
            by (nonlinear_arith)
            requires
                ts <= u64::MAX,
                tb.numer <= u32::MAX,
        ;
        assert((ts as int) * 1_000_000_000 * (tb.numer as int) >= 0) by (nonlinear_arith);
        assert((ts as int) * 1_000_000_000 * (tb.numer as int) / (tb.denom as int) <= (ts as int)
            * 1_000_000_000 * (tb.numer as int)) by (nonlinear_arith)
            requires
                tb.denom > 0,
                (ts as int) * 1_000_000_000 * (tb.numer as int) >= 0,
        ;
    }
    (ts as u128) * 1_000_000_000u128 * (tb.numer as u128) / (tb.denom as u128)
}

/// The nanosecond position never decreases as the timestamp grows.
pub proof fn lemma_time_nanos_monotone(tb: TimeBase, a: int, b: int)
    requires
        tb.wf(),
        a <= b,
    ensures
        time_nanos_int(tb, a) <= time_nanos_int(tb, b),
{
    assert(a * 1_000_000_000 * (tb.numer as int) <= b * 1_000_000_000 * (tb.numer as int))
        by (nonlinear_arith)
        requires
            a <= b,
    ;
    vstd::arithmetic::div_mod::lemma_div_is_ordered(
        a * 1_000_000_000 * (tb.numer as int),
        b * 1_000_000_000 * (tb.numer as int),
        tb.denom as int,
    );
}

/// The total duration owed by a track: known exactly when both the frame
/// count and the time base are known, unknown otherwise (not an error).
pub open spec fn duration_spec(track: TrackMeta) -> Option<int> {
    match (track.n_frames, track.time_base) {
        (Some(n), Some(tb)) => Some(time_nanos_spec(tb, n)),
        _ => None,
    }
}

/// Compute the total duration in nanoseconds from a track's frame count and
/// time base, if both are present; otherwise the duration is unknown.
pub fn get_duration(track: &TrackMeta) -> (r: Option<u128>)
    requires
        track.wf(),
    ensures
        match r {
            Some(n) => duration_spec(*track) == Some(n as int),
            None => duration_spec(*track) is None,
        },
{
    match (track.n_frames, track.time_base) {
        (Some(n), Some(tb)) => Some(calc_time_nanos(&tb, n)),
        _ => None,
    }
}

/// Spec-level image of a [`SampleBuffer`]: its logical contents, the size
/// of its backing storage, and how many allocations it has made.
pub struct BufferModel {
    /// The samples currently held, in interleaved order.
    pub contents: Seq<i16>,
    /// The length of the backing storage; contents occupy a prefix of it.
    pub capacity: nat,
    /// The frame count of the held segment.
    pub frame_len: nat,
    /// How many times backing storage has been allocated so far.
    pub allocs: nat,
}

/// What one segment write does to a buffer: when the segment fits in the
/// existing storage the storage is overwritten in place, otherwise fresh
/// storage sized exactly to the segment replaces it, counting one
/// allocation.
pub open spec fn buffer_write_spec(b: BufferModel, samples: Seq<i16>, frames: nat) -> BufferModel {
    if samples.len() <= b.capacity {
        BufferModel { contents: samples, frame_len: frames, ..b }
    } else {
        BufferModel {
            contents: samples,
            capacity: samples.len(),
            frame_len: frames,
            allocs: b.allocs + 1,
        }
    }
}

/// A buffer with its logical contents emptied but its storage kept.
pub open spec fn buffer_clear_spec(b: BufferModel) -> BufferModel {
    BufferModel { contents: Seq::empty(), ..b }
}

/// The engine's working sample buffer: a flat interleaved sequence of
/// fixed-width signed samples plus a frame count.  Backing storage is
/// reallocated only when the required capacity exceeds the current one,
/// otherwise it is overwritten in place.
#[derive(Debug)]
pub struct SampleBuffer {
    pub data: Vec<i16>,
    pub sample_len: usize,
    pub frame_len: usize,
    pub allocs: u64,
}

impl View for SampleBuffer {
    type V = BufferModel;

    open spec fn view(&self) -> BufferModel {
        BufferModel {
            contents: self.data@.subrange(0, self.sample_len as int),
            capacity: self.data@.len(),
            frame_len: self.frame_len as nat,
            allocs: self.allocs as nat,
        }
    }
}

impl SampleBuffer {
    pub open spec fn wf(self) -> bool {
        self.sample_len <= self.data@.len()
    }

    /// A buffer that holds nothing and has made no allocation yet.
    pub fn new() -> (r: Self)
        ensures
            r.wf(),
            r@ == (BufferModel { contents: Seq::<i16>::empty(), capacity: 0, frame_len: 0, allocs: 0 }),
    {
        let r = SampleBuffer { data: Vec::new(), sample_len: 0, frame_len: 0, allocs: 0 };
        proof {
            assert(r@.contents =~= Seq::<i16>::empty());
        }
        r
    }

    /// How many samples the held segment has.
    pub fn len(&self) -> (r: usize)
        requires
            self.wf(),
        ensures
            r == self@.contents.len(),
    {
        self.sample_len
    }

    /// The frame count of the held segment.
    pub fn frame_len(&self) -> (r: usize)
        ensures
            r == self@.frame_len,
    {
        self.frame_len
    }

    /// How many allocations of backing storage this buffer has made.
    pub fn alloc_count(&self) -> (r: u64)
        ensures
            r == self@.allocs,
    {
        self.allocs
    }

    /// The sample at position `i` of the held segment.
    pub fn sample_at(&self, i: usize) -> (r: i16)
        requires
            self.wf(),
            i < self@.contents.len(),
        ensures
            r == self@.contents[i as int],
    {
        self.data[i]
    }

    /// Copy one decoded segment into the buffer with minimal allocation:
    /// overwrite the existing storage when its capacity suffices (this also
    /// covers a spec change that shrinks the segment), otherwise allocate
    /// fresh storage sized to the segment.
    pub fn maybe_reuse_buffer(&mut self, samples: &Vec<i16>, frames: usize)
        requires
            old(self).wf(),
            old(self).allocs < u64::MAX,
        ensures
            final(self).wf(),
            final(self)@ == buffer_write_spec(old(self)@, samples@, frames as nat),
    {
        let required: usize = samples.len();
        if required <= self.data.len() {
            let mut i: usize = 0;
            while i < required
                invariant
                    i <= required,
                    required <= self.data@.len(),
                    required == samples@.len(),
                    self.data@.len() == old(self).data@.len(),
                    self.sample_len == old(self).sample_len,
                    self.frame_len == old(self).frame_len,
                    self.allocs == old(self).allocs,
                    forall|j: int| 0 <= j < i ==> self.data@[j] == samples@[j],
                decreases required - i,
            {
                let v = samples[i];
                self.data.set(i, v);
                i = i + 1;
            }
            self.sample_len = required;
            self.frame_len = frames;
            proof {
                assert(self@.contents =~= samples@);
                assert(self@ =~= buffer_write_spec(old(self)@, samples@, frames as nat));
            }
        } else {
            let mut fresh: Vec<i16> = Vec::with_capacity(required);
            let mut i: usize = 0;
            while i < required
                invariant
                    i <= required,
                    required == samples@.len(),
                    fresh@.len() == i,
                    forall|j: int| 0 <= j < i ==> fresh@[j] == samples@[j],
                decreases required - i,
            {
                let v = samples[i];
                fresh.push(v);
                i = i + 1;
            }
            self.data = fresh;
            self.sample_len = required;
            self.frame_len = frames;
            self.allocs = self.allocs + 1;
            proof {
                assert(self@.contents =~= samples@);
                assert(self@ =~= buffer_write_spec(old(self)@, samples@, frames as nat));
            }
        }
    }

    /// Drop the logical contents, keeping the storage and the allocation
    /// count.  The frame count of the last segment is kept as well.
    pub fn clear(&mut self)
        requires
            old(self).wf(),
        ensures
            final(self).wf(),
            final(self)@ == buffer_clear_spec(old(self)@),
    {
        self.sample_len = 0;
        proof {
            assert(self@.contents =~= Seq::<i16>::empty());
            assert(self@ =~= buffer_clear_spec(old(self)@));
        }
    }
}

/// Writing a segment of equal or smaller size than the current storage
/// never reallocates; a strictly larger segment triggers exactly one
/// allocation, sized to the segment.  In particular two consecutive writes
/// of non-growing size leave the storage identity untouched.
pub proof fn lemma_buffer_reuse(b: BufferModel, s1: Seq<i16>, f1: nat, s2: Seq<i16>, f2: nat)
    requires
        s2.len() <= s1.len(),
    ensures
        ({
            let b1 = buffer_write_spec(b, s1, f1);
            let b2 = buffer_write_spec(b1, s2, f2);
            &&& b2.capacity == b1.capacity
            &&& b2.allocs == b1.allocs
            &&& (s1.len() > b.capacity ==> b1.allocs == b.allocs + 1 && b1.capacity == s1.len())
            &&& (s1.len() <= b.capacity ==> b1.allocs == b.allocs && b1.capacity == b.capacity)
        }),
{
}

/// What a pull of the next sample returns.
#[derive(Debug, Clone, Copy, PartialEq, Eq, Structural)]
pub enum SampleStep {
    /// The sample under the read cursor; the cursor has advanced by one.
    Sample(i16),
    /// The cursor reached the buffer's logical end: the decode loop must
    /// refill the buffer before the next pull.
    NeedRefill,
    /// End of stream was reached earlier; every further pull returns this.
    Ended,
}

/// The decision for one container packet.
#[derive(Debug, Clone, Copy, PartialEq, Eq, Structural)]
pub enum PacketAction {
    /// The packet belongs to another track, or precedes a pending
    /// seek-skip threshold: discard it and read the next one.
    Skip,
    /// The packet is for the selected track and past any threshold:
    /// decode it.
    Decode,
}

/// Which metadata extraction a freshly decoded segment calls for.
#[derive(Debug, Clone, Copy, PartialEq, Eq, Structural)]
pub enum MetadataTrigger {
    /// No listener is attached: extraction must not run at all.
    NoListener,
    /// The elapsed position is exactly zero (first segment, or a seek back
    /// to the start): re-read the container-level metadata, preceded by a
    /// reset event.
    Container,
    /// Otherwise: check whether the container reports a newer metadata
    /// revision, and read a title from it if so.
    Inline,
}

/// An attempt to seek the underlying container, as plain data.
#[derive(Debug, Clone, Copy)]
pub enum SeekAttempt {
    /// The underlying seek failed: seeking is best-effort, so this is a
    /// no-op from the engine's point of view.
    Failed,
    /// The underlying coarse seek succeeded: it wanted `required_ts` and
    /// landed on `actual_ts`.
    SeekedTo { required_ts: u64, actual_ts: u64 },
}

/// Spec-level image of the whole engine state.
pub struct SymphoniaModel {
    pub buffer: BufferModel,
    pub current_frame_offset: nat,
    pub channels: u16,
    pub rate: u32,
    pub duration: Option<int>,
    pub elapsed: int,
    pub track_id: u32,
    pub time_base: Option<TimeBase>,
    pub seek_required_ts: Option<u64>,
    pub codec: CodecKind,
    pub listener: bool,
    pub ended: bool,
}

impl SymphoniaModel {
    pub open spec fn wf(self) -> bool {
        &&& self.current_frame_offset <= self.buffer.contents.len()
        &&& (match self.time_base {
            Some(tb) => tb.wf(),
            None => true,
        })
    }
}

/// The decode engine for one track of one probed container.
///
/// Exactly one live engine exists per playing track; it owns the working
/// sample buffer and the seek state, while the unverified shell owns the
/// demuxer and the codec and drives the methods below.
#[derive(Debug)]
pub struct Symphonia {
    pub buffer: SampleBuffer,
    pub current_frame_offset: usize,
    pub channels: u16,
    pub rate: u32,
    pub duration: Option<u128>,
    pub elapsed: u128,
    pub track_id: u32,
    pub time_base: Option<TimeBase>,
    pub seek_required_ts: Option<u64>,
    pub codec: CodecKind,
    pub listener: bool,
    pub ended: bool,
}

impl View for Symphonia {
    type V = SymphoniaModel;

    open spec fn view(&self) -> SymphoniaModel {
        SymphoniaModel {
            buffer: self.buffer@,
            current_frame_offset: self.current_frame_offset as nat,
            channels: self.channels,
            rate: self.rate,
            duration: match self.duration {
                Some(d) => Some(d as int),
                None => None,
            },
            elapsed: self.elapsed as int,
            track_id: self.track_id,
            time_base: self.time_base,
            seek_required_ts: self.seek_required_ts,
            codec: self.codec,
            listener: self.listener,
            ended: self.ended,
        }
    }
}

/// The engine state right after construction for `track`, before the first
/// decoded segment has arrived.
pub open spec fn initial_state_spec(track: TrackMeta, media_title: bool) -> SymphoniaModel {
    SymphoniaModel {
        buffer: BufferModel { contents: Seq::empty(), capacity: 0, frame_len: 0, allocs: 0 },
        current_frame_offset: 0,
        channels: 0,
        rate: 0,
        duration: duration_spec(track),
        elapsed: 0,
        track_id: track.id,
        time_base: track.time_base,
        seek_required_ts: None,
        codec: track.codec,
        listener: media_title,
        ended: false,
    }
}

/// Whether the decode loop decodes a packet in state `m`: the packet must
/// carry the selected track's id, and, while a seek-skip threshold is
/// pending, its timestamp must have reached the threshold.
pub open spec fn packet_decision_spec(m: SymphoniaModel, packet_track_id: u32, ts: u64) -> bool {
    &&& packet_track_id == m.track_id
    &&& (match m.seek_required_ts {
        Some(t) => ts >= t,
        None => true,
    })
}

/// The engine state after routing one packet: the seek-skip threshold is
/// cleared the moment a packet of the selected track reaches it; nothing
/// else changes.
pub open spec fn packet_state_spec(m: SymphoniaModel, packet_track_id: u32, ts: u64) -> SymphoniaModel {
    if packet_track_id == m.track_id && (match m.seek_required_ts {
        Some(t) => ts >= t,
        None => false,
    }) {
        SymphoniaModel { seek_required_ts: None, ..m }
    } else {
        m
    }
}

/// The elapsed position a decoded packet implies, when a time base is
/// known.
pub open spec fn segment_elapsed_spec(m: SymphoniaModel, ts: u64) -> Option<int> {
    match m.time_base {
        Some(tb) => Some(time_nanos_spec(tb, ts)),
        None => None,
    }
}

/// The engine state after a successful decode: the segment's spec becomes
/// the engine's, the elapsed position advances when a time base is known,
/// the buffer takes the segment with minimal allocation, and the read
/// cursor returns to the start.
pub open spec fn apply_decoded_state_spec(
    m: SymphoniaModel,
    ts: u64,
    channels: u16,
    rate: u32,
    samples: Seq<i16>,
    frames: nat,
) -> SymphoniaModel {
    SymphoniaModel {
        buffer: buffer_write_spec(m.buffer, samples, frames),
        current_frame_offset: 0,
        channels: channels,
        rate: rate,
        elapsed: match m.time_base {
            Some(tb) => time_nanos_spec(tb, ts),
            None => m.elapsed,
        },
        ..m
    }
}

/// Which metadata extraction a decode at timestamp `ts` calls for, in
/// state `m`.
pub open spec fn metadata_trigger_spec(m: SymphoniaModel, ts: u64) -> MetadataTrigger {
    if !m.listener {
        MetadataTrigger::NoListener
    } else if segment_elapsed_spec(m, ts) == Some(0int) {
        MetadataTrigger::Container
    } else {
        MetadataTrigger::Inline
    }
}

/// The engine state and decoder-reset demand after a seek attempt: a
/// failed underlying seek changes nothing; a successful coarse seek resets
/// the read cursor, empties the buffer's logical contents, and holds the
/// requested timestamp as the skip threshold exactly when the seek landed
/// before it — a seek that landed at or past its target leaves no
/// threshold, pending or stale.  The decoder is reset only for the codec
/// family that needs it.
pub open spec fn try_seek_spec(m: SymphoniaModel, attempt: SeekAttempt) -> (SymphoniaModel, bool) {
    match attempt {
        SeekAttempt::Failed => (m, false),
        SeekAttempt::SeekedTo { required_ts, actual_ts } => (
            SymphoniaModel {
                buffer: buffer_clear_spec(m.buffer),
                current_frame_offset: 0,
                seek_required_ts: if required_ts > actual_ts {
                    Some(required_ts)
                } else {
                    None
                },
                ..m
            },
            m.codec is Mp3,
        ),
    }
}

/// What one pull of the next sample does in state `m`.
pub open spec fn next_sample_spec(m: SymphoniaModel) -> (SymphoniaModel, SampleStep) {
    if m.ended {
        (m, SampleStep::Ended)
    } else if m.current_frame_offset < m.buffer.contents.len() {
        (
            SymphoniaModel { current_frame_offset: m.current_frame_offset + 1, ..m },
            SampleStep::Sample(m.buffer.contents[m.current_frame_offset as int]),
        )
    } else {
        (m, SampleStep::NeedRefill)
    }
}

impl Symphonia {
    pub open spec fn wf(self) -> bool {
        &&& self.buffer.wf()
        &&& self@.wf()
    }

    /// Create the engine state for the selected track.  The shell owns the
    /// probed demuxer and the codec; it must feed the first decoded
    /// segment through [`Symphonia::apply_decoded`] before handing the
    /// engine out, and report failure to obtain one as `NoStreams`.
    ///
    /// `media_title` records whether a title-event listener is attached;
    /// when it is `false`, metadata extraction never runs.
    pub fn new(track: &TrackMeta, media_title: bool) -> (r: Self)
        requires
            track.wf(),
        ensures
            r.wf(),
            r@ == initial_state_spec(*track, media_title),
    {
        let r = Symphonia {
            buffer: SampleBuffer::new(),
            current_frame_offset: 0,
            channels: 0,
            rate: 0,
            duration: get_duration(track),
            track_id: track.id,
            time_base: track.time_base,
            elapsed: 0,
            seek_required_ts: None,
            codec: track.codec,
            listener: media_title,
            ended: false,
        };
        proof {
            assert(r@.buffer =~= initial_state_spec(*track, media_title).buffer);
            match (track.n_frames, track.time_base) {
                (Some(n), Some(tb)) => {},
                _ => {},
            }
        }
        r
    }

    /// Map the outcome of engine construction onto the public error
    /// taxonomy: a demux-layer error keeps its kind, and an absent engine
    /// means no usable audio track was found.  A seek error cannot occur
    /// during initialization, so none is accepted here.
    pub fn common_new(init: Result<Option<Symphonia>, DemuxError>) -> (r: Result<
        Symphonia,
        SymphoniaDecoderError,
    >)
        requires
            !(init matches Err(DemuxError::SeekError(_))),
        ensures
            match init {
                Ok(Some(s)) => r matches Ok(out) && out == s,
                Ok(None) => r matches Err(SymphoniaDecoderError::NoStreams),
                Err(e) => match (e, r) {
                    (DemuxError::IoError(m), Err(SymphoniaDecoderError::IoError(m2))) => m == m2,
                    (DemuxError::DecodeError(m), Err(SymphoniaDecoderError::DecodeError(m2))) => m
                        == m2,
                    (DemuxError::Unsupported(_), Err(SymphoniaDecoderError::UnrecognizedFormat)) => true,
                    (DemuxError::LimitError(m), Err(SymphoniaDecoderError::LimitError(m2))) => m
                        == m2,
                    (DemuxError::ResetRequired, Err(SymphoniaDecoderError::ResetRequired)) => true,
                    _ => false,
                },
            },
    {
        match init {
            Ok(Some(s)) => Ok(s),
            Ok(None) => Err(SymphoniaDecoderError::NoStreams),
            Err(e) => match e {
                DemuxError::IoError(m) => Err(SymphoniaDecoderError::IoError(m)),
                DemuxError::DecodeError(m) => Err(SymphoniaDecoderError::DecodeError(m)),
                DemuxError::SeekError(_) => Err(SymphoniaDecoderError::NoStreams),  // excluded by the precondition
                DemuxError::Unsupported(_) => Err(SymphoniaDecoderError::UnrecognizedFormat),
                DemuxError::LimitError(m) => Err(SymphoniaDecoderError::LimitError(m)),
                DemuxError::ResetRequired => Err(SymphoniaDecoderError::ResetRequired),
            },
        }
    }

    /// The channel count of the most recently decoded segment.
    pub fn channels(&self) -> (r: u16)
        ensures
            r == self@.channels,
    {
        self.channels
    }

    /// The sample rate of the most recently decoded segment.
    pub fn sample_rate(&self) -> (r: u32)
        ensures
            r == self@.rate,
    {
        self.rate
    }

    /// The track's total duration in nanoseconds, when known.
    pub fn total_duration(&self) -> (r: Option<u128>)
        ensures
            (match r {
                Some(d) => self@.duration == Some(d as int),
                None => self@.duration is None,
            }),
    {
        self.duration
    }

    /// The frame count of the segment the buffer currently holds.
    pub fn current_frame_len(&self) -> (r: Option<usize>)
        ensures
            r matches Some(f) && f == self@.buffer.frame_len,
    {
        Some(self.buffer.frame_len())
    }

    /// Whether a title-event listener is attached; when not, metadata
    /// extraction must not run at all.
    pub fn needs_metadata(&self) -> (r: bool)
        ensures
            r == self@.listener,
    {
        self.listener
    }

    /// Route one packet header: discard packets of other tracks, and,
    /// while a seek-skip threshold is pending, packets whose timestamp
    /// precedes it; the threshold is cleared the moment a packet reaches
    /// it.
    pub fn packet_action(&mut self, packet_track_id: u32, ts: u64) -> (r: PacketAction)
        requires
            old(self).wf(),
        ensures
            final(self).wf(),
            final(self)@ == packet_state_spec(old(self)@, packet_track_id, ts),
            r == (if packet_decision_spec(old(self)@, packet_track_id, ts) {
                PacketAction::Decode
            } else {
                PacketAction::Skip
            }),
    {
        if packet_track_id != self.track_id {
            return PacketAction::Skip;
        }
        match self.seek_required_ts {
            Some(t) => {
                if ts < t {
                    PacketAction::Skip
                } else {
                    self.seek_required_ts = None;
                    PacketAction::Decode
                }
            },
            None => PacketAction::Decode,
        }
    }

    /// Whether a decode failure aborts the whole operation: a malformed
    /// packet is recoverable (logged and skipped), every other demux or
    /// decode failure is fatal.
    pub fn decode_error_fatal(e: &DemuxError) -> (r: bool)
        ensures
            r == !(e is DecodeError),
    {
        !matches!(e, DemuxError::DecodeError(_))
    }

    /// Take one successfully decoded segment: update the engine's spec and
    /// elapsed position, hand the samples to the buffer manager, reset the
    /// read cursor, and say which metadata extraction this decode calls
    /// for.
    ///
    /// `samples` holds the segment interleaved, so its length is the frame
    /// count times the channel count.
    pub fn apply_decoded(
        &mut self,
        ts: u64,
        channels: u16,
        rate: u32,
        samples: &Vec<i16>,
        frames: usize,
    ) -> (r: MetadataTrigger)
        requires
            old(self).wf(),
            samples@.len() == frames * channels,
            old(self)@.buffer.allocs < u64::MAX,
        ensures
            final(self).wf(),
            final(self)@ == apply_decoded_state_spec(
                old(self)@,
                ts,
                channels,
                rate,
                samples@,
                frames as nat,
            ),
            r == metadata_trigger_spec(old(self)@, ts),
    {
        let trigger: MetadataTrigger = if !self.listener {
            MetadataTrigger::NoListener
        } else {
            match self.time_base {
                Some(tb) => {
                    let nanos = calc_time_nanos(&tb, ts);
                    if nanos == 0 {
                        MetadataTrigger::Container
                    } else {
                        MetadataTrigger::Inline
                    }
                },
                None => MetadataTrigger::Inline,
            }
        };
        match self.time_base {
            Some(tb) => {
                self.elapsed = calc_time_nanos(&tb, ts);
            },
            None => {},
        }
        self.buffer.maybe_reuse_buffer(samples, frames);
        self.current_frame_offset = 0;
        self.channels = channels;
        self.rate = rate;
        trigger
    }

    /// Record that the container has no further packets for the track:
    /// sample production ends permanently for this engine instance.
    pub fn end_of_stream(&mut self)
        requires
            old(self).wf(),
        ensures
            final(self).wf(),
            final(self)@ == (SymphoniaModel { ended: true, ..old(self)@ }),
    {
        self.ended = true;
    }

    /// Pull the next sample: after end of stream every pull keeps
    /// returning [`SampleStep::Ended`]; while the cursor is inside the
    /// buffer's logical contents the sample under it is returned and the
    /// cursor advances; at the logical end the caller must run the decode
    /// loop and try again.  A sample is always read from within the
    /// current segment, never from stale tail data of a longer earlier
    /// one.
    pub fn next_sample(&mut self) -> (r: SampleStep)
        requires
            old(self).wf(),
        ensures
            final(self).wf(),
            (final(self)@, r) == next_sample_spec(old(self)@),
    {
        if self.ended {
            return SampleStep::Ended;
        }
        if self.current_frame_offset < self.buffer.len() {
            let s = self.buffer.sample_at(self.current_frame_offset);
            self.current_frame_offset = self.current_frame_offset + 1;
            SampleStep::Sample(s)
        } else {
            SampleStep::NeedRefill
        }
    }

    /// Request repositioning to an absolute offset.  The underlying coarse
    /// seek's outcome is handed in as plain data; an underlying failure is
    /// treated as a no-op success, since many stream types are not
    /// seekable.  Returns whether the codec's decoder must be reset before
    /// decoding continues.
    pub fn try_seek(&mut self, attempt: &SeekAttempt) -> (r: bool)
        requires
            old(self).wf(),
        ensures
            final(self).wf(),
            (final(self)@, r) == try_seek_spec(old(self)@, *attempt),
    {
        match attempt {
            SeekAttempt::Failed => false,
            SeekAttempt::SeekedTo { required_ts, actual_ts } => {
                self.current_frame_offset = 0;
                self.buffer.clear();
                if *required_ts > *actual_ts {
                    self.seek_required_ts = Some(*required_ts);
                } else {
                    // the seek landed at or past the target: an older
                    // threshold no longer describes the position
                    self.seek_required_ts = None;
                }
                matches!(self.codec, CodecKind::Mp3)
            },
        }
    }
}

/// What the engine reads of one metadata tag: whether it is the standard,
/// container-agnostic track-title tag, and that tag's value.  All other
/// tag kinds are ignored by the engine.
#[derive(Debug, Clone)]
pub enum StdTagValue {
    TrackTitle(String),
    Other,
}

/// One tag of a metadata revision, as plain data.
#[derive(Debug, Clone)]
pub struct MetaTag {
    /// The tag's standard interpretation, if it has one.
    pub std: Option<StdTagValue>,
}

/// The first standard track-title value among `tags`, scanning from index
/// `i`.
pub open spec fn first_title_from(tags: Seq<MetaTag>, i: int) -> Option<Seq<char>>
    decreases tags.len() - i,
{
    if i < 0 || i >= tags.len() {
        None
    } else {
        match tags[i].std {
            Some(StdTagValue::TrackTitle(t)) => Some(t@),
            _ => first_title_from(tags, i + 1),
        }
    }
}

/// Find the standard track-title tag in a metadata revision, if any.
pub fn find_title_metadata(tags: &Vec<MetaTag>) -> (r: Option<String>)
    ensures
        (match r {
            Some(t) => first_title_from(tags@, 0) == Some(t@),
            None => first_title_from(tags@, 0) is None,
        }),
{
    let mut i: usize = 0;
    while i < tags.len()
        invariant
            i <= tags.len(),
            first_title_from(tags@, 0) == first_title_from(tags@, i as int),
        decreases tags.len() - i,
    {
        match &tags[i].std {
            Some(StdTagValue::TrackTitle(t)) => {
                return Some(t.clone());
            },
            _ => {},
        }
        i = i + 1;
    }
    None
}

/// Spec-level image of a sequence of title events.
pub open spec fn events_view(s: Seq<MediaTitleType>) -> Seq<TitleEvent> {
    s.map_values(|e: MediaTitleType| e@)
}

/// The events the container/start extraction emits: unconditionally a
/// reset, then the title value exactly when the current metadata revision
/// carries a standard track-title tag.
pub open spec fn container_events_spec(title: Option<Seq<char>>) -> Seq<TitleEvent> {
    match title {
        Some(t) => seq![TitleEvent::Reset, TitleEvent::Value(t)],
        None => seq![TitleEvent::Reset],
    }
}

/// Container/start metadata extraction, run when the elapsed position is
/// exactly zero: emit a reset, then a value for the track-title tag of the
/// current metadata revision, if the container has one.
///
/// `current_rev` holds the tags of the container's current metadata
/// revision, or nothing when the container exposes no revision.
pub fn do_container_metadata(current_rev: &Option<Vec<MetaTag>>) -> (r: Vec<MediaTitleType>)
    ensures
        events_view(r@) == container_events_spec(
            match current_rev {
                Some(tags) => first_title_from(tags@, 0),
                None => None,
            },
        ),
{
    let mut events: Vec<MediaTitleType> = Vec::new();
    events.push(MediaTitleType::Reset);
    match current_rev {
        Some(tags) => {
            match find_title_metadata(tags) {
                Some(title) => {
                    events.push(MediaTitleType::Value(title));
                },
                None => {},
            }
        },
        None => {},
    }
    proof {
        let title = match current_rev {
            Some(tags) => first_title_from(tags@, 0),
            None => None,
        };
        assert(events_view(events@) =~= container_events_spec(title));
    }
    events
}

/// The events the inline/dynamic extraction emits: a value exactly when a
/// newer metadata revision exists and carries a standard track-title tag.
pub open spec fn inline_events_spec(latest_rev: Option<Seq<MetaTag>>) -> Seq<TitleEvent> {
    match latest_rev {
        Some(tags) => match first_title_from(tags, 0) {
            Some(t) => seq![TitleEvent::Value(t)],
            None => Seq::empty(),
        },
        None => Seq::empty(),
    }
}

/// Inline/dynamic metadata extraction, run when the container reports a
/// newer metadata revision than the last one seen (formats that embed
/// title updates mid-stream): emit the new revision's track title, if it
/// has one.
///
/// `latest_rev` holds the tags of the newest revision after skipping
/// forward to it, or nothing when there was no newer revision after all.
pub fn do_inline_metadata(latest_rev: &Option<Vec<MetaTag>>) -> (r: Vec<MediaTitleType>)
    ensures
        events_view(r@) == inline_events_spec(
            match latest_rev {
                Some(tags) => Some(tags@),
                None => None,
            },
        ),
{
    let mut events: Vec<MediaTitleType> = Vec::new();
    match latest_rev {
        Some(tags) => {
            match find_title_metadata(tags) {
                Some(title) => {
                    events.push(MediaTitleType::Value(title));
                },
                None => {},
            }
        },
        None => {},
    }
    proof {
        let ghost_rev = match latest_rev {
            Some(tags) => Some(tags@),
            None => None::<Seq<MetaTag>>,
        };
        assert(events_view(events@) =~= inline_events_spec(ghost_rev));
    }
    events
}

/// One packet of a decode run, with its decode outcome, as the spec-level
/// loop model sees it.
pub struct PacketSpec {
    pub track_id: u32,
    pub ts: u64,
    pub outcome: OutcomeSpec,
}

/// What decoding one packet yielded.
pub enum OutcomeSpec {
    /// The packet decoded into a segment with this spec and these samples.
    Decoded { channels: u16, rate: u32, samples: Seq<i16>, frames: nat },
    /// The packet was malformed: a non-fatal error, logged and skipped.
    Malformed,
    /// Any other decode failure: fatal for the whole operation.
    Fatal,
}

/// The result of one refill attempt of the decode loop.
pub enum RefillOutcome {
    /// A segment was decoded and applied; `rest` holds the packets not yet
    /// consumed, and `trigger` the metadata extraction this decode calls
    /// for.
    Refilled { state: SymphoniaModel, rest: Seq<PacketSpec>, trigger: MetadataTrigger },
    /// The stream ended with no further packet for the track.
    EndOfStream { state: SymphoniaModel },
    /// A fatal decode error aborted the operation.
    Aborted { state: SymphoniaModel },
}

/// The decode loop, one refill: read packets in order, discard the ones
/// the routing rejects, skip malformed ones, and stop at the first
/// successfully decoded segment, a fatal error, or the end of the stream.
/// This composes the verified single transitions exactly as the pull path
/// drives them.
pub open spec fn decode_loop_spec(m: SymphoniaModel, packets: Seq<PacketSpec>) -> RefillOutcome
    decreases packets.len(),
{
    if packets.len() == 0 {
        RefillOutcome::EndOfStream { state: SymphoniaModel { ended: true, ..m } }
    } else {
        let p = packets[0];
        let rest = packets.drop_first();
        let m1 = packet_state_spec(m, p.track_id, p.ts);
        if !packet_decision_spec(m, p.track_id, p.ts) {
            decode_loop_spec(m1, rest)
        } else {
            match p.outcome {
                OutcomeSpec::Decoded { channels, rate, samples, frames } => RefillOutcome::Refilled {
                    state: apply_decoded_state_spec(m1, p.ts, channels, rate, samples, frames),
                    rest,
                    trigger: metadata_trigger_spec(m1, p.ts),
                },
                OutcomeSpec::Malformed => decode_loop_spec(m1, rest),
                OutcomeSpec::Fatal => RefillOutcome::Aborted {
                    state: SymphoniaModel { ended: true, ..m1 },
                },
            }
        }
    }
}

/// All segments a full drain of the stream emits, starting in state `m`.
pub open spec fn drained_segments_spec(m: SymphoniaModel, packets: Seq<PacketSpec>) -> Seq<
    Seq<i16>,
>
    decreases packets.len(),
{
    if packets.len() == 0 {
        Seq::empty()
    } else {
        let p = packets[0];
        let rest = packets.drop_first();
        let m1 = packet_state_spec(m, p.track_id, p.ts);
        if !packet_decision_spec(m, p.track_id, p.ts) {
            drained_segments_spec(m1, rest)
        } else {
            match p.outcome {
                OutcomeSpec::Decoded { channels, rate, samples, frames } => seq![samples]
                    + drained_segments_spec(
                    apply_decoded_state_spec(m1, p.ts, channels, rate, samples, frames),
                    rest,
                ),
                OutcomeSpec::Malformed => drained_segments_spec(m1, rest),
                OutcomeSpec::Fatal => Seq::empty(),
            }
        }
    }
}

/// The samples of the packets that decoded successfully, in stream order.
pub open spec fn decoded_samples_spec(packets: Seq<PacketSpec>) -> Seq<Seq<i16>>
    decreases packets.len(),
{
    if packets.len() == 0 {
        Seq::empty()
    } else {
        match packets[0].outcome {
            OutcomeSpec::Decoded { samples, .. } => seq![samples] + decoded_samples_spec(
                packets.drop_first(),
            ),
            _ => decoded_samples_spec(packets.drop_first()),
        }
    }
}

/// A non-fatal decode error on one packet does not abort playback: when
/// every packet belongs to the selected track, none fails fatally and no
/// seek skip is pending, a full drain yields exactly the samples of the
/// packets that decoded — a malformed packet in the middle contributes
/// nothing, and every packet around it still plays.
pub proof fn lemma_decode_error_recovery(m: SymphoniaModel, packets: Seq<PacketSpec>)
    requires
        m.seek_required_ts is None,
        forall|i: int| 0 <= i < packets.len() ==> #[trigger] packets[i].track_id == m.track_id,
        forall|i: int| 0 <= i < packets.len() ==> !(#[trigger] packets[i].outcome is Fatal),
    ensures
        drained_segments_spec(m, packets) == decoded_samples_spec(packets),
    decreases packets.len(),
{
    if packets.len() == 0 {
    } else {
        let p = packets[0];
        let rest = packets.drop_first();
        let m1 = packet_state_spec(m, p.track_id, p.ts);
        assert(packet_decision_spec(m, p.track_id, p.ts));
        assert(m1 == m);
        match p.outcome {
            OutcomeSpec::Decoded { channels, rate, samples, frames } => {
                let m2 = apply_decoded_state_spec(m1, p.ts, channels, rate, samples, frames);
                assert(m2.seek_required_ts is None);
                assert(m2.track_id == m.track_id);
                lemma_decode_error_recovery(m2, rest);
            },
            OutcomeSpec::Malformed => {
                lemma_decode_error_recovery(m1, rest);
            },
            OutcomeSpec::Fatal => {
                assert(false);
            },
        }
    }
}

/// While no seek skip is pending, a refilled segment from a stream whose
/// packets all carry timestamps at or past `bound` has an elapsed
/// position at least `bound`'s.
pub proof fn lemma_refill_elapsed_lower_bound(
    m: SymphoniaModel,
    packets: Seq<PacketSpec>,
    bound: u64,
    tb: TimeBase,
)
    requires
        m.time_base == Some(tb),
        tb.wf(),
        forall|i: int| 0 <= i < packets.len() ==> #[trigger] packets[i].ts >= bound,
    ensures
        (decode_loop_spec(m, packets) matches RefillOutcome::Refilled { state, .. } ==> state.elapsed
            >= time_nanos_spec(tb, bound)),
    decreases packets.len(),
{
    if packets.len() == 0 {
    } else {
        let p = packets[0];
        let rest = packets.drop_first();
        let m1 = packet_state_spec(m, p.track_id, p.ts);
        assert(m1.time_base == Some(tb));
        if !packet_decision_spec(m, p.track_id, p.ts) {
            lemma_refill_elapsed_lower_bound(m1, rest, bound, tb);
        } else {
            match p.outcome {
                OutcomeSpec::Decoded { channels, rate, samples, frames } => {
                    lemma_time_nanos_monotone(tb, bound as int, p.ts as int);
                },
                OutcomeSpec::Malformed => {
                    lemma_refill_elapsed_lower_bound(m1, rest, bound, tb);
                },
                OutcomeSpec::Fatal => {},
            }
        }
    }
}

/// Seeking never undershoots: after a coarse seek that landed before the
/// requested timestamp `t` and recorded it as the skip threshold, the next
/// refilled segment's elapsed position is at least the position of `t` —
/// packets before the threshold are discarded, and once one reaches it,
/// the nondecreasing timestamps keep every later packet at or past it.
pub proof fn lemma_seek_no_undershoot(
    m: SymphoniaModel,
    packets: Seq<PacketSpec>,
    t: u64,
    tb: TimeBase,
)
    requires
        m.seek_required_ts == Some(t),
        m.time_base == Some(tb),
        tb.wf(),
        forall|i: int, j: int|
            0 <= i <= j < packets.len() ==> #[trigger] packets[i].ts <= #[trigger] packets[j].ts,
    ensures
        (decode_loop_spec(m, packets) matches RefillOutcome::Refilled { state, .. } ==> state.elapsed
            >= time_nanos_spec(tb, t)),
    decreases packets.len(),
{
    if packets.len() == 0 {
    } else {
        let p = packets[0];
        let rest = packets.drop_first();
        let m1 = packet_state_spec(m, p.track_id, p.ts);
        assert(forall|i: int, j: int|
            0 <= i <= j < rest.len() ==> #[trigger] rest[i].ts <= #[trigger] rest[j].ts) by {
            assert(forall|i: int| 0 <= i < rest.len() ==> rest[i] == packets[i + 1]);
        }
        if !packet_decision_spec(m, p.track_id, p.ts) {
            assert(m1 == m);
            lemma_seek_no_undershoot(m1, rest, t, tb);
        } else {
            assert(p.ts >= t);
            match p.outcome {
                OutcomeSpec::Decoded { channels, rate, samples, frames } => {
                    lemma_time_nanos_monotone(tb, t as int, p.ts as int);
                },
                OutcomeSpec::Malformed => {
                    assert(forall|i: int| 0 <= i < rest.len() ==> #[trigger] rest[i].ts >= p.ts)
                        by {
                        assert(forall|i: int| 0 <= i < rest.len() ==> rest[i] == packets[i + 1]);
                    }
                    assert(forall|i: int| 0 <= i < rest.len() ==> #[trigger] rest[i].ts >= t);
                    lemma_refill_elapsed_lower_bound(m1, rest, t, tb);
                },
                OutcomeSpec::Fatal => {},
            }
        }
    }
}

/// Seeking never undershoots, stated from the seek itself: after a
/// coarse seek that landed short of the requested timestamp, the next
/// segment a refill produces from nondecreasingly timestamped packets
/// has an elapsed position at least the requested timestamp's.  (When
/// the seek lands at or past its target no threshold is recorded, and
/// the bound follows from the landing position instead, via
/// [`lemma_refill_elapsed_lower_bound`].)
pub proof fn lemma_try_seek_refill_no_undershoot(
    m: SymphoniaModel,
    required_ts: u64,
    actual_ts: u64,
    packets: Seq<PacketSpec>,
    tb: TimeBase,
)
    requires
        m.time_base == Some(tb),
        tb.wf(),
        required_ts > actual_ts,
        forall|i: int, j: int|
            0 <= i <= j < packets.len() ==> #[trigger] packets[i].ts <= #[trigger] packets[j].ts,
    ensures
        ({
            let (m1, _) = try_seek_spec(
                m,
                SeekAttempt::SeekedTo { required_ts, actual_ts },
            );
            decode_loop_spec(m1, packets) matches RefillOutcome::Refilled { state, .. }
                ==> state.elapsed >= time_nanos_spec(tb, required_ts)
        }),
{
    let (m1, _) = try_seek_spec(m, SeekAttempt::SeekedTo { required_ts, actual_ts });
    assert(m1.seek_required_ts == Some(required_ts));
    lemma_seek_no_undershoot(m1, packets, required_ts, tb);
}

/// The engine state after `n` pulls of the next sample.
pub open spec fn pulls_spec(m: SymphoniaModel, n: nat) -> SymphoniaModel
    decreases n,
{
    if n == 0 {
        m
    } else {
        pulls_spec(next_sample_spec(m).0, (n - 1) as nat)
    }
}

/// Once end of stream has been reached, pulling the next sample keeps
/// returning the end marker indefinitely: no number of further pulls
/// revives the stream or changes the engine.
pub proof fn lemma_ended_is_permanent(m: SymphoniaModel, n: nat)
    requires
        m.ended,
    ensures
        pulls_spec(m, n) == m,
        next_sample_spec(pulls_spec(m, n)).1 == SampleStep::Ended,
    decreases n,
{
    if n == 0 {
    } else {
        lemma_ended_is_permanent(m, (n - 1) as nat);
    }
}

/// The total frame count of the first `i` segments of a drain.
pub open spec fn prefix_frames(frames: Seq<u64>, i: int) -> int
    decreases i,
{
    if i <= 0 {
        0
    } else {
        prefix_frames(frames, i - 1) + frames[i - 1]
    }
}

/// The sum of the per-segment elapsed deltas over the first `i` segments
/// of a gapless drain: segment `k` starts at the total frame count of the
/// segments before it, and its delta is the nanosecond distance its frames
/// advance the position by.
pub open spec fn elapsed_delta_sum(tb: TimeBase, frames: Seq<u64>, i: int) -> int
    decreases i,
{
    if i <= 0 {
        0
    } else {
        elapsed_delta_sum(tb, frames, i - 1) + (time_nanos_int(tb, prefix_frames(frames, i))
            - time_nanos_int(tb, prefix_frames(frames, i - 1)))
    }
}

/// The per-segment elapsed deltas telescope: summed over the first `i`
/// segments they equal the position of the total frame count consumed.
pub proof fn lemma_delta_sum_telescopes(tb: TimeBase, frames: Seq<u64>, i: int)
    requires
        0 <= i <= frames.len(),
    ensures
        elapsed_delta_sum(tb, frames, i) == time_nanos_int(tb, prefix_frames(frames, i))
            - time_nanos_int(tb, 0),
    decreases i,
{
    if i == 0 {
    } else {
        lemma_delta_sum_telescopes(tb, frames, i - 1);
    }
}

/// For a valid single-track gapless stream — each segment starting at the
/// total frame count of the segments before it, the declared frame count
/// equal to their sum — the total duration computed before decoding
/// equals the sum of the per-segment elapsed deltas accumulated by fully
/// draining production.
pub proof fn lemma_total_duration_drained(tb: TimeBase, frames: Seq<u64>, track: TrackMeta)
    requires
        tb.wf(),
        track.time_base == Some(tb),
        (track.n_frames matches Some(n) && n == prefix_frames(frames, frames.len() as int)),
    ensures
        duration_spec(track) == Some(elapsed_delta_sum(tb, frames, frames.len() as int)),
{
    lemma_delta_sum_telescopes(tb, frames, frames.len() as int);
    assert(time_nanos_int(tb, 0) == 0) by {
        assert(0int * 1_000_000_000 * (tb.numer as int) == 0);
    }
}

/// Seeking back to position zero re-emits the container-level metadata:
/// the seek to timestamp zero clears any pending skip threshold and can
/// record no new one, so the next decoded packet at timestamp zero is
/// accepted and triggers container extraction, and
/// the emitted events are exactly one reset, followed by one value
/// exactly when a track-title tag exists — once per such seek, since the
/// extraction runs once per decoded segment.
pub proof fn lemma_seek_to_zero_reemits_metadata(
    m: SymphoniaModel,
    actual_ts: u64,
    tb: TimeBase,
    title: Option<Seq<char>>,
)
    requires
        m.listener,
        m.time_base == Some(tb),
        tb.wf(),
    ensures
        ({
            let (m1, _) = try_seek_spec(
                m,
                SeekAttempt::SeekedTo { required_ts: 0, actual_ts },
            );
            &&& m1.seek_required_ts is None
            &&& packet_decision_spec(m1, m.track_id, 0)
            &&& metadata_trigger_spec(m1, 0) == MetadataTrigger::Container
        }),
        container_events_spec(title)[0] == TitleEvent::Reset,
        container_events_spec(title).len() == (if title is Some {
            2int
        } else {
            1int
        }),
        (title matches Some(t) ==> container_events_spec(title)[1] == TitleEvent::Value(t)),
{
    let (m1, _) = try_seek_spec(m, SeekAttempt::SeekedTo { required_ts: 0, actual_ts });
    assert(time_nanos_spec(tb, 0) == 0) by {
        assert(0int * 1_000_000_000 * (tb.numer as int) == 0);
    }
    assert(metadata_trigger_spec(m1, 0) == MetadataTrigger::Container);
}

/// With no listener attached, no decode ever calls for metadata
/// extraction: the trigger is always the no-listener one, whatever the
/// stream does.
pub proof fn lemma_no_listener_no_extraction(m: SymphoniaModel, ts: u64)
    requires
        !m.listener,
    ensures
        metadata_trigger_spec(m, ts) == MetadataTrigger::NoListener,
{
}

/// During normal playback the elapsed position advances monotonically:
/// decoding a packet with a later timestamp never moves the position
/// backwards.
pub proof fn lemma_elapsed_monotone(
    m: SymphoniaModel,
    tb: TimeBase,
    ts1: u64,
    ts2: u64,
    channels: u16,
    rate: u32,
    samples: Seq<i16>,
    frames: nat,
)
    requires
        m.time_base == Some(tb),
        tb.wf(),
        ts1 <= ts2,
    ensures
        apply_decoded_state_spec(m, ts1, channels, rate, samples, frames).elapsed
            <= apply_decoded_state_spec(m, ts2, channels, rate, samples, frames).elapsed,
{
    lemma_time_nanos_monotone(tb, ts1 as int, ts2 as int);
}

} // verus!
