//! One timed event of a track: its delta-time, its type, and its payload.
use vstd::prelude::*;

use crate::vlq::Vlq;
use crate::vlq::lemma_vlq_value_bound;
use crate::vlq::vlq_len;
use crate::vlq::vlq_value;

verus! {

/// What an event is, as its status byte (and for meta events the byte after
/// it) announces. Channel messages carry their channel, 0 to 15.
#[derive(Debug, Clone, Copy, PartialEq, Eq, Structural)]
pub enum TrackEventType {
    // Channel voice messages
    NoteOff(u8),
    NoteOn(u8),
    PolyphonicKeyPressure(u8),
    ControlChange(u8),
    ProgramChange(u8),
    ChannelPressure(u8),
    PitchWheelChange(u8),
    // Channel mode messages
    ChannelModeMessages(u8),
    // System common messages
    SystemExclusive,
    Undefined,
    SongPositionPointer,
    SongSelect,
    TuneRequest,
    EndOfExclusive,
    // System real-time messages
    RTTimingClock,
    RTStart,
    RTContinue,
    RTStop,
    RTActiveSensing,
    // Meta events
    MetaSequenceNumber,
    MetaText,
    MetaCopyrightNotice,
    MetaSequenceOrTrackName,
    MetaInstrumentName,
    MetaLyricText,
    MetaMarkerText,
    MetaCuePoint,
    MetaMIDIChannelPrefixAssignment,
    MetaEndOfTrack,
    MetaTempoSetting,
    MetaSMPTEOffset,
    MetaTimeSignature,
    MetaKeySignature,
    MetaSequencerSpecificEvent,
}

impl TrackEventType {
    /// The channel that a channel message carries.
    pub open spec fn channel_spec(self) -> Option<u8> {
        match self {
            TrackEventType::NoteOff(c) => Some(c),
            TrackEventType::NoteOn(c) => Some(c),
            TrackEventType::PolyphonicKeyPressure(c) => Some(c),
            TrackEventType::ControlChange(c) => Some(c),
            TrackEventType::ProgramChange(c) => Some(c),
            TrackEventType::ChannelPressure(c) => Some(c),
            TrackEventType::PitchWheelChange(c) => Some(c),
            TrackEventType::ChannelModeMessages(c) => Some(c),
            _ => None,
        }
    }

    /// The channel of a channel message; `None` for every other type.
    pub fn channel(&self) -> (r: Option<u8>)
        ensures
            r == self.channel_spec(),
    {
        match *self {
            TrackEventType::NoteOff(c) => Some(c),
            TrackEventType::NoteOn(c) => Some(c),
            TrackEventType::PolyphonicKeyPressure(c) => Some(c),
            TrackEventType::ControlChange(c) => Some(c),
            TrackEventType::ProgramChange(c) => Some(c),
            TrackEventType::ChannelPressure(c) => Some(c),
            TrackEventType::PitchWheelChange(c) => Some(c),
            TrackEventType::ChannelModeMessages(c) => Some(c),
            _ => None,
        }
    }

    /// Whether this is one of the meta events (status 0xFF).
    pub open spec fn is_meta(self) -> bool {
        match self {
            TrackEventType::MetaSequenceNumber | TrackEventType::MetaText
            | TrackEventType::MetaCopyrightNotice | TrackEventType::MetaSequenceOrTrackName
            | TrackEventType::MetaInstrumentName | TrackEventType::MetaLyricText
            | TrackEventType::MetaMarkerText | TrackEventType::MetaCuePoint
            | TrackEventType::MetaMIDIChannelPrefixAssignment | TrackEventType::MetaEndOfTrack
            | TrackEventType::MetaTempoSetting | TrackEventType::MetaSMPTEOffset
            | TrackEventType::MetaTimeSignature | TrackEventType::MetaKeySignature
            | TrackEventType::MetaSequencerSpecificEvent => true,
            _ => false,
        }
    }
}

/// The meta event that a meta type byte names.
pub open spec fn meta_type_of(meta: u8) -> TrackEventType {
    if meta == 0x00 {
        TrackEventType::MetaSequenceNumber
    } else if meta == 0x01 {
        TrackEventType::MetaText
    } else if meta == 0x02 {
        TrackEventType::MetaCopyrightNotice
    } else if meta == 0x03 {
        TrackEventType::MetaSequenceOrTrackName
    } else if meta == 0x04 {
        TrackEventType::MetaInstrumentName
    } else if meta == 0x05 {
        TrackEventType::MetaLyricText
    } else if meta == 0x06 {
        TrackEventType::MetaMarkerText
    } else if meta == 0x07 {
        TrackEventType::MetaCuePoint
    } else if meta == 0x20 {
        TrackEventType::MetaMIDIChannelPrefixAssignment
    } else if meta == 0x2F {
        TrackEventType::MetaEndOfTrack
    } else if meta == 0x51 {
        TrackEventType::MetaTempoSetting
    } else if meta == 0x54 {
        TrackEventType::MetaSMPTEOffset
    } else if meta == 0x58 {
        TrackEventType::MetaTimeSignature
    } else if meta == 0x59 {
        TrackEventType::MetaKeySignature
    } else if meta == 0x7F {
        TrackEventType::MetaSequencerSpecificEvent
    } else {
        TrackEventType::Undefined
    }
}

/// The type of event that `status` announces; `meta` is the byte after it,
/// read only where `status` is 0xFF. The high nibble of a channel message
/// picks the message, the low nibble is its channel.
pub open spec fn event_type_of(status: u8, meta: u8) -> TrackEventType {
    let channel = (status % 16) as u8;
    if status < 0x80 {
        TrackEventType::Undefined
    } else if status < 0x90 {
        TrackEventType::NoteOff(channel)
    } else if status < 0xA0 {
        TrackEventType::NoteOn(channel)
    } else if status < 0xB0 {
        TrackEventType::PolyphonicKeyPressure(channel)
    } else if status < 0xC0 {
        TrackEventType::ControlChange(channel)
    } else if status < 0xD0 {
        TrackEventType::ProgramChange(channel)
    } else if status < 0xE0 {
        TrackEventType::ChannelPressure(channel)
    } else if status < 0xF0 {
        TrackEventType::PitchWheelChange(channel)
    } else if status == 0xF0 {
        TrackEventType::SystemExclusive
    } else if status == 0xF2 {
        TrackEventType::SongPositionPointer
    } else if status == 0xF3 {
        TrackEventType::SongSelect
    } else if status == 0xF6 {
        TrackEventType::TuneRequest
    } else if status == 0xF7 {
        TrackEventType::EndOfExclusive
    } else if status == 0xF8 {
        TrackEventType::RTTimingClock
    } else if status == 0xFA {
        TrackEventType::RTStart
    } else if status == 0xFB {
        TrackEventType::RTContinue
    } else if status == 0xFC {
        TrackEventType::RTStop
    } else if status == 0xFE {
        TrackEventType::RTActiveSensing
    } else if status == 0xFF {
        meta_type_of(meta)
    } else {
        TrackEventType::Undefined
    }
}

/// Classifies a status byte, and for 0xFF the meta type byte `meta` after it.
/// Every pair of bytes gets a type; what is not recognised is `Undefined`.
pub fn classify_status(status: u8, meta: u8) -> (r: TrackEventType)
    ensures
        r == event_type_of(status, meta),
{
    let channel = status & 0x0F;
    let kind = status >> 4;
    assert(status & 0x0F == status % 16 && status >> 4 == status / 16) by (bit_vector);
    match kind {
        0x8 => TrackEventType::NoteOff(channel),
        0x9 => TrackEventType::NoteOn(channel),
        0xA => TrackEventType::PolyphonicKeyPressure(channel),
        0xB => TrackEventType::ControlChange(channel),
        0xC => TrackEventType::ProgramChange(channel),
        0xD => TrackEventType::ChannelPressure(channel),
        0xE => TrackEventType::PitchWheelChange(channel),
        0xF => match status {
            0xF0 => TrackEventType::SystemExclusive,
            0xF2 => TrackEventType::SongPositionPointer,
            0xF3 => TrackEventType::SongSelect,
            0xF6 => TrackEventType::TuneRequest,
            0xF7 => TrackEventType::EndOfExclusive,
            0xF8 => TrackEventType::RTTimingClock,
            0xFA => TrackEventType::RTStart,
            0xFB => TrackEventType::RTContinue,
            0xFC => TrackEventType::RTStop,
            0xFE => TrackEventType::RTActiveSensing,
            0xFF => match meta {
                0x00 => TrackEventType::MetaSequenceNumber,
                0x01 => TrackEventType::MetaText,
                0x02 => TrackEventType::MetaCopyrightNotice,
                0x03 => TrackEventType::MetaSequenceOrTrackName,
                0x04 => TrackEventType::MetaInstrumentName,
                0x05 => TrackEventType::MetaLyricText,
                0x06 => TrackEventType::MetaMarkerText,
                0x07 => TrackEventType::MetaCuePoint,
                0x20 => TrackEventType::MetaMIDIChannelPrefixAssignment,
                0x2F => TrackEventType::MetaEndOfTrack,
                0x51 => TrackEventType::MetaTempoSetting,
                0x54 => TrackEventType::MetaSMPTEOffset,
                0x58 => TrackEventType::MetaTimeSignature,
                0x59 => TrackEventType::MetaKeySignature,
                0x7F => TrackEventType::MetaSequencerSpecificEvent,
                _ => TrackEventType::Undefined,
            },
            _ => TrackEventType::Undefined,
        },
        _ => TrackEventType::Undefined,
    }
}

/// Every status byte, with every meta type byte, is classified, and the type
/// is `Undefined` exactly for the bytes that name none of the others: data
/// bytes below 0x80, the undefined system bytes, and unknown meta types.
pub proof fn lemma_classifier_total(status: u8, meta: u8)
    ensures
        event_type_of(status, meta) == TrackEventType::Undefined <==> (status < 0x80 || status
            == 0xF1 || status == 0xF4 || status == 0xF5 || status == 0xF9 || status == 0xFD || (
        status == 0xFF && !(meta <= 0x07 || meta == 0x20 || meta == 0x2F || meta == 0x51 || meta
            == 0x54 || meta == 0x58 || meta == 0x59 || meta == 0x7F))),
{
}

/// A channel message carries the low nibble of its status byte as its
/// channel, whatever the high nibble.
pub proof fn lemma_channel_extraction(status: u8, meta: u8)
    requires
        0x80 <= status <= 0xEF,
    ensures
        event_type_of(status, meta).channel_spec() == Some(status & 0x0F),
{
    assert(status & 0x0F == status % 16) by (bit_vector);
}

/// The payload of a decoded event is as long as its type says: `n` bytes,
/// whatever they hold, for `Fixed(n)`; for `Variable`, the value of the
/// quantity that immediately follows the status.
pub proof fn lemma_payload_size(s: Seq<u8>, pos: int)
    requires
        event_at(s, pos) is Some,
    ensures
        ({
            let (e, end) = event_at(s, pos)->Some_0;
            let p2 = type_at(s, vlq_at(s, pos)->Some_0.1)->Some_0.1;
            match size_of_event(e.event_type) {
                TrackEventSize::Fixed(n) => e.data.len() == n && e.data == s.subrange(p2, p2 + n)
                    && end == p2 + n,
                TrackEventSize::Variable => vlq_at(s, p2) is Some && e.data.len() == vlq_at(
                    s,
                    p2,
                )->Some_0.0 && end == vlq_at(s, p2)->Some_0.1 + e.data.len(),
                TrackEventSize::SysExDelimited => end == sysex_end(s, p2)->Some_0 && e.data.last()
                    == 0xF7,
            }
        }),
{
    let (e, end) = event_at(s, pos)->Some_0;
    let p2 = type_at(s, vlq_at(s, pos)->Some_0.1)->Some_0.1;
    if size_of_event(e.event_type) == TrackEventSize::SysExDelimited {
        lemma_sysex_end_byte(s, p2);
    }
}

/// The byte just before the end of a system-exclusive payload is 0xF7.
proof fn lemma_sysex_end_byte(s: Seq<u8>, pos: int)
    requires
        sysex_end(s, pos) is Some,
    ensures
        pos < sysex_end(s, pos)->Some_0 <= s.len(),
        s[sysex_end(s, pos)->Some_0 - 1] == 0xF7,
    decreases s.len() - pos,
{
    if s[pos] != 0xF7 {
        lemma_sysex_end_byte(s, pos + 1);
    }
}

/// How the payload of an event is delimited.
#[derive(Debug, Clone, Copy, PartialEq, Eq, Structural)]
pub enum TrackEventSize {
    /// Exactly this many payload bytes follow the status.
    Fixed(usize),
    /// A variable-length quantity gives the number of payload bytes that follow it.
    Variable,
    /// The payload runs up to and including the next 0xF7 byte.
    SysExDelimited,
}

/// The payload discipline of each event type: channel messages have a fixed
/// payload of one or two bytes, meta events a length-prefixed one, system
/// exclusive a delimited one, and all other system messages none.
pub open spec fn size_of_event(t: TrackEventType) -> TrackEventSize {
    if t.is_meta() {
        TrackEventSize::Variable
    } else {
        match t {
            TrackEventType::NoteOff(_) | TrackEventType::NoteOn(_)
            | TrackEventType::PolyphonicKeyPressure(_) | TrackEventType::ControlChange(_)
            | TrackEventType::PitchWheelChange(_) | TrackEventType::ChannelModeMessages(_) =>
                TrackEventSize::Fixed(2),
            TrackEventType::ProgramChange(_) | TrackEventType::ChannelPressure(_) =>
                TrackEventSize::Fixed(1),
            TrackEventType::SystemExclusive => TrackEventSize::SysExDelimited,
            _ => TrackEventSize::Fixed(0),
        }
    }
}

/// How the payload of an event of type `event_type` is delimited.
pub fn get_track_event_size_for_event(event_type: &TrackEventType) -> (r: TrackEventSize)
    ensures
        r == size_of_event(*event_type),
{
    match event_type {
        TrackEventType::NoteOff(_) => TrackEventSize::Fixed(2),
        TrackEventType::NoteOn(_) => TrackEventSize::Fixed(2),
        TrackEventType::PolyphonicKeyPressure(_) => TrackEventSize::Fixed(2),
        TrackEventType::ControlChange(_) => TrackEventSize::Fixed(2),
        TrackEventType::ProgramChange(_) => TrackEventSize::Fixed(1),
        TrackEventType::ChannelPressure(_) => TrackEventSize::Fixed(1),
        TrackEventType::PitchWheelChange(_) => TrackEventSize::Fixed(2),
        TrackEventType::ChannelModeMessages(_) => TrackEventSize::Fixed(2),
        TrackEventType::SystemExclusive => TrackEventSize::SysExDelimited,
        TrackEventType::Undefined => TrackEventSize::Fixed(0),
        TrackEventType::SongPositionPointer => TrackEventSize::Fixed(0),
        TrackEventType::SongSelect => TrackEventSize::Fixed(0),
        TrackEventType::TuneRequest => TrackEventSize::Fixed(0),
        TrackEventType::EndOfExclusive => TrackEventSize::Fixed(0),
        TrackEventType::RTTimingClock => TrackEventSize::Fixed(0),
        TrackEventType::RTStart => TrackEventSize::Fixed(0),
        TrackEventType::RTContinue => TrackEventSize::Fixed(0),
        TrackEventType::RTStop => TrackEventSize::Fixed(0),
        TrackEventType::RTActiveSensing => TrackEventSize::Fixed(0),
        TrackEventType::MetaSequenceNumber => TrackEventSize::Variable,
        TrackEventType::MetaText => TrackEventSize::Variable,
        TrackEventType::MetaCopyrightNotice => TrackEventSize::Variable,
        TrackEventType::MetaSequenceOrTrackName => TrackEventSize::Variable,
        TrackEventType::MetaInstrumentName => TrackEventSize::Variable,
        TrackEventType::MetaLyricText => TrackEventSize::Variable,
        TrackEventType::MetaMarkerText => TrackEventSize::Variable,
        TrackEventType::MetaCuePoint => TrackEventSize::Variable,
        TrackEventType::MetaMIDIChannelPrefixAssignment => TrackEventSize::Variable,
        TrackEventType::MetaEndOfTrack => TrackEventSize::Variable,
        TrackEventType::MetaTempoSetting => TrackEventSize::Variable,
        TrackEventType::MetaSMPTEOffset => TrackEventSize::Variable,
        TrackEventType::MetaTimeSignature => TrackEventSize::Variable,
        TrackEventType::MetaKeySignature => TrackEventSize::Variable,
        TrackEventType::MetaSequencerSpecificEvent => TrackEventSize::Variable,
    }
}

/// Why an event could not be decoded.
#[derive(Debug, Clone, Copy, PartialEq, Eq, Structural)]
pub enum TrackEventError {
    /// The bytes ended before the event did.
    UnexpectedEnd,
}

/// The quantity that starts at `pos` in `s`: its value and the position just
/// after it; `None` where `s` ends before the quantity does.
pub open spec fn vlq_at(s: Seq<u8>, pos: int) -> Option<(nat, int)> {
    let rest = s.skip(pos);
    if 0 <= pos <= s.len() && pos + vlq_len(rest) <= s.len() {
        Some((vlq_value(rest), pos + vlq_len(rest)))
    } else {
        None
    }
}

/// The event type whose status byte stands at `pos` in `s`, and the position
/// after the status (and after the meta type byte, for status 0xFF).
pub open spec fn type_at(s: Seq<u8>, pos: int) -> Option<(TrackEventType, int)> {
    if pos < 0 || pos >= s.len() {
        None
    } else if s[pos] == 0xFF {
        if pos + 1 >= s.len() {
            None
        } else {
            Some((event_type_of(0xFF, s[pos + 1]), pos + 2))
        }
    } else {
        Some((event_type_of(s[pos], 0), pos + 1))
    }
}

/// The position just after the first 0xF7 byte at or after `pos`.
pub open spec fn sysex_end(s: Seq<u8>, pos: int) -> Option<int>
    decreases s.len() - pos,
{
    if pos < 0 || pos >= s.len() {
        None
    } else if s[pos] == 0xF7 {
        Some(pos + 1)
    } else {
        sysex_end(s, pos + 1)
    }
}

/// For an event of type `t` whose status ends at `pos`: the number of payload
/// bytes and the position where they begin.
pub open spec fn payload_at(s: Seq<u8>, pos: int, t: TrackEventType) -> Option<(nat, int)> {
    match size_of_event(t) {
        TrackEventSize::Fixed(n) => Some((n as nat, pos)),
        TrackEventSize::Variable => vlq_at(s, pos),
        TrackEventSize::SysExDelimited => match sysex_end(s, pos) {
            Some(end) => Some(((end - pos) as nat, pos)),
            None => None,
        },
    }
}

/// An event as a value: delta-time, type, and payload.
pub struct EventView {
    pub delta_time: u32,
    pub event_type: TrackEventType,
    pub data: Seq<u8>,
}

/// The event that starts at `pos` in `s`, and the position just after it;
/// `None` where `s` ends before the event does.
pub open spec fn event_at(s: Seq<u8>, pos: int) -> Option<(EventView, int)> {
    match vlq_at(s, pos) {
        None => None,
        Some((delta, p1)) => match type_at(s, p1) {
            None => None,
            Some((t, p2)) => match payload_at(s, p2, t) {
                None => None,
                Some((n, p3)) => if p3 + n <= s.len() {
                    Some(
                        (
                            EventView {
                                delta_time: delta as u32,
                                event_type: t,
                                data: s.subrange(p3, p3 + n),
                            },
                            p3 + n,
                        ),
                    )
                } else {
                    None
                },
            },
        },
    }
}

/// One decoded event. `data_byte_count` is the length of `data_bytes`.
#[derive(Debug)]
pub struct TrackEvent {
    pub delta_time: u32,
    pub event_type: TrackEventType,
    pub data_byte_count: usize,
    pub data_bytes: Vec<u8>,
}

impl View for TrackEvent {
    type V = EventView;

    open spec fn view(&self) -> EventView {
        EventView {
            delta_time: self.delta_time,
            event_type: self.event_type,
            data: self.data_bytes@,
        }
    }
}

impl TrackEvent {
    /// The declared count matches the bytes held.
    pub open spec fn wf(&self) -> bool {
        self.data_byte_count == self.data_bytes@.len()
    }

    /// Reads the quantity at `pos`: the bytes that hold it, followed by zeros
    /// up to four bytes, and the position after it.
    pub fn read_vlq(bytes: &[u8], pos: usize) -> (r: Result<(Vlq, usize), TrackEventError>)
        requires
            pos <= bytes@.len(),
        ensures
            match r {
                Ok((v, end)) => {
                    &&& vlq_len(v@) <= v@.len()
                    &&& vlq_at(bytes@, pos as int) == Some((vlq_value(v@), end as int))
                    &&& v@.take(end - pos) == bytes@.subrange(pos as int, end as int)
                    &&& forall|j: int| end - pos <= j < 4 ==> v@[j] == 0
                },
                Err(e) => e == TrackEventError::UnexpectedEnd && vlq_at(bytes@, pos as int) is None,
            },
    {
        let ghost rest = bytes@.skip(pos as int);
        let mut i: usize = 0;
        loop
            invariant
                rest == bytes@.skip(pos as int),
                pos <= bytes@.len(),
                i < 4,
                forall|j: int| 0 <= j < i ==> rest[j] >= 0x80,
                i < rest.len() || vlq_len(rest) > rest.len(),
            decreases 4 - i,
        {
            if i >= bytes.len() - pos {
                return Err(TrackEventError::UnexpectedEnd);
            }
            let b = bytes[pos + i];
            if b < 0x80 || i == 3 {
                let n = i + 1;
                let v = Vlq(
                    [
                        bytes[pos],
                        if n > 1 { bytes[pos + 1] } else { 0 },
                        if n > 2 { bytes[pos + 2] } else { 0 },
                        if n > 3 { bytes[pos + 3] } else { 0 },
                    ],
                );
                assert(vlq_len(rest) == n);
                assert(vlq_len(v@) == n);
                assert(v@.take(n as int) =~= rest.take(n as int));
                assert(v@.take(n as int) =~= bytes@.subrange(pos as int, pos + n));
                return Ok((v, pos + n));
            }
            i += 1;
        }
    }

    /// Reads the status byte at `pos`, and the meta type byte after it for
    /// status 0xFF; returns the type and the position after what was read.
    pub fn parse_event_type(bytes: &[u8], pos: usize) -> (r: Result<(TrackEventType, usize), TrackEventError>)
        requires
            pos <= bytes@.len(),
        ensures
            match r {
                Ok((t, end)) => type_at(bytes@, pos as int) == Some((t, end as int)),
                Err(e) => e == TrackEventError::UnexpectedEnd && type_at(bytes@, pos as int) is None,
            },
    {
        if pos >= bytes.len() {
            return Err(TrackEventError::UnexpectedEnd);
        }
        let status = bytes[pos];
        if status == 0xFF {
            if pos + 1 >= bytes.len() {
                return Err(TrackEventError::UnexpectedEnd);
            }
            Ok((classify_status(status, bytes[pos + 1]), pos + 2))
        } else {
            Ok((classify_status(status, 0), pos + 1))
        }
    }

    /// Finds the end of a system-exclusive payload that starts at `pos`: the
    /// position just after the next 0xF7 byte.
    pub fn scan_sysex(bytes: &[u8], pos: usize) -> (r: Result<usize, TrackEventError>)
        requires
            pos <= bytes@.len(),
        ensures
            match r {
                Ok(end) => pos < end <= bytes@.len() && sysex_end(bytes@, pos as int) == Some(
                    end as int,
                ),
                Err(e) => e == TrackEventError::UnexpectedEnd && sysex_end(bytes@, pos as int) is None,
            },
    {
        let mut i: usize = pos;
        while i < bytes.len()
            invariant
                pos <= i <= bytes@.len(),
                sysex_end(bytes@, pos as int) == sysex_end(bytes@, i as int),
            decreases bytes@.len() - i,
        {
            if bytes[i] == 0xF7 {
                return Ok(i + 1);
            }
            i += 1;
        }
        Err(TrackEventError::UnexpectedEnd)
    }

    /// Decodes the event that starts at `pos`: a delta-time, a status (with a
    /// meta type byte for status 0xFF), and a payload delimited as
    /// `get_track_event_size_for_event` says. Returns the event and the
    /// position just after it, or `UnexpectedEnd` where the bytes end first.
    /// A system-exclusive payload is scanned up to and including its closing
    /// 0xF7 byte, so that the events after it stay aligned.
    pub fn parse_event(bytes: &[u8], pos: usize) -> (r: Result<(TrackEvent, usize), TrackEventError>)
        requires
            pos <= bytes@.len(),
        ensures
            match r {
                Ok((e, end)) => e.wf() && event_at(bytes@, pos as int) == Some((e@, end as int)),
                Err(err) => err == TrackEventError::UnexpectedEnd && event_at(bytes@, pos as int) is None,
            },
    {
        let (vlq, p1) = match Self::read_vlq(bytes, pos) {
            Ok(x) => x,
            Err(e) => return Err(e),
        };
        proof {
            lemma_vlq_value_bound(vlq@);
        }
        let delta_time = u32::from(vlq);
        let (event_type, p2) = match Self::parse_event_type(bytes, p1) {
            Ok(x) => x,
            Err(e) => return Err(e),
        };
        let (data_byte_count, p3) = match get_track_event_size_for_event(&event_type) {
            TrackEventSize::Fixed(n) => (n, p2),
            TrackEventSize::Variable => {
                let (len, after) = match Self::read_vlq(bytes, p2) {
                    Ok(x) => x,
                    Err(e) => return Err(e),
                };
                proof {
                    lemma_vlq_value_bound(len@);
                }
                (u32::from(len) as usize, after)
            },
            TrackEventSize::SysExDelimited => match Self::scan_sysex(bytes, p2) {
                Ok(end) => (end - p2, p2),
                Err(e) => return Err(e),
            },
        };
        if data_byte_count > bytes.len() - p3 {
            return Err(TrackEventError::UnexpectedEnd);
        }
        let mut data_bytes: Vec<u8> = Vec::new();
        let mut i: usize = 0;
        while i < data_byte_count
            invariant
                p3 + data_byte_count <= bytes@.len(),
                bytes@.len() <= usize::MAX,
                i <= data_byte_count,
                data_bytes@ =~= bytes@.subrange(p3 as int, p3 + i),
            decreases data_byte_count - i,
        {
            data_bytes.push(bytes[p3 + i]);
            i += 1;
        }
        Ok((TrackEvent { delta_time, event_type, data_byte_count, data_bytes }, p3 + data_byte_count))
    }
}

} // verus!
