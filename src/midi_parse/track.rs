//! Track chunks: a signature, a declared length, and events up to the end of the track.
use vstd::prelude::*;

use super::be_u32;
use super::read_u32_be;
use super::track_event::EventView;
use super::track_event::TrackEvent;
use super::track_event::TrackEventError;
use super::track_event::TrackEventType;
use super::track_event::event_at;

verus! {

/// An event ends after the position where it starts.
pub proof fn lemma_event_advances(s: Seq<u8>, pos: int)
    requires
        event_at(s, pos) is Some,
    ensures
        pos < event_at(s, pos)->Some_0.1 <= s.len(),
{
}

/// The events from `pos` up to and including the first end-of-track event,
/// and the position after it; the error of the first event that could not
/// be decoded.
pub open spec fn events_from(s: Seq<u8>, pos: int) -> Result<(Seq<EventView>, int), TrackEventError>
    decreases s.len() - pos,
    via events_from_decreases
{
    match event_at(s, pos) {
        None => Err(TrackEventError::UnexpectedEnd),
        Some((e, end)) => if e.event_type == TrackEventType::MetaEndOfTrack {
            Ok((seq![e], end))
        } else {
            prepend(seq![e], events_from(s, end))
        },
    }
}

#[via_fn]
proof fn events_from_decreases(s: Seq<u8>, pos: int) {
    if event_at(s, pos) is Some {
        lemma_event_advances(s, pos);
    }
}

/// A decoded track ends with its first end-of-track event: the last event is
/// one, no earlier event is, and an end-of-track event at `pos` is a track of
/// that one event.
pub proof fn lemma_track_termination(s: Seq<u8>, pos: int)
    ensures
        events_from(s, pos) is Ok ==> ({
            let evs = events_from(s, pos)->Ok_0.0;
            evs.len() >= 1 && evs.last().event_type == TrackEventType::MetaEndOfTrack && forall|
                i: int,
            |
                0 <= i < evs.len() - 1 ==> (#[trigger] evs[i]).event_type
                    != TrackEventType::MetaEndOfTrack
        }),
        event_at(s, pos) is Some && event_at(s, pos)->Some_0.0.event_type
            == TrackEventType::MetaEndOfTrack ==> events_from(s, pos) == Ok::<
            (Seq<EventView>, int),
            TrackEventError,
        >((seq![event_at(s, pos)->Some_0.0], event_at(s, pos)->Some_0.1)),
    decreases s.len() - pos,
{
    if let Some((e, end)) = event_at(s, pos) {
        lemma_event_advances(s, pos);
        if e.event_type != TrackEventType::MetaEndOfTrack {
            lemma_track_termination(s, end);
            if let Ok((rest, _)) = events_from(s, end) {
                let evs = seq![e] + rest;
                assert(evs.last() == rest.last());
                assert forall|i: int| 0 <= i < evs.len() - 1 implies (#[trigger] evs[i]).event_type
                    != TrackEventType::MetaEndOfTrack by {
                    if i > 0 {
                        assert(evs[i] == rest[i - 1]);
                    }
                }
            }
        }
    }
}

/// `done` followed by the events of `rest`, or the error of `rest`.
pub open spec fn prepend(
    done: Seq<EventView>,
    rest: Result<(Seq<EventView>, int), TrackEventError>,
) -> Result<(Seq<EventView>, int), TrackEventError> {
    match rest {
        Ok((evs, end)) => Ok((done + evs, end)),
        Err(e) => Err(e),
    }
}

proof fn lemma_prepend_assoc(
    a: Seq<EventView>,
    b: Seq<EventView>,
    rest: Result<(Seq<EventView>, int), TrackEventError>,
)
    ensures
        prepend(a, prepend(b, rest)) == prepend(a + b, rest),
{
    if let Ok((evs, end)) = rest {
        assert(a + (b + evs) =~= (a + b) + evs);
    }
}

/// The values of a sequence of decoded events.
pub open spec fn event_views(evs: Seq<TrackEvent>) -> Seq<EventView> {
    evs.map_values(|e: TrackEvent| e@)
}

/// Why a track could not be decoded.
#[derive(Debug, Clone, Copy, PartialEq, Eq, Structural)]
pub enum TrackError {
    /// The bytes ended inside the chunk header.
    UnexpectedEnd,
    /// The chunk does not begin with `MTrk`.
    InvalidSignature,
    /// An event of the track could not be decoded.
    TrackEvent(TrackEventError),
}

/// A track as a value: the declared length, and the events.
pub struct TrackView {
    pub length: u32,
    pub events: Seq<EventView>,
}

/// The signature of a track chunk, `MTrk`.
pub open spec fn track_signature() -> Seq<u8> {
    seq![0x4Du8, 0x54u8, 0x72u8, 0x6Bu8]
}

/// The track chunk that starts at `pos`, and the position after its last event.
pub open spec fn track_at(s: Seq<u8>, pos: int) -> Result<(TrackView, int), TrackError> {
    if pos < 0 || pos + 4 > s.len() {
        Err(TrackError::UnexpectedEnd)
    } else if s.subrange(pos, pos + 4) != track_signature() {
        Err(TrackError::InvalidSignature)
    } else if pos + 8 > s.len() {
        Err(TrackError::UnexpectedEnd)
    } else {
        match events_from(s, pos + 8) {
            Ok((evs, end)) => Ok((TrackView { length: be_u32(s, pos + 4), events: evs }, end)),
            Err(e) => Err(TrackError::TrackEvent(e)),
        }
    }
}

/// A decoded track chunk.
#[derive(Debug)]
pub struct Track {
    pub length: u32,
    pub events: Vec<TrackEvent>,
}

impl View for Track {
    type V = TrackView;

    open spec fn view(&self) -> TrackView {
        TrackView { length: self.length, events: event_views(self.events@) }
    }
}

impl Track {
    /// Every event holds as many bytes as it declares.
    pub open spec fn wf(&self) -> bool {
        forall|i: int| 0 <= i < self.events@.len() ==> (#[trigger] self.events@[i]).wf()
    }

    /// Decodes events from `pos` until an end-of-track event, which is kept.
    pub fn parse_track_events(bytes: &[u8], pos: usize) -> (r: Result<(Vec<TrackEvent>, usize), TrackError>)
        requires
            pos <= bytes@.len(),
        ensures
            match r {
                Ok((evs, end)) => end <= bytes@.len() && (forall|i: int| 0 <= i < evs@.len() ==> (#[trigger] evs@[i]).wf())
                    && events_from(bytes@, pos as int) == Ok::<(Seq<EventView>, int), TrackEventError>(
                    (event_views(evs@), end as int),
                ),
                Err(e) => exists|x: TrackEventError|
                    events_from(bytes@, pos as int) == Err::<(Seq<EventView>, int), TrackEventError>(x)
                        && e == TrackError::TrackEvent(x),
            },
    {
        let mut events: Vec<TrackEvent> = Vec::new();
        let mut cur: usize = pos;
        loop
            invariant
                cur <= bytes@.len(),
                forall|i: int| 0 <= i < events@.len() ==> (#[trigger] events@[i]).wf(),
                events_from(bytes@, pos as int) == prepend(
                    event_views(events@),
                    events_from(bytes@, cur as int),
                ),
            decreases bytes@.len() - cur,
        {
            let ghost before = events@;
            let (event, next) = match TrackEvent::parse_event(bytes, cur) {
                Ok(x) => x,
                Err(e) => {
                    return Err(TrackError::TrackEvent(e));
                },
            };
            proof {
                lemma_event_advances(bytes@, cur as int);
            }
            let is_end = event.event_type == TrackEventType::MetaEndOfTrack;
            events.push(event);
            proof {
                assert(event_views(events@) =~= event_views(before) + seq![event@]);
                if !is_end {
                    lemma_prepend_assoc(
                        event_views(before),
                        seq![event@],
                        events_from(bytes@, next as int),
                    );
                }
            }
            if is_end {
                return Ok((events, next));
            }
            cur = next;
        }
    }
    /// Decodes the track chunk that starts at `pos`: the `MTrk` signature, the
    /// declared length (recorded, not checked against the bytes used), and the
    /// events up to and including the first end-of-track event. Returns the
    /// track and the position after its last event.
    pub fn from_bytes(bytes: &[u8], pos: usize) -> (r: Result<(Track, usize), TrackError>)
        requires
            pos <= bytes@.len(),
        ensures
            match r {
                Ok((t, end)) => end <= bytes@.len() && t.wf() && track_at(bytes@, pos as int) == Ok::<(TrackView, int), TrackError>(
                    (t@, end as int),
                ),
                Err(e) => track_at(bytes@, pos as int) == Err::<(TrackView, int), TrackError>(e),
            },
    {
        if bytes.len() - pos < 4 {
            return Err(TrackError::UnexpectedEnd);
        }
        if !(bytes[pos] == 0x4D && bytes[pos + 1] == 0x54 && bytes[pos + 2] == 0x72 && bytes[pos + 3]
            == 0x6B) {
            proof {
                assert(bytes@.subrange(pos as int, pos + 4) != track_signature()) by {
                    let sub = bytes@.subrange(pos as int, pos + 4);
                    assert(sub[0] == bytes@[pos as int] && sub[1] == bytes@[pos + 1] && sub[2]
                        == bytes@[pos + 2] && sub[3] == bytes@[pos + 3]);
                }
            }
            return Err(TrackError::InvalidSignature);
        }
        assert(bytes@.subrange(pos as int, pos + 4) =~= track_signature());
        if bytes.len() - pos < 8 {
            return Err(TrackError::UnexpectedEnd);
        }
        let length = read_u32_be(bytes, pos + 4);
        match Self::parse_track_events(bytes, pos + 8) {
            Ok((events, end)) => Ok((Track { length, events }, end)),
            Err(e) => Err(e),
        }
    }
}

} // verus!
