//! The file header chunk and the framing of a whole file.
pub mod track;
pub mod track_event;

use vstd::prelude::*;

use track::Track;
use track::TrackError;
use track::TrackView;
use track::track_at;

verus! {

/// The big-endian unsigned integer in the four bytes at `pos`.
pub open spec fn be_u32(s: Seq<u8>, pos: int) -> u32 {
    (s[pos] * 0x100_0000 + s[pos + 1] * 0x1_0000 + s[pos + 2] * 0x100 + s[pos + 3]) as u32
}

/// Reads the big-endian unsigned integer in the four bytes at `pos`.
pub fn read_u32_be(bytes: &[u8], pos: usize) -> (r: u32)
    requires
        pos + 4 <= bytes@.len(),
    ensures
        r == be_u32(bytes@, pos as int),
{
    (bytes[pos] as u32) * 0x100_0000 + (bytes[pos + 1] as u32) * 0x1_0000 + (bytes[pos + 2] as u32)
        * 0x100 + bytes[pos + 3] as u32
}

/// The big-endian unsigned integer in the two bytes at `pos`.
pub open spec fn be_u16(s: Seq<u8>, pos: int) -> u16 {
    (s[pos] * 0x100 + s[pos + 1]) as u16
}

/// The big-endian two's-complement integer in the two bytes at `pos`.
pub open spec fn be_i16(s: Seq<u8>, pos: int) -> i16 {
    let v = s[pos] * 0x100 + s[pos + 1];
    if v < 0x8000 {
        v as i16
    } else {
        (v - 0x1_0000) as i16
    }
}

/// Reads the big-endian unsigned integer in the two bytes at `pos`.
pub fn read_u16_be(bytes: &[u8], pos: usize) -> (r: u16)
    requires
        pos + 2 <= bytes@.len(),
    ensures
        r == be_u16(bytes@, pos as int),
{
    (bytes[pos] as u16) * 0x100 + bytes[pos + 1] as u16
}

/// Reads the big-endian two's-complement integer in the two bytes at `pos`.
pub fn read_i16_be(bytes: &[u8], pos: usize) -> (r: i16)
    requires
        pos + 2 <= bytes@.len(),
    ensures
        r == be_i16(bytes@, pos as int),
{
    let v = read_u16_be(bytes, pos);
    if v < 0x8000 {
        v as i16
    } else {
        (v as i32 - 0x1_0000) as i16
    }
}

/// The fields of the file header chunk.
#[derive(Debug, Clone, Copy, PartialEq, Eq, Structural)]
pub struct MidiFileHeader {
    /// The declared length of the header chunk; always 6.
    pub length: u32,
    /// 0: a single track; 1: synchronous tracks; 2: independent tracks.
    pub format: u16,
    /// The number of track chunks that follow.
    pub n_tracks: u16,
    /// Ticks per quarter note where positive, an SMPTE frame rate where negative.
    pub division: i16,
}

/// Why a file could not be decoded.
#[derive(Debug, Clone, Copy, PartialEq, Eq, Structural)]
pub enum MidiFileError {
    /// The bytes ended inside the header chunk.
    UnexpectedEnd,
    /// The file does not begin with `MThd`.
    InvalidSignature,
    /// The header chunk declares a length other than 6.
    InvalidHeaderLength(u32),
    /// The format is not 0, 1 or 2.
    InvalidFormat(u16),
    /// The track chunk of this index, counting from 0, could not be decoded.
    TrackParseError(u16, TrackError),
}

/// The signature of the header chunk, `MThd`.
pub open spec fn file_signature() -> Seq<u8> {
    seq![0x4Du8, 0x54u8, 0x68u8, 0x64u8]
}

/// The header of the file `s`, checked in the order in which its fields stand.
pub open spec fn header_of(s: Seq<u8>) -> Result<MidiFileHeader, MidiFileError> {
    if s.len() < 4 {
        Err(MidiFileError::UnexpectedEnd)
    } else if s.take(4) != file_signature() {
        Err(MidiFileError::InvalidSignature)
    } else if s.len() < 8 {
        Err(MidiFileError::UnexpectedEnd)
    } else if be_u32(s, 4) != 6 {
        Err(MidiFileError::InvalidHeaderLength(be_u32(s, 4)))
    } else if s.len() < 10 {
        Err(MidiFileError::UnexpectedEnd)
    } else if be_u16(s, 8) > 2 {
        Err(MidiFileError::InvalidFormat(be_u16(s, 8)))
    } else if s.len() < 14 {
        Err(MidiFileError::UnexpectedEnd)
    } else {
        Ok(
            MidiFileHeader {
                length: 6,
                format: be_u16(s, 8),
                n_tracks: be_u16(s, 10),
                division: be_i16(s, 12),
            },
        )
    }
}

/// `n` track chunks, one after another from `pos`, and the position after
/// the last; for the first that could not be decoded, its index among the
/// `n` and its error.
pub open spec fn tracks_from(s: Seq<u8>, pos: int, n: nat) -> Result<(Seq<TrackView>, int), (nat, TrackError)>
    decreases n,
{
    if n == 0 {
        Ok((seq![], pos))
    } else {
        match track_at(s, pos) {
            Err(e) => Err((0, e)),
            Ok((t, end)) => prepend_tracks(seq![t], tracks_from(s, end, (n - 1) as nat)),
        }
    }
}

/// `done` followed by the tracks of `rest`, or the error of `rest` with its
/// index moved past `done`.
pub open spec fn prepend_tracks(
    done: Seq<TrackView>,
    rest: Result<(Seq<TrackView>, int), (nat, TrackError)>,
) -> Result<(Seq<TrackView>, int), (nat, TrackError)> {
    match rest {
        Ok((ts, end)) => Ok((done + ts, end)),
        Err((k, e)) => Err((done.len() + k, e)),
    }
}

proof fn lemma_prepend_tracks_assoc(
    a: Seq<TrackView>,
    b: Seq<TrackView>,
    rest: Result<(Seq<TrackView>, int), (nat, TrackError)>,
)
    ensures
        prepend_tracks(a, prepend_tracks(b, rest)) == prepend_tracks(a + b, rest),
{
    if let Ok((ts, end)) = rest {
        assert(a + (b + ts) =~= (a + b) + ts);
    }
}

/// The file `s` as a header and the tracks that it declares.
pub open spec fn file_of(s: Seq<u8>) -> Result<(MidiFileHeader, Seq<TrackView>), MidiFileError> {
    match header_of(s) {
        Err(e) => Err(e),
        Ok(h) => match tracks_from(s, 14, h.n_tracks as nat) {
            Ok((ts, _)) => Ok((h, ts)),
            Err((k, e)) => Err(MidiFileError::TrackParseError(k as u16, e)),
        },
    }
}

/// The values of a sequence of decoded tracks.
pub open spec fn track_views(ts: Seq<Track>) -> Seq<TrackView> {
    ts.map_values(|t: Track| t@)
}

/// A decoded file: the name it was read under, its header, and its tracks.
#[derive(Debug)]
pub struct MidiFile {
    pub filename: String,
    pub header: MidiFileHeader,
    pub tracks: Vec<Track>,
}

impl MidiFile {
    /// Every track is well formed.
    pub open spec fn wf(&self) -> bool {
        forall|i: int| 0 <= i < self.tracks@.len() ==> (#[trigger] self.tracks@[i]).wf()
    }

    /// Checks that the file begins with `MThd`.
    fn check_signature(bytes: &[u8]) -> (r: Result<(), MidiFileError>)
        ensures
            r is Ok <==> bytes@.len() >= 4 && bytes@.take(4) == file_signature(),
            bytes@.len() < 4 ==> r == Err::<(), MidiFileError>(MidiFileError::UnexpectedEnd),
            bytes@.len() >= 4 && bytes@.take(4) != file_signature() ==> r == Err::<(), MidiFileError>(
                MidiFileError::InvalidSignature,
            ),
    {
        if bytes.len() < 4 {
            return Err(MidiFileError::UnexpectedEnd);
        }
        if bytes[0] == 0x4D && bytes[1] == 0x54 && bytes[2] == 0x68 && bytes[3] == 0x64 {
            assert(bytes@.take(4) =~= file_signature());
            Ok(())
        } else {
            proof {
                let t = bytes@.take(4);
                assert(t[0] == bytes@[0] && t[1] == bytes@[1] && t[2] == bytes@[2] && t[3]
                    == bytes@[3]);
            }
            Err(MidiFileError::InvalidSignature)
        }
    }

    /// Reads and checks the header fields that follow the signature.
    fn parse_header(bytes: &[u8]) -> (r: Result<MidiFileHeader, MidiFileError>)
        requires
            bytes@.len() >= 4,
            bytes@.take(4) == file_signature(),
        ensures
            r == header_of(bytes@),
    {
        if bytes.len() < 8 {
            return Err(MidiFileError::UnexpectedEnd);
        }
        let length = read_u32_be(bytes, 4);
        if length != 6 {
            return Err(MidiFileError::InvalidHeaderLength(length));
        }
        if bytes.len() < 10 {
            return Err(MidiFileError::UnexpectedEnd);
        }
        let format = read_u16_be(bytes, 8);
        if format != 0 && format != 1 && format != 2 {
            return Err(MidiFileError::InvalidFormat(format));
        }
        if bytes.len() < 12 {
            return Err(MidiFileError::UnexpectedEnd);
        }
        let n_tracks = read_u16_be(bytes, 10);
        if bytes.len() < 14 {
            return Err(MidiFileError::UnexpectedEnd);
        }
        let division = read_i16_be(bytes, 12);
        Ok(MidiFileHeader { length, format, n_tracks, division })
    }

    /// Decodes a whole file held in `bytes`: the header chunk, then as many
    /// track chunks as the header declares, one after another. `filename` is
    /// kept as given.
    pub fn from_bytes(filename: String, bytes: &[u8]) -> (r: Result<MidiFile, MidiFileError>)
        ensures
            match r {
                Ok(f) => f.wf() && f.header.length == 6 && f.header.format <= 2 && f.filename@
                    == filename@ && file_of(bytes@) == Ok::<
                    (MidiFileHeader, Seq<TrackView>),
                    MidiFileError,
                >((f.header, track_views(f.tracks@))),
                Err(e) => file_of(bytes@) == Err::<(MidiFileHeader, Seq<TrackView>), MidiFileError>(e),
            },
    {
        match Self::check_signature(bytes) {
            Ok(()) => {},
            Err(e) => return Err(e),
        }
        let header = match Self::parse_header(bytes) {
            Ok(h) => h,
            Err(e) => return Err(e),
        };
        let mut tracks: Vec<Track> = Vec::new();
        let mut cur: usize = 14;
        let mut i: u16 = 0;
        while i < header.n_tracks
            invariant
                header_of(bytes@) == Ok::<MidiFileHeader, MidiFileError>(header),
                cur <= bytes@.len(),
                i <= header.n_tracks,
                tracks@.len() == i,
                forall|k: int| 0 <= k < tracks@.len() ==> (#[trigger] tracks@[k]).wf(),
                tracks_from(bytes@, 14, header.n_tracks as nat) == prepend_tracks(
                    track_views(tracks@),
                    tracks_from(bytes@, cur as int, (header.n_tracks - i) as nat),
                ),
            decreases header.n_tracks - i,
        {
            let ghost before = tracks@;
            let ghost left = (header.n_tracks - i) as nat;
            let (track, next) = match Track::from_bytes(bytes, cur) {
                Ok(x) => x,
                Err(e) => {
                    return Err(MidiFileError::TrackParseError(i, e));
                },
            };
            tracks.push(track);
            proof {
                assert(track_views(tracks@) =~= track_views(before) + seq![track@]);
                lemma_prepend_tracks_assoc(
                    track_views(before),
                    seq![track@],
                    tracks_from(bytes@, next as int, (left - 1) as nat),
                );
            }
            cur = next;
            i += 1;
        }
        proof {
            assert(prepend_tracks(track_views(tracks@), tracks_from(bytes@, cur as int, 0))
                == Ok::<(Seq<TrackView>, int), (nat, TrackError)>((track_views(tracks@) + seq![], cur as int)));
            assert(track_views(tracks@) + seq![] =~= track_views(tracks@));
        }
        Ok(MidiFile { filename, header, tracks })
    }
}

} // verus!
