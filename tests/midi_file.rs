use midi_reader::midi_parse::track::Track;
use midi_reader::midi_parse::track::TrackError;
use midi_reader::midi_parse::track_event::TrackEventError;
use midi_reader::midi_parse::track_event::TrackEventType;
use midi_reader::midi_parse::MidiFile;
use midi_reader::midi_parse::MidiFileError;
use midi_reader::midi_parse::MidiFileHeader;

fn header(format: u16, n_tracks: u16, division: i16) -> Vec<u8> {
    let mut v = b"MThd".to_vec();
    v.extend_from_slice(&6u32.to_be_bytes());
    v.extend_from_slice(&format.to_be_bytes());
    v.extend_from_slice(&n_tracks.to_be_bytes());
    v.extend_from_slice(&division.to_be_bytes());
    v
}

fn track(events: &[u8]) -> Vec<u8> {
    let mut v = b"MTrk".to_vec();
    v.extend_from_slice(&(events.len() as u32).to_be_bytes());
    v.extend_from_slice(events);
    v
}

#[test]
fn end_to_end_single_track() {
    let mut bytes = header(0, 1, 96);
    bytes.extend(track(&[0x00, 0x90, 0x3C, 0x40, 0x00, 0xFF, 0x2F, 0x00]));
    let f = MidiFile::from_bytes(String::from("song.mid"), &bytes).unwrap();
    assert_eq!(f.filename, "song.mid");
    assert_eq!(f.header, MidiFileHeader { length: 6, format: 0, n_tracks: 1, division: 96 });
    assert_eq!(f.tracks.len(), 1);
    let t = &f.tracks[0];
    assert_eq!(t.length, 8);
    assert_eq!(t.events.len(), 2);
    assert_eq!(t.events[0].delta_time, 0);
    assert_eq!(t.events[0].event_type, TrackEventType::NoteOn(0));
    assert_eq!(t.events[0].data_bytes, vec![0x3C, 0x40]);
    assert_eq!(t.events[1].event_type, TrackEventType::MetaEndOfTrack);
    assert_eq!(t.events[1].data_byte_count, 0);
    assert!(t.events[1].data_bytes.is_empty());
}

#[test]
fn wrong_signature_fails_first() {
    let bytes = b"XYZZ".to_vec();
    let e = MidiFile::from_bytes(String::from("x"), &bytes).unwrap_err();
    assert_eq!(e, MidiFileError::InvalidSignature);

    let mut bytes = header(0, 1, 96);
    bytes[0] = b'X';
    bytes[1] = b'Y';
    bytes[2] = b'Z';
    bytes[3] = b'Z';
    assert_eq!(MidiFile::from_bytes(String::from("x"), &bytes).unwrap_err(), MidiFileError::InvalidSignature);
}

#[test]
fn header_errors() {
    let mut bytes = header(0, 0, 96);
    bytes[7] = 7;
    assert_eq!(MidiFile::from_bytes(String::new(), &bytes).unwrap_err(), MidiFileError::InvalidHeaderLength(7));

    let bytes = header(3, 0, 96);
    assert_eq!(MidiFile::from_bytes(String::new(), &bytes).unwrap_err(), MidiFileError::InvalidFormat(3));

    let bytes = header(1, 0, 96);
    assert_eq!(MidiFile::from_bytes(String::new(), &bytes[..12]).unwrap_err(), MidiFileError::UnexpectedEnd);
    assert_eq!(MidiFile::from_bytes(String::new(), &bytes[..2]).unwrap_err(), MidiFileError::UnexpectedEnd);
}

#[test]
fn header_without_tracks() {
    let bytes = header(2, 0, -6360);
    let f = MidiFile::from_bytes(String::new(), &bytes).unwrap();
    assert_eq!(f.header.format, 2);
    assert_eq!(f.header.division, -6360);
    assert!(f.tracks.is_empty());
}

#[test]
fn declared_tracks_are_all_read() {
    let mut bytes = header(1, 2, 480);
    bytes.extend(track(&[0x00, 0xFF, 0x2F, 0x00]));
    bytes.extend(track(&[0x10, 0xC3, 0x05, 0x00, 0xFF, 0x2F, 0x00]));
    let f = MidiFile::from_bytes(String::new(), &bytes).unwrap();
    assert_eq!(f.tracks.len(), 2);
    assert_eq!(f.tracks[0].events.len(), 1);
    assert_eq!(f.tracks[1].events.len(), 2);
    assert_eq!(f.tracks[1].events[0].delta_time, 0x10);
    assert_eq!(f.tracks[1].events[0].event_type, TrackEventType::ProgramChange(3));

    let mut bytes = header(1, 2, 480);
    bytes.extend(track(&[0x00, 0xFF, 0x2F, 0x00]));
    assert_eq!(
        MidiFile::from_bytes(String::new(), &bytes).unwrap_err(),
        MidiFileError::TrackParseError(1, TrackError::UnexpectedEnd)
    );
}

#[test]
fn track_errors() {
    let mut bytes = header(0, 1, 96);
    bytes.extend(b"MTrX\x00\x00\x00\x04\x00\xFF\x2F\x00");
    assert_eq!(
        MidiFile::from_bytes(String::new(), &bytes).unwrap_err(),
        MidiFileError::TrackParseError(0, TrackError::InvalidSignature)
    );

    let mut bytes = header(0, 1, 96);
    bytes.extend(track(&[0x00, 0x90, 0x3C, 0x40]));
    assert_eq!(
        MidiFile::from_bytes(String::new(), &bytes).unwrap_err(),
        MidiFileError::TrackParseError(0, TrackError::TrackEvent(TrackEventError::UnexpectedEnd))
    );
}

#[test]
fn track_stops_at_end_of_track() {
    let bytes = track(&[0x00, 0xFF, 0x2F, 0x00, 0x00, 0x90, 0x3C, 0x40]);
    let (t, end) = Track::from_bytes(&bytes, 0).unwrap();
    assert_eq!(t.events.len(), 1);
    assert_eq!(t.events[0].event_type, TrackEventType::MetaEndOfTrack);
    assert_eq!(end, 12);

    let bytes = track(&[0x00, 0x90, 0x3C, 0x40, 0x00, 0xFF, 0x01, 0x02, 0x68, 0x69, 0x00, 0xFF, 0x2F, 0x00, 0x77]);
    let (t, end) = Track::from_bytes(&bytes, 0).unwrap();
    assert_eq!(t.length, 15);
    assert_eq!(t.events.len(), 3);
    assert_eq!(t.events[1].event_type, TrackEventType::MetaText);
    assert_eq!(t.events[1].data_bytes, b"hi".to_vec());
    assert_eq!(end, 22);
}

#[test]
fn track_events_stop_after_first_end_of_track() {
    let bytes = [0x00, 0xFF, 0x2F, 0x00, 0x00, 0xFF, 0x2F, 0x00];
    let (evs, end) = Track::parse_track_events(&bytes, 0).unwrap();
    assert_eq!(evs.len(), 1);
    assert_eq!(end, 4);
    assert_eq!(
        Track::parse_track_events(&[0x00, 0x90, 0x3C], 0).unwrap_err(),
        TrackError::TrackEvent(TrackEventError::UnexpectedEnd)
    );
}
