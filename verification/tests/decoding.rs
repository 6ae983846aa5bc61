use duet_charter::chart::Chart;
use duet_charter::chart::DecodeError;
use duet_charter::chart::KeyPressEvent;
use duet_charter::chart::LyricEvent;
use duet_charter::chart::TempoEvent;
use duet_charter::TimestampedEvent;

#[test]
fn song_properties_decode() {
    let text = "[Song]\n{\n  Name = Some Song\n  Artist = Somebody\n}\n";
    let chart = Chart::new(text).unwrap();
    let props = chart.get_properties();
    assert_eq!(props.get("Name").unwrap(), "Some Song");
    assert_eq!(props.get("Artist").unwrap(), "Somebody");
    assert!(props.get("Album").is_none());
}

#[test]
fn later_duplicate_property_overwrites() {
    let text = "[Song]\n{\n  Name = First\n  Name = Second\n}\n";
    let chart = Chart::new(text).unwrap();
    assert_eq!(chart.get_properties().get("Name").unwrap(), "Second");
}

#[test]
fn tempo_map_decodes_anchor_beat_and_time_signature() {
    let text = "[SyncTrack]\n{\n  0 = B 120000\n  10 = A 500\n  20 = TS 4\n  30 = TS 3 3\n}\n";
    let chart = Chart::new(text).unwrap();
    let tempo = chart.get_tempo_map();
    assert_eq!(tempo.len(), 4);
    assert!(matches!(
        tempo[0],
        TempoEvent::Beat { timestamp: 0, milli_bpm: 120000 }
    ));
    assert!(matches!(
        tempo[1],
        TempoEvent::Anchor { timestamp: 10, song_microseconds: 500 }
    ));
    assert!(matches!(
        tempo[2],
        TempoEvent::TimeSignature { timestamp: 20, time_signature: (4, 4) }
    ));
    assert!(matches!(
        tempo[3],
        TempoEvent::TimeSignature { timestamp: 30, time_signature: (3, 8) }
    ));
}

#[test]
fn time_signature_with_unparsable_exponent_defaults_to_four() {
    let text = "[SyncTrack]\n{\n  0 = TS 6 x\n}\n";
    let chart = Chart::new(text).unwrap();
    assert!(matches!(
        chart.get_tempo_map()[0],
        TempoEvent::TimeSignature { timestamp: 0, time_signature: (6, 4) }
    ));
}

#[test]
fn unknown_tempo_code_is_preserved_not_rejected() {
    let text = "[SyncTrack]\n{\n  768 = X 7\n}\n";
    let chart = Chart::new(text).unwrap();
    let tempo = chart.get_tempo_map();
    assert_eq!(tempo.len(), 1);
    match &tempo[0] {
        TempoEvent::OtherTempoEvent { code, timestamp, content } => {
            assert_eq!(code, "X");
            assert_eq!(*timestamp, 768);
            assert_eq!(content, "7");
        }
        other => panic!("expected OtherTempoEvent, got {:?}", other),
    }
}

#[test]
fn time_signature_without_numerator_is_a_field_error() {
    let text = "[SyncTrack]\n{\n  100 = TS\n}\n";
    match Chart::new(text) {
        Err(DecodeError::NoNumerator { content }) => assert_eq!(content, ""),
        other => panic!("expected the no-numerator error, got {:?}", other),
    }
}

#[test]
fn unparsable_beat_value_is_a_field_error() {
    let text = "[SyncTrack]\n{\n  10 = B abc\n}\n";
    match Chart::new(text) {
        Err(DecodeError::FieldError { field }) => assert_eq!(field, "abc"),
        other => panic!("expected a field error, got {:?}", other),
    }
}

#[test]
fn overflowing_timestamp_is_a_field_error() {
    let text = "[SyncTrack]\n{\n  99999999999 = B 1\n}\n";
    match Chart::new(text) {
        Err(DecodeError::FieldError { field }) => assert_eq!(field, "99999999999"),
        other => panic!("expected a field error, got {:?}", other),
    }
}

#[test]
fn lyric_events_decode_all_variants() {
    let text = "[Events]\n{\n  0 = E \"section\" \"Verse 1\"\n  10 = E \"phrase_start\"\n  12 = E \"lyric\" \"Hel-\"\n  16 = E \"phrase_end\"\n  20 = E \"duet_phrase_start\"\n  22 = E \"duet_lyric\" \"Yo\"\n  26 = E \"duet_phrase_end\"\n  30 = E \"mystery\" \"stuff\"\n}\n";
    let chart = Chart::new(text).unwrap();
    let lyrics = chart.get_lyrics();
    assert_eq!(lyrics.len(), 8);
    match &lyrics[0] {
        LyricEvent::Section { timestamp, text } => {
            assert_eq!(*timestamp, 0);
            assert_eq!(text, "Verse 1");
        }
        other => panic!("expected Section, got {:?}", other),
    }
    assert!(matches!(lyrics[1], LyricEvent::PhraseStart { timestamp: 10 }));
    match &lyrics[2] {
        LyricEvent::Lyric { timestamp, text } => {
            assert_eq!(*timestamp, 12);
            assert_eq!(text, "Hel-");
        }
        other => panic!("expected Lyric, got {:?}", other),
    }
    assert!(matches!(lyrics[3], LyricEvent::PhraseEnd { timestamp: 16 }));
    assert!(matches!(lyrics[4], LyricEvent::DuetPhraseStart { timestamp: 20 }));
    match &lyrics[5] {
        LyricEvent::DuetLyric { timestamp, text } => {
            assert_eq!(*timestamp, 22);
            assert_eq!(text, "Yo");
        }
        other => panic!("expected DuetLyric, got {:?}", other),
    }
    assert!(matches!(lyrics[6], LyricEvent::DuetPhraseEnd { timestamp: 26 }));
    match &lyrics[7] {
        LyricEvent::OtherLyricEvent { code, timestamp, content } => {
            assert_eq!(code, "E");
            assert_eq!(*timestamp, 30);
            assert_eq!(content, "mystery stuff");
        }
        other => panic!("expected OtherLyricEvent, got {:?}", other),
    }
}

#[test]
fn key_presses_decode_under_their_track_name() {
    let text = "[ExpertSingle]\n{\n  768 = N 0 90\n  800 = S 2 100\n  900 = E solo\n  950 = Z strange\n}\n";
    let chart = Chart::new(text).unwrap();
    let tracks = chart.get_key_presses();
    let notes = tracks.get("ExpertSingle").unwrap();
    assert_eq!(notes.len(), 4);
    assert!(matches!(
        notes[0],
        KeyPressEvent::Note { timestamp: 768, duration: 90, key: 0 }
    ));
    assert!(matches!(
        notes[1],
        KeyPressEvent::Special { timestamp: 800, special_type: 2, duration: 100 }
    ));
    match &notes[2] {
        KeyPressEvent::TextEvent { timestamp, content } => {
            assert_eq!(*timestamp, 900);
            assert_eq!(content, "solo");
        }
        other => panic!("expected TextEvent, got {:?}", other),
    }
    match &notes[3] {
        KeyPressEvent::OtherKeyPress { code, timestamp, content } => {
            assert_eq!(code, "Z");
            assert_eq!(*timestamp, 950);
            assert_eq!(content, "strange");
        }
        other => panic!("expected OtherKeyPress, got {:?}", other),
    }
    assert!(tracks.get("EasySingle").is_none());
}

#[test]
fn note_without_duration_is_a_distinct_error() {
    let text = "[ExpertSingle]\n{\n  768 = N 0\n}\n";
    assert!(matches!(Chart::new(text), Err(DecodeError::NoDuration)));
}

#[test]
fn special_without_duration_is_a_distinct_error() {
    let text = "[ExpertSingle]\n{\n  768 = S 2\n}\n";
    assert!(matches!(Chart::new(text), Err(DecodeError::NoDuration)));
}

#[test]
fn blocks_without_headers_are_skipped() {
    let text = "no header here\n{\n  1 = B 2\n}\n";
    let chart = Chart::new(text).unwrap();
    assert_eq!(chart.get_tempo_map().len(), 0);
    assert_eq!(chart.get_lyrics().len(), 0);
    assert_eq!(chart.get_properties().entries().len(), 0);
    assert_eq!(chart.get_key_presses().entries().len(), 0);
}

#[test]
fn empty_input_yields_an_empty_chart() {
    let chart = Chart::new("").unwrap();
    assert_eq!(chart.get_lyrics().len(), 0);
    assert_eq!(chart.get_tempo_map().len(), 0);
}

#[test]
fn repeated_sections_accumulate_events() {
    let text = "[SyncTrack]\n{\n  0 = B 1\n}\n[SyncTrack]\n{\n  5 = B 2\n}\n";
    let chart = Chart::new(text).unwrap();
    assert_eq!(chart.get_tempo_map().len(), 2);
}

#[test]
fn a_later_track_section_replaces_an_earlier_one() {
    let text = "[Foo]\n{\n  1 = E a\n  2 = E b\n}\n[Foo]\n{\n  3 = E c\n}\n";
    let chart = Chart::new(text).unwrap();
    let notes = chart.get_key_presses().get("Foo").unwrap();
    assert_eq!(notes.len(), 1);
    assert_eq!(notes[0].get_timestamp(), 3);
}

#[test]
fn events_carry_their_timestamps() {
    let text = "[SyncTrack]\n{\n  70 = B 1\n}\n[Events]\n{\n  80 = E \"lyric\" \"a\"\n}\n";
    let chart = Chart::new(text).unwrap();
    assert_eq!(chart.get_tempo_map()[0].get_timestamp(), 70);
    assert_eq!(chart.get_lyrics()[0].get_timestamp(), 80);
}

#[test]
fn carriage_return_line_endings_decode_identically() {
    let text = "[SyncTrack]\r\n{\r\n  0 = B 120000\r\n  10 = A 500\r\n}\r\n";
    let chart = Chart::new(text).unwrap();
    let tempo = chart.get_tempo_map();
    assert_eq!(tempo.len(), 2);
    assert!(matches!(
        tempo[0],
        TempoEvent::Beat { timestamp: 0, milli_bpm: 120000 }
    ));
}

#[test]
fn content_stops_at_the_section_delimiter() {
    let text = "[SyncTrack]\n{\n  0 = B 42}";
    let chart = Chart::new(text).unwrap();
    assert!(matches!(
        chart.get_tempo_map()[0],
        TempoEvent::Beat { timestamp: 0, milli_bpm: 42 }
    ));
}
