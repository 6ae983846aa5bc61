use duet_charter::chart::Chart;
use duet_charter::chart::LyricEvent;
use duet_charter::phrases::LyricPhraseCollection;
use duet_charter::TimestampedEvent;

fn lyric(timestamp: u32, text: &str) -> LyricEvent {
    LyricEvent::Lyric { timestamp, text: String::from(text) }
}

#[test]
fn scenario_two_phrases_with_fallback_end() {
    let text = "[Events]\n{\n  10 = E \"phrase_start\"\n  12 = E \"lyric\" \"Hel-\"\n  14 = E \"lyric\" \"lo\"\n  16 = E \"phrase_end\"\n  20 = E \"phrase_start\"\n  22 = E \"lyric\" \"World\"\n}\n";
    let chart = Chart::new(text).unwrap();
    let phrases = LyricPhraseCollection::new(chart.get_lyrics());
    let main = phrases.get_main_phrases();
    assert_eq!(main.len(), 2);
    assert_eq!(main[0].get_start_timestamp(), 10);
    assert_eq!(main[0].get_end_timestamp(), 16);
    assert_eq!(main[0].render(), "Hello");
    assert_eq!(main[1].get_start_timestamp(), 20);
    assert_eq!(main[1].get_end_timestamp(), 23);
    assert_eq!(main[1].render(), "World");
    assert_eq!(phrases.get_duet_phrases().len(), 0);
}

#[test]
fn round_trip_count_matches_phrase_starts() {
    let events = vec![
        LyricEvent::PhraseStart { timestamp: 0 },
        lyric(1, "a"),
        LyricEvent::PhraseEnd { timestamp: 2 },
        LyricEvent::Section { timestamp: 3, text: String::from("chorus") },
        LyricEvent::PhraseStart { timestamp: 4 },
        LyricEvent::PhraseStart { timestamp: 9 },
        LyricEvent::DuetPhraseStart { timestamp: 11 },
    ];
    let count = events
        .iter()
        .filter(|e| matches!(e, LyricEvent::PhraseStart { .. }))
        .count();
    let phrases = LyricPhraseCollection::new(&events);
    assert_eq!(phrases.get_main_phrases().len(), count);
    assert_eq!(phrases.get_main_phrases().len(), 3);
    assert_eq!(phrases.get_duet_phrases().len(), 1);
}

#[test]
fn rendering_is_empty_exactly_for_passive_inputs() {
    let passive = vec![
        LyricEvent::Section { timestamp: 0, text: String::from("intro") },
        LyricEvent::OtherLyricEvent {
            code: String::from("E"),
            timestamp: 5,
            content: String::from("odd"),
        },
    ];
    let phrases = LyricPhraseCollection::new(&passive);
    let joined: String = phrases
        .get_main_phrases()
        .iter()
        .map(|p| p.display_line())
        .collect();
    assert!(joined.is_empty());

    let active = vec![LyricEvent::PhraseStart { timestamp: 0 }, lyric(1, "la")];
    let phrases = LyricPhraseCollection::new(&active);
    let joined: String = phrases
        .get_main_phrases()
        .iter()
        .map(|p| p.display_line())
        .collect();
    assert!(!joined.is_empty());
}

#[test]
fn duet_events_never_reach_main_phrases() {
    let events = vec![
        LyricEvent::DuetPhraseStart { timestamp: 0 },
        LyricEvent::DuetLyric { timestamp: 1, text: String::from("solo") },
        LyricEvent::DuetPhraseEnd { timestamp: 5 },
    ];
    let phrases = LyricPhraseCollection::new(&events);
    assert_eq!(phrases.get_main_phrases().len(), 0);
    let duet = phrases.get_duet_phrases();
    assert_eq!(duet.len(), 1);
    assert_eq!(duet[0].get_start_timestamp(), 0);
    assert_eq!(duet[0].get_end_timestamp(), 5);
    assert_eq!(duet[0].render(), "solo");
}

#[test]
fn plain_events_never_reach_duet_phrases() {
    let events = vec![
        LyricEvent::PhraseStart { timestamp: 0 },
        lyric(1, "main"),
        LyricEvent::PhraseEnd { timestamp: 5 },
    ];
    let phrases = LyricPhraseCollection::new(&events);
    assert_eq!(phrases.get_main_phrases().len(), 1);
    assert_eq!(phrases.get_duet_phrases().len(), 0);
}

#[test]
fn duet_track_segments_independently() {
    let events = vec![
        LyricEvent::PhraseStart { timestamp: 0 },
        lyric(1, "main"),
        LyricEvent::DuetPhraseStart { timestamp: 2 },
        LyricEvent::DuetLyric { timestamp: 3, text: String::from("duet") },
        LyricEvent::PhraseEnd { timestamp: 4 },
        LyricEvent::DuetPhraseEnd { timestamp: 6 },
    ];
    let phrases = LyricPhraseCollection::new(&events);
    let main = phrases.get_main_phrases();
    let duet = phrases.get_duet_phrases();
    assert_eq!(main.len(), 1);
    assert_eq!(main[0].render(), "main");
    assert_eq!(main[0].get_end_timestamp(), 4);
    assert_eq!(duet.len(), 1);
    assert_eq!(duet[0].render(), "duet");
    assert_eq!(duet[0].get_end_timestamp(), 6);
}

#[test]
fn windows_are_disjoint_and_ends_stay_before_next_start() {
    let events = vec![
        LyricEvent::PhraseStart { timestamp: 0 },
        lyric(1, "one"),
        LyricEvent::PhraseStart { timestamp: 10 },
        lyric(10, "two"),
        LyricEvent::PhraseStart { timestamp: 20 },
        lyric(25, "three"),
    ];
    let phrases = LyricPhraseCollection::new(&events);
    let main = phrases.get_main_phrases();
    assert_eq!(main.len(), 3);
    for i in 0..main.len() - 1 {
        assert!(main[i].get_end_timestamp() <= main[i + 1].get_start_timestamp());
    }
    // the boundary lyric at tick 10 belongs to the second phrase only
    assert_eq!(main[0].get_lyrics().len(), 1);
    assert_eq!(main[1].get_lyrics().len(), 1);
    assert_eq!(main[1].get_lyrics()[0].get_text(), "two");
    assert_eq!(main[2].get_lyrics().len(), 1);
}

#[test]
fn hyphen_joins_syllables_and_space_separates_words() {
    let hyphenated = vec![
        LyricEvent::PhraseStart { timestamp: 0 },
        lyric(1, "Hel-"),
        lyric(2, "lo"),
    ];
    let phrases = LyricPhraseCollection::new(&hyphenated);
    assert_eq!(phrases.get_main_phrases()[0].render(), "Hello");

    let spaced = vec![
        LyricEvent::PhraseStart { timestamp: 0 },
        lyric(1, "Hi"),
        lyric(2, "there"),
    ];
    let phrases = LyricPhraseCollection::new(&spaced);
    assert_eq!(phrases.get_main_phrases()[0].render(), "Hi there");
}

#[test]
fn end_resolution_follows_the_fallback_chain() {
    // (a) an explicit phrase end inside the window wins
    let with_end = vec![
        LyricEvent::PhraseStart { timestamp: 0 },
        lyric(1, "a"),
        LyricEvent::PhraseEnd { timestamp: 7 },
        LyricEvent::PhraseStart { timestamp: 9 },
    ];
    let phrases = LyricPhraseCollection::new(&with_end);
    assert_eq!(phrases.get_main_phrases()[0].get_end_timestamp(), 7);

    // (b) else the next phrase's start
    let with_next = vec![
        LyricEvent::PhraseStart { timestamp: 0 },
        lyric(1, "a"),
        LyricEvent::PhraseStart { timestamp: 9 },
    ];
    let phrases = LyricPhraseCollection::new(&with_next);
    assert_eq!(phrases.get_main_phrases()[0].get_end_timestamp(), 9);

    // (c) else one tick past the last collected lyric
    let with_lyrics = vec![
        LyricEvent::PhraseStart { timestamp: 0 },
        lyric(1, "a"),
        lyric(6, "b"),
    ];
    let phrases = LyricPhraseCollection::new(&with_lyrics);
    assert_eq!(phrases.get_main_phrases()[0].get_end_timestamp(), 7);

    // (d) else one tick past the phrase's own start
    let bare = vec![LyricEvent::PhraseStart { timestamp: 41 }];
    let phrases = LyricPhraseCollection::new(&bare);
    assert_eq!(phrases.get_main_phrases()[0].get_end_timestamp(), 42);
}

#[test]
fn a_phrase_end_at_the_window_bound_still_closes_the_phrase() {
    let events = vec![
        LyricEvent::PhraseStart { timestamp: 0 },
        LyricEvent::PhraseEnd { timestamp: 9 },
        LyricEvent::PhraseStart { timestamp: 9 },
    ];
    let phrases = LyricPhraseCollection::new(&events);
    assert_eq!(phrases.get_main_phrases()[0].get_end_timestamp(), 9);
}

#[test]
fn encode_rebuilds_the_main_phrase_events() {
    let events = vec![
        LyricEvent::PhraseStart { timestamp: 10 },
        lyric(12, "Hel-"),
        lyric(14, "lo"),
        LyricEvent::PhraseEnd { timestamp: 16 },
    ];
    let phrases = LyricPhraseCollection::new(&events);
    let encoded = phrases.encode();
    assert_eq!(encoded.len(), 4);
    assert!(matches!(encoded[0], LyricEvent::PhraseStart { timestamp: 10 }));
    match &encoded[1] {
        LyricEvent::Lyric { timestamp, text } => {
            assert_eq!(*timestamp, 12);
            assert_eq!(text, "Hel-");
        }
        other => panic!("expected Lyric, got {:?}", other),
    }
    match &encoded[2] {
        LyricEvent::Lyric { timestamp, text } => {
            assert_eq!(*timestamp, 14);
            assert_eq!(text, "lo");
        }
        other => panic!("expected Lyric, got {:?}", other),
    }
    assert!(matches!(encoded[3], LyricEvent::PhraseEnd { timestamp: 16 }));
}

#[test]
fn display_line_shows_bounds_and_rendering() {
    let events = vec![
        LyricEvent::PhraseStart { timestamp: 10 },
        lyric(12, "Hel-"),
        lyric(14, "lo"),
        LyricEvent::PhraseEnd { timestamp: 16 },
    ];
    let phrases = LyricPhraseCollection::new(&events);
    assert_eq!(
        phrases.get_main_phrases()[0].display_line(),
        "from 10 to 16, phrase: Hello"
    );
}

#[test]
fn empty_input_yields_empty_collections() {
    let events: Vec<LyricEvent> = vec![];
    let phrases = LyricPhraseCollection::new(&events);
    assert_eq!(phrases.get_main_phrases().len(), 0);
    assert_eq!(phrases.get_duet_phrases().len(), 0);
}

#[test]
fn phrase_lyrics_report_their_timestamps() {
    let events = vec![LyricEvent::PhraseStart { timestamp: 0 }, lyric(3, "x")];
    let phrases = LyricPhraseCollection::new(&events);
    let lyrics = phrases.get_main_phrases()[0].get_lyrics();
    assert_eq!(lyrics[0].get_timestamp(), 3);
}
