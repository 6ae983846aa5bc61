//! The chart document model and its decoder.
//!
//! A chart file is a sequence of `[Name]` sections delimited by `'}'`. The
//! decoder splits the text on the delimiter, finds each block's header and
//! dispatches on it: `Song` lines become properties, `SyncTrack` lines tempo
//! events, `Events` lines lyric events, and every other header names a
//! key-press track. Decoding is a pure function of the input text; it aborts
//! on the first malformed numeric field and never panics. Unrecognised event
//! codes are not errors: they are preserved verbatim in `Other*` variants.

use vstd::prelude::*;

use crate::lines::find_header;
use crate::lines::find_header_from;
use crate::lines::find_line_from;
use crate::lines::find_prop_from;
use crate::lines::header_name;
use crate::lines::line_code;
use crate::lines::line_content;
use crate::lines::line_match_at;
use crate::lines::line_shape;
use crate::lines::line_ts;
use crate::lines::next_line_match;
use crate::lines::next_prop_match;
use crate::lines::prop_key;
use crate::lines::prop_shape;
use crate::lines::prop_value;
use crate::lines::LineMatch;
use crate::scan::brace_run_end;
use crate::scan::chars_to_string;
use crate::scan::nonspace_run_end;
use crate::scan::parse_u32_range;
use crate::scan::parse_u32_spec;
use crate::scan::parse_u64_range;
use crate::scan::parse_u64_spec;
use crate::scan::range_eq;
use crate::scan::range_to_string;
use crate::scan::scan_brace_run;
use crate::scan::scan_nonspace_run;
use crate::scan::str_to_char_vec;
use crate::scan::trim_range;
use crate::scan::trimmed;
use crate::strmap::Properties;
use crate::strmap::TrackMap;
use crate::TimestampedEvent;

verus! {

/// An event of the `Events` section: the lyric timeline.
#[derive(Debug)]
pub enum LyricEvent {
    /// Opens a main-track phrase.
    PhraseStart { timestamp: u32 },
    /// Closes a main-track phrase.
    PhraseEnd { timestamp: u32 },
    /// One syllable or word of the main track.
    Lyric { timestamp: u32, text: String },
    /// A named structural marker (verse, chorus); not part of any phrase.
    Section { timestamp: u32, text: String },
    /// Opens a duet-track phrase.
    DuetPhraseStart { timestamp: u32 },
    /// Closes a duet-track phrase.
    DuetPhraseEnd { timestamp: u32 },
    /// One syllable or word of the duet track.
    DuetLyric { timestamp: u32, text: String },
    /// An event with an unrecognised code, preserved verbatim.
    OtherLyricEvent { code: String, timestamp: u32, content: String },
}

/// The mathematical value of a [`LyricEvent`], with texts as character
/// sequences.
#[verifier::ext_equal]
pub enum LyricEventView {
    PhraseStart { timestamp: u32 },
    PhraseEnd { timestamp: u32 },
    Lyric { timestamp: u32, text: Seq<char> },
    Section { timestamp: u32, text: Seq<char> },
    DuetPhraseStart { timestamp: u32 },
    DuetPhraseEnd { timestamp: u32 },
    DuetLyric { timestamp: u32, text: Seq<char> },
    OtherLyricEvent { code: Seq<char>, timestamp: u32, content: Seq<char> },
}

impl View for LyricEvent {
    type V = LyricEventView;

    open spec fn view(&self) -> LyricEventView {
        match self {
            LyricEvent::PhraseStart { timestamp } => LyricEventView::PhraseStart {
                timestamp: *timestamp,
            },
            LyricEvent::PhraseEnd { timestamp } => LyricEventView::PhraseEnd {
                timestamp: *timestamp,
            },
            LyricEvent::Lyric { timestamp, text } => LyricEventView::Lyric {
                timestamp: *timestamp,
                text: text@,
            },
            LyricEvent::Section { timestamp, text } => LyricEventView::Section {
                timestamp: *timestamp,
                text: text@,
            },
            LyricEvent::DuetPhraseStart { timestamp } => LyricEventView::DuetPhraseStart {
                timestamp: *timestamp,
            },
            LyricEvent::DuetPhraseEnd { timestamp } => LyricEventView::DuetPhraseEnd {
                timestamp: *timestamp,
            },
            LyricEvent::DuetLyric { timestamp, text } => LyricEventView::DuetLyric {
                timestamp: *timestamp,
                text: text@,
            },
            LyricEvent::OtherLyricEvent { code, timestamp, content } => {
                LyricEventView::OtherLyricEvent {
                    code: code@,
                    timestamp: *timestamp,
                    content: content@,
                }
            },
        }
    }
}

impl LyricEventView {
    /// The timestamp of the event.
    pub open spec fn timestamp(self) -> u32 {
        match self {
            LyricEventView::PhraseStart { timestamp } => timestamp,
            LyricEventView::PhraseEnd { timestamp } => timestamp,
            LyricEventView::Lyric { timestamp, .. } => timestamp,
            LyricEventView::Section { timestamp, .. } => timestamp,
            LyricEventView::DuetPhraseStart { timestamp } => timestamp,
            LyricEventView::DuetPhraseEnd { timestamp } => timestamp,
            LyricEventView::DuetLyric { timestamp, .. } => timestamp,
            LyricEventView::OtherLyricEvent { timestamp, .. } => timestamp,
        }
    }
}

impl TimestampedEvent for LyricEvent {
    open spec fn timestamp(&self) -> u32 {
        self@.timestamp()
    }

    fn get_timestamp(&self) -> (t: u32) {
        match self {
            LyricEvent::PhraseStart { timestamp } => *timestamp,
            LyricEvent::PhraseEnd { timestamp } => *timestamp,
            LyricEvent::Lyric { timestamp, .. } => *timestamp,
            LyricEvent::Section { timestamp, .. } => *timestamp,
            LyricEvent::DuetPhraseStart { timestamp } => *timestamp,
            LyricEvent::DuetPhraseEnd { timestamp } => *timestamp,
            LyricEvent::DuetLyric { timestamp, .. } => *timestamp,
            LyricEvent::OtherLyricEvent { timestamp, .. } => *timestamp,
        }
    }
}

/// The views of a sequence of lyric events, in order.
pub open spec fn lyric_views(s: Seq<LyricEvent>) -> Seq<LyricEventView> {
    s.map_values(|e: LyricEvent| e@)
}

/// An event of a key-press track section.
#[derive(Debug)]
pub enum KeyPressEvent {
    /// A note press, with its lane and duration.
    Note { timestamp: u32, duration: u32, key: u32 },
    /// A special phrase marker, with its type and duration.
    Special { timestamp: u32, special_type: u32, duration: u32 },
    /// A free-text event of the track.
    TextEvent { timestamp: u32, content: String },
    /// An event with an unrecognised code, preserved verbatim.
    OtherKeyPress { code: String, timestamp: u32, content: String },
}

/// The mathematical value of a [`KeyPressEvent`].
#[verifier::ext_equal]
pub enum KeyPressEventView {
    Note { timestamp: u32, duration: u32, key: u32 },
    Special { timestamp: u32, special_type: u32, duration: u32 },
    TextEvent { timestamp: u32, content: Seq<char> },
    OtherKeyPress { code: Seq<char>, timestamp: u32, content: Seq<char> },
}

impl View for KeyPressEvent {
    type V = KeyPressEventView;

    open spec fn view(&self) -> KeyPressEventView {
        match self {
            KeyPressEvent::Note { timestamp, duration, key } => KeyPressEventView::Note {
                timestamp: *timestamp,
                duration: *duration,
                key: *key,
            },
            KeyPressEvent::Special { timestamp, special_type, duration } => {
                KeyPressEventView::Special {
                    timestamp: *timestamp,
                    special_type: *special_type,
                    duration: *duration,
                }
            },
            KeyPressEvent::TextEvent { timestamp, content } => KeyPressEventView::TextEvent {
                timestamp: *timestamp,
                content: content@,
            },
            KeyPressEvent::OtherKeyPress { code, timestamp, content } => {
                KeyPressEventView::OtherKeyPress {
                    code: code@,
                    timestamp: *timestamp,
                    content: content@,
                }
            },
        }
    }
}

impl KeyPressEventView {
    /// The timestamp of the event.
    pub open spec fn timestamp(self) -> u32 {
        match self {
            KeyPressEventView::Note { timestamp, .. } => timestamp,
            KeyPressEventView::Special { timestamp, .. } => timestamp,
            KeyPressEventView::TextEvent { timestamp, .. } => timestamp,
            KeyPressEventView::OtherKeyPress { timestamp, .. } => timestamp,
        }
    }
}

impl TimestampedEvent for KeyPressEvent {
    open spec fn timestamp(&self) -> u32 {
        self@.timestamp()
    }

    fn get_timestamp(&self) -> (t: u32) {
        match self {
            KeyPressEvent::Note { timestamp, .. } => *timestamp,
            KeyPressEvent::Special { timestamp, .. } => *timestamp,
            KeyPressEvent::TextEvent { timestamp, .. } => *timestamp,
            KeyPressEvent::OtherKeyPress { timestamp, .. } => *timestamp,
        }
    }
}

/// The views of a sequence of key-press events, in order.
pub open spec fn key_press_views(s: Seq<KeyPressEvent>) -> Seq<KeyPressEventView> {
    s.map_values(|e: KeyPressEvent| e@)
}

/// An event of the `SyncTrack` section: the tempo timeline.
#[derive(Debug)]
pub enum TempoEvent {
    /// A tempo change, in thousandths of a beat per minute.
    Beat { timestamp: u32, milli_bpm: u64 },
    /// A time signature change; the denominator is a power of two.
    TimeSignature { timestamp: u32, time_signature: (u32, u32) },
    /// An anchor pinning a tick to a position in the song, in microseconds.
    Anchor { timestamp: u32, song_microseconds: u64 },
    /// An event with an unrecognised code, preserved verbatim.
    OtherTempoEvent { code: String, timestamp: u32, content: String },
}

/// The mathematical value of a [`TempoEvent`].
#[verifier::ext_equal]
pub enum TempoEventView {
    Beat { timestamp: u32, milli_bpm: u64 },
    TimeSignature { timestamp: u32, time_signature: (u32, u32) },
    Anchor { timestamp: u32, song_microseconds: u64 },
    OtherTempoEvent { code: Seq<char>, timestamp: u32, content: Seq<char> },
}

impl View for TempoEvent {
    type V = TempoEventView;

    open spec fn view(&self) -> TempoEventView {
        match self {
            TempoEvent::Beat { timestamp, milli_bpm } => TempoEventView::Beat {
                timestamp: *timestamp,
                milli_bpm: *milli_bpm,
            },
            TempoEvent::TimeSignature { timestamp, time_signature } => {
                TempoEventView::TimeSignature {
                    timestamp: *timestamp,
                    time_signature: *time_signature,
                }
            },
            TempoEvent::Anchor { timestamp, song_microseconds } => TempoEventView::Anchor {
                timestamp: *timestamp,
                song_microseconds: *song_microseconds,
            },
            TempoEvent::OtherTempoEvent { code, timestamp, content } => {
                TempoEventView::OtherTempoEvent {
                    code: code@,
                    timestamp: *timestamp,
                    content: content@,
                }
            },
        }
    }
}

impl TempoEventView {
    /// The timestamp of the event.
    pub open spec fn timestamp(self) -> u32 {
        match self {
            TempoEventView::Beat { timestamp, .. } => timestamp,
            TempoEventView::TimeSignature { timestamp, .. } => timestamp,
            TempoEventView::Anchor { timestamp, .. } => timestamp,
            TempoEventView::OtherTempoEvent { timestamp, .. } => timestamp,
        }
    }
}

impl TimestampedEvent for TempoEvent {
    open spec fn timestamp(&self) -> u32 {
        self@.timestamp()
    }

    fn get_timestamp(&self) -> (t: u32) {
        match self {
            TempoEvent::Beat { timestamp, .. } => *timestamp,
            TempoEvent::TimeSignature { timestamp, .. } => *timestamp,
            TempoEvent::Anchor { timestamp, .. } => *timestamp,
            TempoEvent::OtherTempoEvent { timestamp, .. } => *timestamp,
        }
    }
}

/// The views of a sequence of tempo events, in order.
pub open spec fn tempo_views(s: Seq<TempoEvent>) -> Seq<TempoEventView> {
    s.map_values(|e: TempoEvent| e@)
}

/// Why a chart failed to decode. Decoding aborts on the first such error.
#[derive(Debug)]
pub enum DecodeError {
    /// A numeric field failed to parse; carries the offending text.
    FieldError { field: String },
    /// A time signature line has no numerator; carries the line's content.
    NoNumerator { content: String },
    /// A note or special line has no second, duration field.
    NoDuration,
}

/// The mathematical value of a [`DecodeError`].
#[verifier::ext_equal]
pub enum DecodeErrorView {
    FieldError { field: Seq<char> },
    NoNumerator { content: Seq<char> },
    NoDuration,
}

impl View for DecodeError {
    type V = DecodeErrorView;

    open spec fn view(&self) -> DecodeErrorView {
        match self {
            DecodeError::FieldError { field } => DecodeErrorView::FieldError { field: field@ },
            DecodeError::NoNumerator { content } => DecodeErrorView::NoNumerator {
                content: content@,
            },
            DecodeError::NoDuration => DecodeErrorView::NoDuration,
        }
    }
}

/// The denominator base: a time signature's denominator is two to the power
/// of the line's optional second field.
pub open spec fn pow2(e: nat) -> nat
    decreases e,
{
    if e == 0 {
        1
    } else {
        2 * pow2((e - 1) as nat)
    }
}

proof fn lemma_pow2_mono(a: nat, b: nat)
    requires
        a <= b,
    ensures
        pow2(a) <= pow2(b),
    decreases b,
{
    if a < b {
        lemma_pow2_mono(a, (b - 1) as nat);
    }
}

/// Powers of two up to the 31st fit in a `u32`.
proof fn lemma_pow2_u32(e: nat)
    requires
        e < 32,
    ensures
        pow2(e) <= 0x8000_0000,
{
    lemma_pow2_mono(e, 31);
    assert(pow2(31) == 0x8000_0000) by {
        reveal_with_fuel(pow2, 32);
    }
}

/// Raises two to the power `e`.
fn pow2_u32(e: u32) -> (r: u32)
    requires
        e < 32,
    ensures
        r == pow2(e as nat),
{
    let mut r: u32 = 1;
    let mut j: u32 = 0;
    while j < e
        invariant
            j <= e < 32,
            r == pow2(j as nat),
        decreases e - j,
    {
        proof {
            lemma_pow2_u32((j + 1) as nat);
        }
        r = r * 2;
        j = j + 1;
    }
    r
}

/// What a `SyncTrack` line decodes to: dispatch on the line's code.
///
/// `A` and `B` lines parse their whole content as a `u64`; a `TS` line reads
/// a numerator and an optional denominator exponent from its content's first
/// two space-separated fields; any other code is preserved verbatim.
pub open spec fn tempo_event_of_line(s: Seq<char>, hi: int, i: int) -> Result<
    TempoEventView,
    DecodeErrorView,
> {
    let sh = line_shape(s, hi, i);
    let ts = line_ts(s, hi, i);
    let code = line_code(s, hi, i);
    let content = line_content(s, hi, i);
    match parse_u32_spec(ts) {
        None => Err(DecodeErrorView::FieldError { field: ts }),
        Some(t) => {
            if code == "A"@ {
                match parse_u64_spec(trimmed(content)) {
                    None => Err(DecodeErrorView::FieldError { field: content }),
                    Some(us) => Ok(TempoEventView::Anchor { timestamp: t, song_microseconds: us }),
                }
            } else if code == "B"@ {
                match parse_u64_spec(trimmed(content)) {
                    None => Err(DecodeErrorView::FieldError { field: content }),
                    Some(mb) => Ok(TempoEventView::Beat { timestamp: t, milli_bpm: mb }),
                }
            } else if code == "TS"@ {
                time_signature_of_content(s, sh.content_lo, sh.content_hi, t)
            } else {
                Ok(TempoEventView::OtherTempoEvent { code, timestamp: t, content })
            }
        },
    }
}

/// What a `TS` line's content decodes to. The numerator is the first
/// space-separated field; a missing or empty first field is the distinct
/// "no numerator" error. The denominator exponent is the second field,
/// defaulting to 2 when absent or unparsable; an exponent too large for the
/// denominator to fit is a field error.
pub open spec fn time_signature_of_content(s: Seq<char>, clo: int, chi: int, t: u32) -> Result<
    TempoEventView,
    DecodeErrorView,
> {
    let k = nonspace_run_end(s, chi, clo);
    if k == clo {
        Err(DecodeErrorView::NoNumerator { content: s.subrange(clo, chi) })
    } else {
        let num_str = s.subrange(clo, k);
        match parse_u32_spec(trimmed(num_str)) {
            None => Err(DecodeErrorView::FieldError { field: num_str }),
            Some(numerator) => {
                if k < chi {
                    let exp_str = s.subrange(k + 1, nonspace_run_end(s, chi, k + 1));
                    match parse_u32_spec(trimmed(exp_str)) {
                        None => Ok(
                            TempoEventView::TimeSignature {
                                timestamp: t,
                                time_signature: (numerator, 4),
                            },
                        ),
                        Some(e) => {
                            if e >= 32 {
                                Err(DecodeErrorView::FieldError { field: exp_str })
                            } else {
                                Ok(
                                    TempoEventView::TimeSignature {
                                        timestamp: t,
                                        time_signature: (numerator, pow2(e as nat) as u32),
                                    },
                                )
                            }
                        },
                    }
                } else {
                    Ok(
                        TempoEventView::TimeSignature {
                            timestamp: t,
                            time_signature: (numerator, 4),
                        },
                    )
                }
            },
        }
    }
}

/// What an `Events` line decodes to once its timestamp parsed: the content,
/// with every quote character removed, is split at its first space into a
/// subtype and the remaining text, and the subtype picks the variant.
pub open spec fn lyric_event_of(code: Seq<char>, t: u32, content: Seq<char>) -> LyricEventView {
    let k = nonspace_run_end(content, content.len() as int, 0);
    let subtype = content.take(k);
    let text = if k < content.len() {
        content.subrange(k + 1, content.len() as int)
    } else {
        Seq::empty()
    };
    if code == "E"@ && subtype == "section"@ {
        LyricEventView::Section { timestamp: t, text }
    } else if code == "E"@ && subtype == "phrase_start"@ {
        LyricEventView::PhraseStart { timestamp: t }
    } else if code == "E"@ && subtype == "lyric"@ {
        LyricEventView::Lyric { timestamp: t, text }
    } else if code == "E"@ && subtype == "phrase_end"@ {
        LyricEventView::PhraseEnd { timestamp: t }
    } else if code == "E"@ && subtype == "duet_phrase_start"@ {
        LyricEventView::DuetPhraseStart { timestamp: t }
    } else if code == "E"@ && subtype == "duet_lyric"@ {
        LyricEventView::DuetLyric { timestamp: t, text }
    } else if code == "E"@ && subtype == "duet_phrase_end"@ {
        LyricEventView::DuetPhraseEnd { timestamp: t }
    } else {
        LyricEventView::OtherLyricEvent { code, timestamp: t, content }
    }
}

/// What an `Events` line decodes to: only the timestamp can fail.
pub open spec fn lyric_event_of_line(s: Seq<char>, hi: int, i: int) -> Result<
    LyricEventView,
    DecodeErrorView,
> {
    let ts = line_ts(s, hi, i);
    match parse_u32_spec(ts) {
        None => Err(DecodeErrorView::FieldError { field: ts }),
        Some(t) => Ok(
            lyric_event_of(
                line_code(s, hi, i),
                t,
                line_content(s, hi, i).filter(|c: char| c != '"'),
            ),
        ),
    }
}

/// What a key-press line decodes to: `N` and `S` lines split their content
/// at its first space into two required numeric fields; an `E` line keeps
/// its content as text; any other code is preserved verbatim.
pub open spec fn key_press_event_of_line(s: Seq<char>, hi: int, i: int) -> Result<
    KeyPressEventView,
    DecodeErrorView,
> {
    let sh = line_shape(s, hi, i);
    let ts = line_ts(s, hi, i);
    let code = line_code(s, hi, i);
    let content = line_content(s, hi, i);
    let clo = sh.content_lo;
    let chi = sh.content_hi;
    let k = nonspace_run_end(s, chi, clo);
    match parse_u32_spec(ts) {
        None => Err(DecodeErrorView::FieldError { field: ts }),
        Some(t) => {
            if code == "N"@ {
                if k == chi {
                    Err(DecodeErrorView::NoDuration)
                } else {
                    let key_str = s.subrange(clo, k);
                    let dur_str = s.subrange(k + 1, chi);
                    match parse_u32_spec(trimmed(key_str)) {
                        None => Err(DecodeErrorView::FieldError { field: key_str }),
                        Some(key) => match parse_u32_spec(trimmed(dur_str)) {
                            None => Err(DecodeErrorView::FieldError { field: dur_str }),
                            Some(duration) => Ok(
                                KeyPressEventView::Note { timestamp: t, duration, key },
                            ),
                        },
                    }
                }
            } else if code == "S"@ {
                if k == chi {
                    Err(DecodeErrorView::NoDuration)
                } else {
                    let type_str = s.subrange(clo, k);
                    let dur_str = s.subrange(k + 1, chi);
                    match parse_u32_spec(trimmed(type_str)) {
                        None => Err(DecodeErrorView::FieldError { field: type_str }),
                        Some(special_type) => match parse_u32_spec(trimmed(dur_str)) {
                            None => Err(DecodeErrorView::FieldError { field: dur_str }),
                            Some(duration) => Ok(
                                KeyPressEventView::Special { timestamp: t, special_type, duration },
                            ),
                        },
                    }
                }
            } else if code == "E"@ {
                Ok(KeyPressEventView::TextEvent { timestamp: t, content })
            } else {
                Ok(KeyPressEventView::OtherKeyPress { code, timestamp: t, content })
            }
        },
    }
}

/// The properties decoded from the property lines of `[from, hi)`, added to
/// `acc` in file order; a later key overwrites an earlier equal one.
pub open spec fn decode_prop_lines(
    s: Seq<char>,
    hi: int,
    from: int,
    acc: Map<Seq<char>, Seq<char>>,
) -> Map<Seq<char>, Seq<char>>
    decreases hi - from,
    via decode_prop_lines_decreases
{
    match find_prop_from(s, hi, from) {
        None => acc,
        Some(i) => decode_prop_lines(
            s,
            hi,
            prop_shape(s, hi, i).end,
            acc.insert(prop_key(s, hi, i), prop_value(s, hi, i)),
        ),
    }
}

#[via_fn]
proof fn decode_prop_lines_decreases(s: Seq<char>, hi: int, from: int, acc: Map<Seq<char>, Seq<char>>) {
    if find_prop_from(s, hi, from) is Some {
        crate::lines::lemma_find_prop_props(s, hi, from);
        crate::lines::lemma_prop_shape_bounds(s, hi, find_prop_from(s, hi, from)->0);
    }
}

/// The tempo events decoded from the timed event lines of `[from, hi)`, in
/// file order, or the first error.
pub open spec fn decode_tempo_lines(s: Seq<char>, hi: int, from: int) -> Result<
    Seq<TempoEventView>,
    DecodeErrorView,
>
    decreases hi - from,
    via decode_tempo_lines_decreases
{
    match find_line_from(s, hi, from) {
        None => Ok(Seq::empty()),
        Some(i) => match tempo_event_of_line(s, hi, i) {
            Err(e) => Err(e),
            Ok(ev) => match decode_tempo_lines(s, hi, line_shape(s, hi, i).end) {
                Err(e) => Err(e),
                Ok(rest) => Ok(seq![ev] + rest),
            },
        },
    }
}

#[via_fn]
proof fn decode_tempo_lines_decreases(s: Seq<char>, hi: int, from: int) {
    if find_line_from(s, hi, from) is Some {
        crate::lines::lemma_find_line_props(s, hi, from);
        crate::lines::lemma_line_shape_bounds(s, hi, find_line_from(s, hi, from)->0);
    }
}

/// The lyric events decoded from the timed event lines of `[from, hi)`, in
/// file order, or the first error.
pub open spec fn decode_lyric_lines(s: Seq<char>, hi: int, from: int) -> Result<
    Seq<LyricEventView>,
    DecodeErrorView,
>
    decreases hi - from,
    via decode_lyric_lines_decreases
{
    match find_line_from(s, hi, from) {
        None => Ok(Seq::empty()),
        Some(i) => match lyric_event_of_line(s, hi, i) {
            Err(e) => Err(e),
            Ok(ev) => match decode_lyric_lines(s, hi, line_shape(s, hi, i).end) {
                Err(e) => Err(e),
                Ok(rest) => Ok(seq![ev] + rest),
            },
        },
    }
}

#[via_fn]
proof fn decode_lyric_lines_decreases(s: Seq<char>, hi: int, from: int) {
    if find_line_from(s, hi, from) is Some {
        crate::lines::lemma_find_line_props(s, hi, from);
        crate::lines::lemma_line_shape_bounds(s, hi, find_line_from(s, hi, from)->0);
    }
}

/// The key-press events decoded from the timed event lines of `[from, hi)`,
/// in file order, or the first error.
pub open spec fn decode_key_press_lines(s: Seq<char>, hi: int, from: int) -> Result<
    Seq<KeyPressEventView>,
    DecodeErrorView,
>
    decreases hi - from,
    via decode_key_press_lines_decreases
{
    match find_line_from(s, hi, from) {
        None => Ok(Seq::empty()),
        Some(i) => match key_press_event_of_line(s, hi, i) {
            Err(e) => Err(e),
            Ok(ev) => match decode_key_press_lines(s, hi, line_shape(s, hi, i).end) {
                Err(e) => Err(e),
                Ok(rest) => Ok(seq![ev] + rest),
            },
        },
    }
}

#[via_fn]
proof fn decode_key_press_lines_decreases(s: Seq<char>, hi: int, from: int) {
    if find_line_from(s, hi, from) is Some {
        crate::lines::lemma_find_line_props(s, hi, from);
        crate::lines::lemma_line_shape_bounds(s, hi, find_line_from(s, hi, from)->0);
    }
}

/// One section block `[lo, hi)` decoded into `acc`. The block's first header
/// names it; a block without a header is skipped. `Song` lines add
/// properties, `SyncTrack` and `Events` lines append tempo and lyric events,
/// and any other header stores the block's key presses under the header's
/// name, replacing an earlier track of the same name.
pub open spec fn decode_section_spec(s: Seq<char>, lo: int, hi: int, acc: ChartView) -> Result<
    ChartView,
    DecodeErrorView,
> {
    match find_header_from(s, hi, lo) {
        None => Ok(acc),
        Some(h) => {
            let name = header_name(s, hi, h);
            if name == "Song"@ {
                Ok(ChartView { properties: decode_prop_lines(s, hi, lo, acc.properties), ..acc })
            } else if name == "SyncTrack"@ {
                match decode_tempo_lines(s, hi, lo) {
                    Err(e) => Err(e),
                    Ok(evs) => Ok(ChartView { tempo_map: acc.tempo_map + evs, ..acc }),
                }
            } else if name == "Events"@ {
                match decode_lyric_lines(s, hi, lo) {
                    Err(e) => Err(e),
                    Ok(evs) => Ok(ChartView { lyrics: acc.lyrics + evs, ..acc }),
                }
            } else {
                match decode_key_press_lines(s, hi, lo) {
                    Err(e) => Err(e),
                    Ok(evs) => Ok(
                        ChartView { key_presses: acc.key_presses.insert(name, evs), ..acc },
                    ),
                }
            }
        },
    }
}

/// The chart decoded from the section blocks of `s` starting at `from`:
/// blocks are the pieces between `'}'` delimiters, processed in order.
pub open spec fn decode_sections(s: Seq<char>, from: int, acc: ChartView) -> Result<
    ChartView,
    DecodeErrorView,
>
    decreases s.len() - from,
    via decode_sections_decreases
{
    if !(0 <= from <= s.len()) {
        Ok(acc)
    } else {
        let q = brace_run_end(s, s.len() as int, from);
        match decode_section_spec(s, from, q, acc) {
            Err(e) => Err(e),
            Ok(acc2) => {
                if q == s.len() {
                    Ok(acc2)
                } else {
                    decode_sections(s, q + 1, acc2)
                }
            },
        }
    }
}

#[via_fn]
proof fn decode_sections_decreases(s: Seq<char>, from: int, acc: ChartView) {
    if 0 <= from <= s.len() {
        crate::scan::lemma_run_end_bounds(s, s.len() as int, from, |c: char| c != '}');
    }
}

/// What decoding a whole chart text yields: the chart of every section in
/// order, or the first field error.
pub open spec fn decode_chart_spec(s: Seq<char>) -> Result<ChartView, DecodeErrorView> {
    decode_sections(s, 0, ChartView::empty())
}

/// The mathematical value of a [`Chart`].
#[verifier::ext_equal]
pub struct ChartView {
    /// Song properties, from the `Song` sections.
    pub properties: Map<Seq<char>, Seq<char>>,
    /// Lyric events, from the `Events` sections, in file order.
    pub lyrics: Seq<LyricEventView>,
    /// Tempo events, from the `SyncTrack` sections, in file order.
    pub tempo_map: Seq<TempoEventView>,
    /// Key presses per track name, from every other named section.
    pub key_presses: Map<Seq<char>, Seq<KeyPressEventView>>,
}

impl ChartView {
    /// The chart of an input with no decodable sections.
    pub open spec fn empty() -> ChartView {
        ChartView {
            properties: Map::empty(),
            lyrics: Seq::empty(),
            tempo_map: Seq::empty(),
            key_presses: Map::empty(),
        }
    }
}

/// A decoded chart document: properties, tempo timeline, lyric timeline and
/// key-press tracks. Built in one pass by [`Chart::new`] and immutable
/// afterwards.
#[derive(Debug)]
pub struct Chart {
    properties: Properties,
    lyrics: Vec<LyricEvent>,
    tempo_map: Vec<TempoEvent>,
    key_presses: TrackMap,
}

impl View for Chart {
    type V = ChartView;

    closed spec fn view(&self) -> ChartView {
        ChartView {
            properties: self.properties@,
            lyrics: lyric_views(self.lyrics@),
            tempo_map: tempo_views(self.tempo_map@),
            key_presses: self.key_presses@,
        }
    }
}

/// Copies `[lo, hi)` of `chars` with every quote character removed.
fn strip_quotes(chars: &Vec<char>, lo: usize, hi: usize) -> (r: Vec<char>)
    requires
        lo <= hi <= chars@.len(),
    ensures
        r@ == chars@.subrange(lo as int, hi as int).filter(|c: char| c != '"'),
{
    let mut r: Vec<char> = Vec::new();
    let mut j: usize = lo;
    while j < hi
        invariant
            lo <= j <= hi <= chars@.len(),
            r@ == chars@.subrange(lo as int, j as int).filter(|c: char| c != '"'),
        decreases hi - j,
    {
        let ghost pre = chars@.subrange(lo as int, j as int);
        let c = chars[j];
        if c != '"' {
            r.push(c);
        }
        proof {
            let cur = chars@.subrange(lo as int, j + 1);
            assert(cur.drop_last() =~= pre);
            assert(cur.last() == c);
            reveal(Seq::filter);
        }
        j = j + 1;
    }
    r
}

/// Decodes one `SyncTrack` line found by the scanner.
fn decode_tempo_line(chars: &Vec<char>, hi: usize, m: &LineMatch) -> (r: Result<
    TempoEvent,
    DecodeError,
>)
    requires
        hi <= chars@.len(),
        line_match_at(chars@, hi as int, m.start as int),
        m.matches_shape(chars@, hi as int, m.start as int),
    ensures
        match r {
            Ok(ev) => tempo_event_of_line(chars@, hi as int, m.start as int) == Ok::<
                TempoEventView,
                DecodeErrorView,
            >(ev@),
            Err(e) => tempo_event_of_line(chars@, hi as int, m.start as int) == Err::<
                TempoEventView,
                DecodeErrorView,
            >(e@),
        },
{
    proof {
        crate::lines::lemma_line_shape_bounds(chars@, hi as int, m.start as int);
    }
    let t = match parse_u32_range(chars, m.ts_lo, m.ts_hi) {
        None => {
            return Err(
                DecodeError::FieldError { field: range_to_string(chars, m.ts_lo, m.ts_hi) },
            );
        },
        Some(t) => t,
    };
    let pat_a = str_to_char_vec("A");
    let pat_b = str_to_char_vec("B");
    let pat_ts = str_to_char_vec("TS");
    if range_eq(chars, m.code_lo, m.code_hi, &pat_a) {
        let (tl, th) = trim_range(chars, m.content_lo, m.content_hi);
        match parse_u64_range(chars, tl, th) {
            None => Err(
                DecodeError::FieldError {
                    field: range_to_string(chars, m.content_lo, m.content_hi),
                },
            ),
            Some(us) => Ok(TempoEvent::Anchor { timestamp: t, song_microseconds: us }),
        }
    } else if range_eq(chars, m.code_lo, m.code_hi, &pat_b) {
        let (tl, th) = trim_range(chars, m.content_lo, m.content_hi);
        match parse_u64_range(chars, tl, th) {
            None => Err(
                DecodeError::FieldError {
                    field: range_to_string(chars, m.content_lo, m.content_hi),
                },
            ),
            Some(mb) => Ok(TempoEvent::Beat { timestamp: t, milli_bpm: mb }),
        }
    } else if range_eq(chars, m.code_lo, m.code_hi, &pat_ts) {
        let k = scan_nonspace_run(chars, m.content_hi, m.content_lo);
        if k == m.content_lo {
            Err(
                DecodeError::NoNumerator {
                    content: range_to_string(chars, m.content_lo, m.content_hi),
                },
            )
        } else {
            let (nl, nh) = trim_range(chars, m.content_lo, k);
            match parse_u32_range(chars, nl, nh) {
                None => Err(
                    DecodeError::FieldError { field: range_to_string(chars, m.content_lo, k) },
                ),
                Some(numerator) => {
                    if k < m.content_hi {
                        let k2 = scan_nonspace_run(chars, m.content_hi, k + 1);
                        let (el, eh) = trim_range(chars, k + 1, k2);
                        match parse_u32_range(chars, el, eh) {
                            None => Ok(
                                TempoEvent::TimeSignature {
                                    timestamp: t,
                                    time_signature: (numerator, 4),
                                },
                            ),
                            Some(e) => {
                                if e >= 32 {
                                    Err(
                                        DecodeError::FieldError {
                                            field: range_to_string(chars, k + 1, k2),
                                        },
                                    )
                                } else {
                                    Ok(
                                        TempoEvent::TimeSignature {
                                            timestamp: t,
                                            time_signature: (numerator, pow2_u32(e)),
                                        },
                                    )
                                }
                            },
                        }
                    } else {
                        Ok(TempoEvent::TimeSignature { timestamp: t, time_signature: (numerator, 4) })
                    }
                },
            }
        }
    } else {
        Ok(
            TempoEvent::OtherTempoEvent {
                code: range_to_string(chars, m.code_lo, m.code_hi),
                timestamp: t,
                content: range_to_string(chars, m.content_lo, m.content_hi),
            },
        )
    }
}

/// Decodes one `Events` line found by the scanner.
fn decode_lyric_line(chars: &Vec<char>, hi: usize, m: &LineMatch) -> (r: Result<
    LyricEvent,
    DecodeError,
>)
    requires
        hi <= chars@.len(),
        line_match_at(chars@, hi as int, m.start as int),
        m.matches_shape(chars@, hi as int, m.start as int),
    ensures
        match r {
            Ok(ev) => lyric_event_of_line(chars@, hi as int, m.start as int) == Ok::<
                LyricEventView,
                DecodeErrorView,
            >(ev@),
            Err(e) => lyric_event_of_line(chars@, hi as int, m.start as int) == Err::<
                LyricEventView,
                DecodeErrorView,
            >(e@),
        },
{
    proof {
        crate::lines::lemma_line_shape_bounds(chars@, hi as int, m.start as int);
    }
    let t = match parse_u32_range(chars, m.ts_lo, m.ts_hi) {
        None => {
            return Err(
                DecodeError::FieldError { field: range_to_string(chars, m.ts_lo, m.ts_hi) },
            );
        },
        Some(t) => t,
    };
    let stripped = strip_quotes(chars, m.content_lo, m.content_hi);
    let n = stripped.len();
    let k = scan_nonspace_run(&stripped, n, 0);
    let pat_e = str_to_char_vec("E");
    let is_e = range_eq(chars, m.code_lo, m.code_hi, &pat_e);
    let text = if k < n {
        range_to_string(&stripped, k + 1, n)
    } else {
        String::new()
    };
    proof {
        assert(stripped@.subrange(0, k as int) =~= stripped@.take(k as int));
    }
    let ev = if is_e && range_eq(&stripped, 0, k, &str_to_char_vec("section")) {
        LyricEvent::Section { timestamp: t, text }
    } else if is_e && range_eq(&stripped, 0, k, &str_to_char_vec("phrase_start")) {
        LyricEvent::PhraseStart { timestamp: t }
    } else if is_e && range_eq(&stripped, 0, k, &str_to_char_vec("lyric")) {
        LyricEvent::Lyric { timestamp: t, text }
    } else if is_e && range_eq(&stripped, 0, k, &str_to_char_vec("phrase_end")) {
        LyricEvent::PhraseEnd { timestamp: t }
    } else if is_e && range_eq(&stripped, 0, k, &str_to_char_vec("duet_phrase_start")) {
        LyricEvent::DuetPhraseStart { timestamp: t }
    } else if is_e && range_eq(&stripped, 0, k, &str_to_char_vec("duet_lyric")) {
        LyricEvent::DuetLyric { timestamp: t, text }
    } else if is_e && range_eq(&stripped, 0, k, &str_to_char_vec("duet_phrase_end")) {
        LyricEvent::DuetPhraseEnd { timestamp: t }
    } else {
        LyricEvent::OtherLyricEvent {
            code: range_to_string(chars, m.code_lo, m.code_hi),
            timestamp: t,
            content: chars_to_string(&stripped),
        }
    };
    Ok(ev)
}

/// Decodes one key-press line found by the scanner.
fn decode_key_press_line(chars: &Vec<char>, hi: usize, m: &LineMatch) -> (r: Result<
    KeyPressEvent,
    DecodeError,
>)
    requires
        hi <= chars@.len(),
        line_match_at(chars@, hi as int, m.start as int),
        m.matches_shape(chars@, hi as int, m.start as int),
    ensures
        match r {
            Ok(ev) => key_press_event_of_line(chars@, hi as int, m.start as int) == Ok::<
                KeyPressEventView,
                DecodeErrorView,
            >(ev@),
            Err(e) => key_press_event_of_line(chars@, hi as int, m.start as int) == Err::<
                KeyPressEventView,
                DecodeErrorView,
            >(e@),
        },
{
    proof {
        crate::lines::lemma_line_shape_bounds(chars@, hi as int, m.start as int);
    }
    let t = match parse_u32_range(chars, m.ts_lo, m.ts_hi) {
        None => {
            return Err(
                DecodeError::FieldError { field: range_to_string(chars, m.ts_lo, m.ts_hi) },
            );
        },
        Some(t) => t,
    };
    let pat_n = str_to_char_vec("N");
    let pat_s = str_to_char_vec("S");
    let pat_e = str_to_char_vec("E");
    let k = scan_nonspace_run(chars, m.content_hi, m.content_lo);
    if range_eq(chars, m.code_lo, m.code_hi, &pat_n) {
        if k == m.content_hi {
            Err(DecodeError::NoDuration)
        } else {
            let (kl, kh) = trim_range(chars, m.content_lo, k);
            match parse_u32_range(chars, kl, kh) {
                None => Err(
                    DecodeError::FieldError { field: range_to_string(chars, m.content_lo, k) },
                ),
                Some(key) => {
                    let (dl, dh) = trim_range(chars, k + 1, m.content_hi);
                    match parse_u32_range(chars, dl, dh) {
                        None => Err(
                            DecodeError::FieldError {
                                field: range_to_string(chars, k + 1, m.content_hi),
                            },
                        ),
                        Some(duration) => Ok(KeyPressEvent::Note { timestamp: t, duration, key }),
                    }
                },
            }
        }
    } else if range_eq(chars, m.code_lo, m.code_hi, &pat_s) {
        if k == m.content_hi {
            Err(DecodeError::NoDuration)
        } else {
            let (kl, kh) = trim_range(chars, m.content_lo, k);
            match parse_u32_range(chars, kl, kh) {
                None => Err(
                    DecodeError::FieldError { field: range_to_string(chars, m.content_lo, k) },
                ),
                Some(special_type) => {
                    let (dl, dh) = trim_range(chars, k + 1, m.content_hi);
                    match parse_u32_range(chars, dl, dh) {
                        None => Err(
                            DecodeError::FieldError {
                                field: range_to_string(chars, k + 1, m.content_hi),
                            },
                        ),
                        Some(duration) => Ok(
                            KeyPressEvent::Special { timestamp: t, special_type, duration },
                        ),
                    }
                },
            }
        }
    } else if range_eq(chars, m.code_lo, m.code_hi, &pat_e) {
        Ok(
            KeyPressEvent::TextEvent {
                timestamp: t,
                content: range_to_string(chars, m.content_lo, m.content_hi),
            },
        )
    } else {
        Ok(
            KeyPressEvent::OtherKeyPress {
                code: range_to_string(chars, m.code_lo, m.code_hi),
                timestamp: t,
                content: range_to_string(chars, m.content_lo, m.content_hi),
            },
        )
    }
}

impl Chart {
    /// The chart's maps keep their key-uniqueness invariant.
    pub closed spec fn wf(&self) -> bool {
        self.properties.wf() && self.key_presses.wf()
    }

    /// Decodes every property line of the section `[lo, hi)` into the map.
    #[verifier::loop_isolation(false)]
    fn decode_properties(properties: &mut Properties, chars: &Vec<char>, lo: usize, hi: usize)
        requires
            lo <= hi <= chars@.len(),
            old(properties).wf(),
        ensures
            final(properties).wf(),
            final(properties)@ == decode_prop_lines(
                chars@,
                hi as int,
                lo as int,
                old(properties)@,
            ),
    {
        let mut pos: usize = lo;
        loop
            invariant
                lo <= pos <= hi,
                properties.wf(),
                decode_prop_lines(chars@, hi as int, pos as int, properties@) == decode_prop_lines(
                    chars@,
                    hi as int,
                    lo as int,
                    old(properties)@,
                ),
            decreases hi - pos,
        {
            match next_prop_match(chars, hi, pos) {
                None => {
                    return ;
                },
                Some(m) => {
                    let key = range_to_string(chars, m.key_lo, m.key_hi);
                    let value = range_to_string(chars, m.val_lo, m.val_hi);
                    properties.insert(key, value);
                    pos = m.end;
                },
            }
        }
    }

    /// Decodes every timed event line of the section `[lo, hi)` as tempo
    /// events and appends them, or returns the first error and leaves the
    /// tempo map unchanged.
    #[verifier::loop_isolation(false)]
    fn decode_tempo_map(tempo_map: &mut Vec<TempoEvent>, chars: &Vec<char>, lo: usize, hi: usize) -> (r:
        Result<(), DecodeError>)
        requires
            lo <= hi <= chars@.len(),
        ensures
            match r {
                Ok(_) => decode_tempo_lines(chars@, hi as int, lo as int) is Ok && tempo_views(
                    final(tempo_map)@,
                ) == tempo_views(old(tempo_map)@) + decode_tempo_lines(
                    chars@,
                    hi as int,
                    lo as int,
                )->Ok_0,
                Err(e) => decode_tempo_lines(chars@, hi as int, lo as int) == Err::<
                    Seq<TempoEventView>,
                    DecodeErrorView,
                >(e@) && final(tempo_map)@ == old(tempo_map)@,
            },
    {
        let mut news: Vec<TempoEvent> = Vec::new();
        let mut pos: usize = lo;
        loop
            invariant
                lo <= pos <= hi,
                tempo_map@ == old(tempo_map)@,
                match decode_tempo_lines(chars@, hi as int, pos as int) {
                    Ok(rest) => decode_tempo_lines(chars@, hi as int, lo as int) == Ok::<
                        Seq<TempoEventView>,
                        DecodeErrorView,
                    >(tempo_views(news@) + rest),
                    Err(e) => decode_tempo_lines(chars@, hi as int, lo as int) == Err::<
                        Seq<TempoEventView>,
                        DecodeErrorView,
                    >(e),
                },
            decreases hi - pos,
        {
            match next_line_match(chars, hi, pos) {
                None => {
                    let ghost nv = tempo_views(news@);
                    proof {
                        assert(nv + Seq::<TempoEventView>::empty() =~= nv);
                    }
                    tempo_map.append(&mut news);
                    proof {
                        assert(tempo_views(tempo_map@) =~= tempo_views(old(tempo_map)@) + nv);
                    }
                    return Ok(());
                },
                Some(m) => {
                    match decode_tempo_line(chars, hi, &m) {
                        Err(e) => {
                            return Err(e);
                        },
                        Ok(ev) => {
                            let ghost a = tempo_views(news@);
                            news.push(ev);
                            proof {
                                assert(tempo_views(news@) =~= a + seq![ev@]);
                                match decode_tempo_lines(chars@, hi as int, m.end as int) {
                                    Ok(rest2) => {
                                        assert((a + seq![ev@]) + rest2 =~= a + (seq![ev@] + rest2));
                                    },
                                    Err(_) => {},
                                }
                            }
                            pos = m.end;
                        },
                    }
                },
            }
        }
    }

    /// Decodes every timed event line of the section `[lo, hi)` as lyric
    /// events and appends them, or returns the first error and leaves the
    /// lyric list unchanged.
    #[verifier::loop_isolation(false)]
    fn decode_lyrics(lyrics: &mut Vec<LyricEvent>, chars: &Vec<char>, lo: usize, hi: usize) -> (r:
        Result<(), DecodeError>)
        requires
            lo <= hi <= chars@.len(),
        ensures
            match r {
                Ok(_) => decode_lyric_lines(chars@, hi as int, lo as int) is Ok && lyric_views(
                    final(lyrics)@,
                ) == lyric_views(old(lyrics)@) + decode_lyric_lines(
                    chars@,
                    hi as int,
                    lo as int,
                )->Ok_0,
                Err(e) => decode_lyric_lines(chars@, hi as int, lo as int) == Err::<
                    Seq<LyricEventView>,
                    DecodeErrorView,
                >(e@) && final(lyrics)@ == old(lyrics)@,
            },
    {
        let mut news: Vec<LyricEvent> = Vec::new();
        let mut pos: usize = lo;
        loop
            invariant
                lo <= pos <= hi,
                lyrics@ == old(lyrics)@,
                match decode_lyric_lines(chars@, hi as int, pos as int) {
                    Ok(rest) => decode_lyric_lines(chars@, hi as int, lo as int) == Ok::<
                        Seq<LyricEventView>,
                        DecodeErrorView,
                    >(lyric_views(news@) + rest),
                    Err(e) => decode_lyric_lines(chars@, hi as int, lo as int) == Err::<
                        Seq<LyricEventView>,
                        DecodeErrorView,
                    >(e),
                },
            decreases hi - pos,
        {
            match next_line_match(chars, hi, pos) {
                None => {
                    let ghost nv = lyric_views(news@);
                    proof {
                        assert(nv + Seq::<LyricEventView>::empty() =~= nv);
                    }
                    lyrics.append(&mut news);
                    proof {
                        assert(lyric_views(lyrics@) =~= lyric_views(old(lyrics)@) + nv);
                    }
                    return Ok(());
                },
                Some(m) => {
                    match decode_lyric_line(chars, hi, &m) {
                        Err(e) => {
                            return Err(e);
                        },
                        Ok(ev) => {
                            let ghost a = lyric_views(news@);
                            news.push(ev);
                            proof {
                                assert(lyric_views(news@) =~= a + seq![ev@]);
                                match decode_lyric_lines(chars@, hi as int, m.end as int) {
                                    Ok(rest2) => {
                                        assert((a + seq![ev@]) + rest2 =~= a + (seq![ev@] + rest2));
                                    },
                                    Err(_) => {},
                                }
                            }
                            pos = m.end;
                        },
                    }
                },
            }
        }
    }

    /// Decodes every timed event line of the section `[lo, hi)` as key
    /// presses and stores them under the track name `header`, or returns the
    /// first error and leaves the track map unchanged.
    #[verifier::loop_isolation(false)]
    fn decode_key_presses(
        key_presses: &mut TrackMap,
        chars: &Vec<char>,
        lo: usize,
        hi: usize,
        header: String,
    ) -> (r: Result<(), DecodeError>)
        requires
            lo <= hi <= chars@.len(),
            old(key_presses).wf(),
        ensures
            final(key_presses).wf(),
            match r {
                Ok(_) => decode_key_press_lines(chars@, hi as int, lo as int) is Ok && final(
                    key_presses
                )@ == old(key_presses)@.insert(
                    header@,
                    decode_key_press_lines(chars@, hi as int, lo as int)->Ok_0,
                ),
                Err(e) => decode_key_press_lines(chars@, hi as int, lo as int) == Err::<
                    Seq<KeyPressEventView>,
                    DecodeErrorView,
                >(e@) && final(key_presses)@ == old(key_presses)@,
            },
    {
        let mut news: Vec<KeyPressEvent> = Vec::new();
        let mut pos: usize = lo;
        loop
            invariant
                lo <= pos <= hi,
                key_presses.wf(),
                key_presses@ == old(key_presses)@,
                match decode_key_press_lines(chars@, hi as int, pos as int) {
                    Ok(rest) => decode_key_press_lines(chars@, hi as int, lo as int) == Ok::<
                        Seq<KeyPressEventView>,
                        DecodeErrorView,
                    >(key_press_views(news@) + rest),
                    Err(e) => decode_key_press_lines(chars@, hi as int, lo as int) == Err::<
                        Seq<KeyPressEventView>,
                        DecodeErrorView,
                    >(e),
                },
            decreases hi - pos,
        {
            match next_line_match(chars, hi, pos) {
                None => {
                    proof {
                        assert(key_press_views(news@) + Seq::<KeyPressEventView>::empty()
                            =~= key_press_views(news@));
                    }
                    key_presses.insert(header, news);
                    return Ok(());
                },
                Some(m) => {
                    match decode_key_press_line(chars, hi, &m) {
                        Err(e) => {
                            return Err(e);
                        },
                        Ok(ev) => {
                            let ghost a = key_press_views(news@);
                            news.push(ev);
                            proof {
                                assert(key_press_views(news@) =~= a + seq![ev@]);
                                match decode_key_press_lines(chars@, hi as int, m.end as int) {
                                    Ok(rest2) => {
                                        assert((a + seq![ev@]) + rest2 =~= a + (seq![ev@] + rest2));
                                    },
                                    Err(_) => {},
                                }
                            }
                            pos = m.end;
                        },
                    }
                },
            }
        }
    }

    /// Decodes a chart from the full text of a chart file.
    ///
    /// Returns the chart of every section of the text, or the first field
    /// error; the result is exactly what [`decode_chart_spec`] assigns to
    /// the input.
    #[verifier::loop_isolation(false)]
    pub fn new(chart_file: &str) -> (r: Result<Chart, DecodeError>)
        ensures
            match r {
                Ok(chart) => chart.wf() && decode_chart_spec(chart_file@) == Ok::<
                    ChartView,
                    DecodeErrorView,
                >(chart@),
                Err(e) => decode_chart_spec(chart_file@) == Err::<ChartView, DecodeErrorView>(e@),
            },
    {
        let chars = str_to_char_vec(chart_file);
        let n = chars.len();
        let mut properties = Properties::new();
        let mut lyrics: Vec<LyricEvent> = Vec::new();
        let mut tempo_map: Vec<TempoEvent> = Vec::new();
        let mut key_presses = TrackMap::new();
        let mut pos: usize = 0;
        let pat_song = str_to_char_vec("Song");
        let pat_sync = str_to_char_vec("SyncTrack");
        let pat_events = str_to_char_vec("Events");
        proof {
            assert(ChartView {
                properties: properties@,
                lyrics: lyric_views(lyrics@),
                tempo_map: tempo_views(tempo_map@),
                key_presses: key_presses@,
            } =~~= ChartView::empty());
        }
        loop
            invariant
                pos <= n,
                properties.wf(),
                key_presses.wf(),
                decode_sections(
                    chars@,
                    pos as int,
                    ChartView {
                        properties: properties@,
                        lyrics: lyric_views(lyrics@),
                        tempo_map: tempo_views(tempo_map@),
                        key_presses: key_presses@,
                    },
                ) == decode_chart_spec(chart_file@),
            decreases n - pos,
        {
            let ghost acc = ChartView {
                properties: properties@,
                lyrics: lyric_views(lyrics@),
                tempo_map: tempo_views(tempo_map@),
                key_presses: key_presses@,
            };
            let q = scan_brace_run(&chars, n, pos);
            match find_header(&chars, q, pos) {
                None => {},
                Some(name) => {
                    let name_len = name.len();
                    proof {
                        assert(name@.subrange(0, name@.len() as int) =~= name@);
                    }
                    if range_eq(&name, 0, name_len, &pat_song) {
                        Self::decode_properties(&mut properties, &chars, pos, q);
                    } else if range_eq(&name, 0, name_len, &pat_sync) {
                        match Self::decode_tempo_map(&mut tempo_map, &chars, pos, q) {
                            Ok(_) => {},
                            Err(e) => {
                                return Err(e);
                            },
                        }
                    } else if range_eq(&name, 0, name_len, &pat_events) {
                        match Self::decode_lyrics(&mut lyrics, &chars, pos, q) {
                            Ok(_) => {},
                            Err(e) => {
                                return Err(e);
                            },
                        }
                    } else {
                        let header = chars_to_string(&name);
                        match Self::decode_key_presses(&mut key_presses, &chars, pos, q, header) {
                            Ok(_) => {},
                            Err(e) => {
                                return Err(e);
                            },
                        }
                    }
                },
            }
            proof {
                let acc2 = ChartView {
                    properties: properties@,
                    lyrics: lyric_views(lyrics@),
                    tempo_map: tempo_views(tempo_map@),
                    key_presses: key_presses@,
                };
                assert(decode_section_spec(chars@, pos as int, q as int, acc) == Ok::<
                    ChartView,
                    DecodeErrorView,
                >(acc2));
            }
            if q == n {
                return Ok(Chart { properties, lyrics, tempo_map, key_presses });
            }
            pos = q + 1;
        }
    }

    /// Read-only view of the song properties.
    pub fn get_properties(&self) -> (r: &Properties)
        ensures
            r@ == self@.properties,
            self.wf() ==> r.wf(),
    {
        &self.properties
    }

    /// Read-only view of the lyric events, in file order.
    pub fn get_lyrics(&self) -> (r: &Vec<LyricEvent>)
        ensures
            lyric_views(r@) == self@.lyrics,
    {
        &self.lyrics
    }

    /// Read-only view of the tempo events, in file order.
    pub fn get_tempo_map(&self) -> (r: &Vec<TempoEvent>)
        ensures
            tempo_views(r@) == self@.tempo_map,
    {
        &self.tempo_map
    }

    /// Read-only view of the key presses per track name.
    pub fn get_key_presses(&self) -> (r: &TrackMap)
        ensures
            r@ == self@.key_presses,
            self.wf() ==> r.wf(),
    {
        &self.key_presses
    }
}

} // verus!
