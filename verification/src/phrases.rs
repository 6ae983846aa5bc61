//! The phrase segmenter.
//!
//! From a flat list of lyric events this module reconstructs two ordered
//! lists of phrases: the main vocal track, segmented from the input as it
//! stands, and the duet track, segmented from the duet events remapped to
//! their plain counterparts. A phrase opens at each `PhraseStart`; its window
//! reaches to the next `PhraseStart` or, for the last phrase, to infinity;
//! its lyrics are the `Lyric` events inside the window; and its end timestamp
//! is resolved by a fallback chain: an explicit `PhraseEnd` inside the
//! window, else the next phrase's start, else one tick past the last
//! collected lyric, else one tick past the phrase's own start. Segmentation
//! never fails: every input yields a collection.

use vstd::prelude::*;

use crate::chart::lyric_views;
use crate::chart::LyricEvent;
use crate::chart::LyricEventView;
use crate::scan::chars_to_string;
use crate::scan::str_to_char_vec;
use crate::TimestampedEvent;

verus! {

/// One syllable placed inside a phrase.
#[derive(Debug, Clone)]
pub struct PhraseLyric {
    timestamp: u32,
    text: String,
}

/// The mathematical value of a [`PhraseLyric`].
#[verifier::ext_equal]
pub struct PhraseLyricView {
    pub timestamp: u32,
    pub text: Seq<char>,
}

impl View for PhraseLyric {
    type V = PhraseLyricView;

    closed spec fn view(&self) -> PhraseLyricView {
        PhraseLyricView { timestamp: self.timestamp, text: self.text@ }
    }
}

impl TimestampedEvent for PhraseLyric {
    open spec fn timestamp(&self) -> u32 {
        self@.timestamp
    }

    fn get_timestamp(&self) -> (t: u32) {
        self.timestamp
    }
}

impl PhraseLyric {
    /// The syllable's text.
    pub fn get_text(&self) -> (r: &String)
        ensures
            r@ == self@.text,
    {
        &self.text
    }
}

/// The views of a sequence of phrase lyrics, in order.
pub open spec fn phrase_lyric_views(s: Seq<PhraseLyric>) -> Seq<PhraseLyricView> {
    s.map_values(|l: PhraseLyric| l@)
}

/// A timestamp-bounded group of lyric syllables.
#[derive(Debug, Clone)]
pub struct Phrase {
    start_timestamp: u32,
    end_timestamp: u32,
    lyrics: Vec<PhraseLyric>,
}

/// The mathematical value of a [`Phrase`].
#[verifier::ext_equal]
pub struct PhraseView {
    pub start_timestamp: u32,
    pub end_timestamp: u32,
    pub lyrics: Seq<PhraseLyricView>,
}

impl View for Phrase {
    type V = PhraseView;

    closed spec fn view(&self) -> PhraseView {
        PhraseView {
            start_timestamp: self.start_timestamp,
            end_timestamp: self.end_timestamp,
            lyrics: phrase_lyric_views(self.lyrics@),
        }
    }
}

impl Phrase {
    /// The timestamp at which the phrase opens.
    pub fn get_start_timestamp(&self) -> (t: u32)
        ensures
            t == self@.start_timestamp,
    {
        self.start_timestamp
    }

    /// The timestamp at which the phrase closes.
    pub fn get_end_timestamp(&self) -> (t: u32)
        ensures
            t == self@.end_timestamp,
    {
        self.end_timestamp
    }

    /// The syllables of the phrase, in order.
    pub fn get_lyrics(&self) -> (r: &Vec<PhraseLyric>)
        ensures
            phrase_lyric_views(r@) == self@.lyrics,
    {
        &self.lyrics
    }
}

/// The views of a sequence of phrases, in order.
pub open spec fn phrase_views(s: Seq<Phrase>) -> Seq<PhraseView> {
    s.map_values(|p: Phrase| p@)
}

/// Whether the event opens a phrase of its track's projection.
pub open spec fn is_phrase_start_event(e: LyricEventView) -> bool {
    e matches LyricEventView::PhraseStart { .. }
}

/// Whether the event closes a phrase of its track's projection.
pub open spec fn is_phrase_end_event(e: LyricEventView) -> bool {
    e matches LyricEventView::PhraseEnd { .. }
}

/// Whether the event is a syllable of its track's projection.
pub open spec fn is_lyric_event(e: LyricEventView) -> bool {
    e matches LyricEventView::Lyric { .. }
}

/// Whether the event belongs to the duet track.
pub open spec fn is_duet_event(e: LyricEventView) -> bool {
    ||| e matches LyricEventView::DuetPhraseStart { .. }
    ||| e matches LyricEventView::DuetPhraseEnd { .. }
    ||| e matches LyricEventView::DuetLyric { .. }
}

/// An event that takes part in segmentation of one of the two tracks.
pub open spec fn is_segmentable_event(e: LyricEventView) -> bool {
    ||| is_phrase_start_event(e)
    ||| is_phrase_end_event(e)
    ||| is_lyric_event(e)
    ||| is_duet_event(e)
}

/// The plain counterpart of a duet event; other events are unchanged.
pub open spec fn duet_counterpart(e: LyricEventView) -> LyricEventView {
    match e {
        LyricEventView::DuetPhraseStart { timestamp } => LyricEventView::PhraseStart { timestamp },
        LyricEventView::DuetPhraseEnd { timestamp } => LyricEventView::PhraseEnd { timestamp },
        LyricEventView::DuetLyric { timestamp, text } => LyricEventView::Lyric { timestamp, text },
        _ => e,
    }
}

/// The duet track's projection: every duet event remapped to its plain
/// counterpart, in order; all other events dropped.
pub open spec fn duet_projection(s: Seq<LyricEventView>) -> Seq<LyricEventView> {
    s.filter(|e: LyricEventView| is_duet_event(e)).map_values(
        |e: LyricEventView| duet_counterpart(e),
    )
}

/// The timestamps of the `PhraseStart` events, in encounter order.
pub open spec fn phrase_starts(s: Seq<LyricEventView>) -> Seq<u32> {
    s.filter(|e: LyricEventView| is_phrase_start_event(e)).map_values(
        |e: LyricEventView| e.timestamp(),
    )
}

/// How many phrases the sequence opens.
pub open spec fn count_phrase_starts(s: Seq<LyricEventView>) -> nat {
    phrase_starts(s).len()
}

/// Whether a lyric at `t` falls in the half-open window `[low, high)`;
/// the last phrase's window has no upper bound.
pub open spec fn lyric_in_window(low: u32, high: Option<u32>, t: u32) -> bool {
    t >= low && match high {
        Some(h) => t < h,
        None => true,
    }
}

/// Whether a `PhraseEnd` at `t` can close a phrase opened at `low`: strictly
/// after the start and at or before the next phrase's start, if any.
pub open spec fn end_candidate(low: u32, high: Option<u32>, t: u32) -> bool {
    t > low && match high {
        Some(h) => t <= h,
        None => true,
    }
}

/// The text of a lyric event; other events have none.
pub open spec fn lyric_text(e: LyricEventView) -> Seq<char> {
    match e {
        LyricEventView::Lyric { text, .. } => text,
        _ => Seq::empty(),
    }
}

/// The syllables of the window `[low, high)`: every lyric event whose
/// timestamp falls in it, in order.
pub open spec fn window_lyrics(s: Seq<LyricEventView>, low: u32, high: Option<u32>) -> Seq<
    PhraseLyricView,
> {
    s.filter(
        |e: LyricEventView| is_lyric_event(e) && lyric_in_window(low, high, e.timestamp()),
    ).map_values(|e: LyricEventView| PhraseLyricView { timestamp: e.timestamp(), text: lyric_text(e) })
}

/// The timestamp of the first `PhraseEnd` event of `s` that can close a
/// phrase with window `[low, high)`.
pub open spec fn find_phrase_end(s: Seq<LyricEventView>, low: u32, high: Option<u32>) -> Option<
    u32,
>
    decreases s.len(),
{
    if s.len() == 0 {
        None
    } else {
        match find_phrase_end(s.drop_last(), low, high) {
            Some(t) => Some(t),
            None => {
                if is_phrase_end_event(s.last()) && end_candidate(low, high, s.last().timestamp()) {
                    Some(s.last().timestamp())
                } else {
                    None
                }
            },
        }
    }
}

/// One tick past `t`, staying at the largest timestamp instead of wrapping.
pub open spec fn one_past(t: u32) -> u32 {
    if t == u32::MAX {
        u32::MAX
    } else {
        (t + 1) as u32
    }
}

/// The end timestamp of a phrase, by the fallback chain: the first suitable
/// `PhraseEnd`, else the next phrase's start, else one tick past the last
/// collected lyric, else one tick past the phrase's own start.
pub open spec fn phrase_end_timestamp(
    s: Seq<LyricEventView>,
    low: u32,
    high: Option<u32>,
    lyrics: Seq<PhraseLyricView>,
) -> u32 {
    match find_phrase_end(s, low, high) {
        Some(t) => t,
        None => match high {
            Some(h) => h,
            None => {
                if lyrics.len() > 0 {
                    one_past(lyrics.last().timestamp)
                } else {
                    one_past(low)
                }
            },
        },
    }
}

/// The upper bound of the `i`-th phrase's window: the next phrase's start,
/// or none for the last phrase.
pub open spec fn window_high(s: Seq<LyricEventView>, i: int) -> Option<u32> {
    if i + 1 < phrase_starts(s).len() {
        Some(phrase_starts(s)[i + 1])
    } else {
        None
    }
}

/// The phrase opened by the `i`-th `PhraseStart` of `s`.
pub open spec fn phrase_at(s: Seq<LyricEventView>, i: int) -> PhraseView {
    let low = phrase_starts(s)[i];
    let high = window_high(s, i);
    let lyrics = window_lyrics(s, low, high);
    PhraseView {
        start_timestamp: low,
        end_timestamp: phrase_end_timestamp(s, low, high, lyrics),
        lyrics,
    }
}

/// The phrases segmented from one track's event sequence: exactly one per
/// `PhraseStart`, in encounter order.
pub open spec fn segment_spec(s: Seq<LyricEventView>) -> Seq<PhraseView> {
    Seq::new(count_phrase_starts(s), |i: int| phrase_at(s, i))
}

/// What one syllable contributes to a phrase's display line: its text
/// followed by a separating space, except that a trailing hyphen marks a
/// mid-word continuation and suppresses both itself and the space.
pub open spec fn rendered_piece(t: Seq<char>) -> Seq<char> {
    if t.len() > 0 && t.last() == '-' {
        t.drop_last()
    } else {
        t.push(' ')
    }
}

/// The concatenation of the syllables' pieces, in order.
pub open spec fn joined_line(ls: Seq<PhraseLyricView>) -> Seq<char>
    decreases ls.len(),
{
    if ls.len() == 0 {
        Seq::empty()
    } else {
        joined_line(ls.drop_last()) + rendered_piece(ls.last().text)
    }
}

/// A phrase's display line: the joined syllables with a trailing space, if
/// any, trimmed.
pub open spec fn rendered_line(ls: Seq<PhraseLyricView>) -> Seq<char> {
    let line = joined_line(ls);
    if line.len() > 0 && line.last() == ' ' {
        line.drop_last()
    } else {
        line
    }
}

/// The decimal digits of `n`, most significant first.
pub open spec fn dec_digits(n: nat) -> Seq<char>
    decreases n,
{
    if n < 10 {
        seq![((48 + n) as u8) as char]
    } else {
        dec_digits(n / 10).push(((48 + n % 10) as u8) as char)
    }
}

/// The full description of a phrase: its bounds and its display line.
pub open spec fn display_line_spec(p: PhraseView) -> Seq<char> {
    "from "@ + dec_digits(p.start_timestamp as nat) + " to "@ + dec_digits(p.end_timestamp as nat)
        + ", phrase: "@ + rendered_line(p.lyrics)
}

/// Appends the characters of `s` to `out`.
#[verifier::loop_isolation(false)]
fn append_str(out: &mut Vec<char>, s: &str)
    ensures
        final(out)@ == old(out)@ + s@,
{
    let v = str_to_char_vec(s);
    let mut k: usize = 0;
    proof {
        assert(out@ =~= out@ + v@.subrange(0, 0));
    }
    while k < v.len()
        invariant
            k <= v@.len(),
            out@ == old(out)@ + v@.subrange(0, k as int),
        decreases v@.len() - k,
    {
        let ghost pre = v@.subrange(0, k as int);
        out.push(v[k]);
        proof {
            assert(v@.subrange(0, k + 1) =~= pre.push(v@[k as int]));
            assert(old(out)@ + v@.subrange(0, k + 1) =~= (old(out)@ + pre).push(v@[k as int]));
        }
        k = k + 1;
    }
    proof {
        assert(v@.subrange(0, v@.len() as int) =~= v@);
    }
}

/// Appends the decimal digits of `n` to `out`.
fn push_decimal(out: &mut Vec<char>, n: u32)
    ensures
        final(out)@ == old(out)@ + dec_digits(n as nat),
    decreases n,
{
    if n >= 10 {
        push_decimal(out, n / 10);
        let d: u8 = (n % 10) as u8;
        out.push((48 + d) as char);
        proof {
            assert(out@ =~= old(out)@ + dec_digits(n as nat));
        }
    } else {
        let d: u8 = n as u8;
        out.push((48 + d) as char);
        proof {
            assert(out@ =~= old(out)@ + dec_digits(n as nat));
        }
    }
}

impl Phrase {
    /// Renders the phrase's display line: the syllables' texts joined with
    /// single spaces, except that a syllable's trailing hyphen suppresses
    /// the following space; a trailing space is trimmed.
    #[verifier::loop_isolation(false)]
    pub fn render(&self) -> (r: String)
        ensures
            r@ == rendered_line(self@.lyrics),
    {
        let ghost lv = self@.lyrics;
        let mut out: Vec<char> = Vec::new();
        let mut i: usize = 0;
        while i < self.lyrics.len()
            invariant
                i <= self.lyrics@.len(),
                out@ == joined_line(lv.take(i as int)),
            decreases self.lyrics@.len() - i,
        {
            let ghost pre = out@;
            let ghost t = lv[i as int].text;
            let tv = str_to_char_vec(self.lyrics[i].text.as_str());
            let m = tv.len();
            if m > 0 && tv[m - 1] == '-' {
                let mut k: usize = 0;
                while k < m - 1
                    invariant
                        m == tv@.len(),
                        m > 0,
                        k <= m - 1,
                        out@ == pre + tv@.subrange(0, k as int),
                    decreases m - 1 - k,
                {
                    out.push(tv[k]);
                    proof {
                        assert(pre + tv@.subrange(0, k + 1) =~= (pre + tv@.subrange(
                            0,
                            k as int,
                        )).push(tv@[k as int]));
                    }
                    k = k + 1;
                }
                proof {
                    assert(tv@.subrange(0, m - 1) =~= rendered_piece(t));
                }
            } else {
                let mut k: usize = 0;
                while k < m
                    invariant
                        m == tv@.len(),
                        k <= m,
                        out@ == pre + tv@.subrange(0, k as int),
                    decreases m - k,
                {
                    out.push(tv[k]);
                    proof {
                        assert(pre + tv@.subrange(0, k + 1) =~= (pre + tv@.subrange(
                            0,
                            k as int,
                        )).push(tv@[k as int]));
                    }
                    k = k + 1;
                }
                out.push(' ');
                proof {
                    assert(tv@.subrange(0, m as int) =~= t);
                    assert(pre + t.push(' ') =~= (pre + t).push(' '));
                }
            }
            proof {
                assert(lv.take(i + 1).drop_last() =~= lv.take(i as int));
                assert(lv.take(i + 1).last() == lv[i as int]);
                assert(out@ =~= joined_line(lv.take(i + 1)));
            }
            i = i + 1;
        }
        proof {
            assert(lv.take(self.lyrics@.len() as int) =~= lv);
        }
        if out.len() > 0 && out[out.len() - 1] == ' ' {
            let ghost full = out@;
            out.pop();
            proof {
                assert(out@ =~= full.drop_last());
            }
        }
        chars_to_string(&out)
    }

    /// Describes the phrase as one line: its bounds and its rendered lyrics.
    pub fn display_line(&self) -> (r: String)
        ensures
            r@ == display_line_spec(self@),
    {
        let mut out: Vec<char> = Vec::new();
        append_str(&mut out, "from ");
        push_decimal(&mut out, self.start_timestamp);
        append_str(&mut out, " to ");
        push_decimal(&mut out, self.end_timestamp);
        append_str(&mut out, ", phrase: ");
        let line = self.render();
        append_str(&mut out, line.as_str());
        proof {
            assert(out@ =~= display_line_spec(self@));
        }
        chars_to_string(&out)
    }
}

/// The events a phrase re-encodes to: its start marker, its syllables in
/// order, and its end marker.
pub open spec fn encode_phrase(p: PhraseView) -> Seq<LyricEventView> {
    seq![LyricEventView::PhraseStart { timestamp: p.start_timestamp }] + p.lyrics.map_values(
        |l: PhraseLyricView| LyricEventView::Lyric { timestamp: l.timestamp, text: l.text },
    ) + seq![LyricEventView::PhraseEnd { timestamp: p.end_timestamp }]
}

/// The events a list of phrases re-encodes to, in order.
pub open spec fn encode_phrases(ps: Seq<PhraseView>) -> Seq<LyricEventView>
    decreases ps.len(),
{
    if ps.len() == 0 {
        Seq::empty()
    } else {
        encode_phrases(ps.drop_last()) + encode_phrase(ps.last())
    }
}

/// The two phrase tracks derived from a lyric event list: the final output
/// of segmentation, read-only once built.
#[derive(Debug)]
pub struct LyricPhraseCollection {
    main_phrases: Vec<Phrase>,
    duet_phrases: Vec<Phrase>,
}

/// The mathematical value of a [`LyricPhraseCollection`].
#[verifier::ext_equal]
pub struct LyricPhraseCollectionView {
    pub main_phrases: Seq<PhraseView>,
    pub duet_phrases: Seq<PhraseView>,
}

impl View for LyricPhraseCollection {
    type V = LyricPhraseCollectionView;

    closed spec fn view(&self) -> LyricPhraseCollectionView {
        LyricPhraseCollectionView {
            main_phrases: phrase_views(self.main_phrases@),
            duet_phrases: phrase_views(self.duet_phrases@),
        }
    }
}

/// Whether `e` is a plain lyric at `t` inside the window.
fn lyric_in_window_exec(low: u32, high: &Option<u32>, t: u32) -> (r: bool)
    ensures
        r == lyric_in_window(low, *high, t),
{
    t >= low && match high {
        Some(h) => t < *h,
        None => true,
    }
}

/// Collects the timestamps of the `PhraseStart` events, in order.
#[verifier::loop_isolation(false)]
fn collect_phrase_starts(lyric_events: &[LyricEvent]) -> (r: Vec<u32>)
    ensures
        r@ == phrase_starts(lyric_views(lyric_events@)),
{
    let ghost sv = lyric_views(lyric_events@);
    let mut timestamps: Vec<u32> = Vec::new();
    let mut j: usize = 0;
    while j < lyric_events.len()
        invariant
            j <= lyric_events@.len(),
            timestamps@ == phrase_starts(sv.take(j as int)),
        decreases lyric_events@.len() - j,
    {
        let ghost pre = sv.take(j as int);
        let ghost cur = sv.take(j + 1);
        proof {
            assert(cur.drop_last() =~= pre);
            assert(cur.last() == sv[j as int]);
            reveal(Seq::filter);
        }
        match &lyric_events[j] {
            LyricEvent::PhraseStart { timestamp } => {
                timestamps.push(*timestamp);
                proof {
                    let p = |e: LyricEventView| is_phrase_start_event(e);
                    assert(cur.filter(p) =~= pre.filter(p).push(sv[j as int]));
                    assert(phrase_starts(cur) =~= phrase_starts(pre).push(*timestamp));
                }
            },
            _ => {
                proof {
                    assert(phrase_starts(cur) =~= phrase_starts(pre));
                }
            },
        }
        j = j + 1;
    }
    proof {
        assert(sv.take(lyric_events@.len() as int) =~= sv);
    }
    timestamps
}

/// Collects the syllables of the window `[low, high)`, in order.
#[verifier::loop_isolation(false)]
fn collect_window_lyrics(lyric_events: &[LyricEvent], low: u32, high: Option<u32>) -> (r: Vec<
    PhraseLyric,
>)
    ensures
        phrase_lyric_views(r@) == window_lyrics(lyric_views(lyric_events@), low, high),
{
    let ghost sv = lyric_views(lyric_events@);
    let mut collected: Vec<PhraseLyric> = Vec::new();
    let mut j: usize = 0;
    while j < lyric_events.len()
        invariant
            j <= lyric_events@.len(),
            phrase_lyric_views(collected@) == window_lyrics(sv.take(j as int), low, high),
        decreases lyric_events@.len() - j,
    {
        let ghost pre = sv.take(j as int);
        let ghost cur = sv.take(j + 1);
        proof {
            assert(cur.drop_last() =~= pre);
            assert(cur.last() == sv[j as int]);
            reveal(Seq::filter);
        }
        let ghost keeps = |e: LyricEventView|
            is_lyric_event(e) && lyric_in_window(low, high, e.timestamp());
        match &lyric_events[j] {
            LyricEvent::Lyric { timestamp, text } => {
                if lyric_in_window_exec(low, &high, *timestamp) {
                    let ghost a = phrase_lyric_views(collected@);
                    collected.push(PhraseLyric { timestamp: *timestamp, text: text.clone() });
                    proof {
                        assert(cur.filter(keeps) =~= pre.filter(keeps).push(sv[j as int]));
                        assert(phrase_lyric_views(collected@) =~= a.push(
                            collected@.last()@,
                        ));
                        assert(window_lyrics(cur, low, high) =~= phrase_lyric_views(collected@));
                    }
                } else {
                    proof {
                        assert(cur.filter(keeps) =~= pre.filter(keeps));
                        assert(window_lyrics(cur, low, high) =~= window_lyrics(pre, low, high));
                    }
                }
            },
            _ => {
                proof {
                    assert(cur.filter(keeps) =~= pre.filter(keeps));
                    assert(window_lyrics(cur, low, high) =~= window_lyrics(pre, low, high));
                }
            },
        }
        j = j + 1;
    }
    proof {
        assert(sv.take(lyric_events@.len() as int) =~= sv);
    }
    collected
}

proof fn lemma_find_phrase_end_extend(s: Seq<LyricEventView>, low: u32, high: Option<u32>, k: int)
    requires
        0 <= k <= s.len(),
        find_phrase_end(s.take(k), low, high) is Some,
    ensures
        find_phrase_end(s, low, high) == find_phrase_end(s.take(k), low, high),
    decreases s.len() - k,
{
    if k < s.len() {
        assert(s.take(k + 1).drop_last() =~= s.take(k));
        lemma_find_phrase_end_extend(s, low, high, k + 1);
    } else {
        assert(s.take(k) =~= s);
    }
}

/// Finds the first `PhraseEnd` event that can close a phrase with window
/// `[low, high)`.
#[verifier::loop_isolation(false)]
fn find_end_exec(lyric_events: &[LyricEvent], low: u32, high: Option<u32>) -> (r: Option<u32>)
    ensures
        r == find_phrase_end(lyric_views(lyric_events@), low, high),
{
    let ghost sv = lyric_views(lyric_events@);
    let mut j: usize = 0;
    while j < lyric_events.len()
        invariant
            j <= lyric_events@.len(),
            find_phrase_end(sv.take(j as int), low, high) is None,
        decreases lyric_events@.len() - j,
    {
        let ghost pre = sv.take(j as int);
        let ghost cur = sv.take(j + 1);
        proof {
            assert(cur.drop_last() =~= pre);
            assert(cur.last() == sv[j as int]);
        }
        match &lyric_events[j] {
            LyricEvent::PhraseEnd { timestamp } => {
                let t = *timestamp;
                let fits = t > low && match high {
                    Some(h) => t <= h,
                    None => true,
                };
                if fits {
                    proof {
                        assert(find_phrase_end(cur, low, high) == Some(t));
                        lemma_find_phrase_end_extend(sv, low, high, j + 1);
                    }
                    return Some(t);
                }
            },
            _ => {},
        }
        j = j + 1;
    }
    proof {
        assert(sv.take(lyric_events@.len() as int) =~= sv);
    }
    None
}

impl LyricPhraseCollection {
    /// Segments one track's event sequence into its phrases: one per
    /// `PhraseStart`, each with the window's lyrics and the resolved end
    /// timestamp.
    #[verifier::loop_isolation(false)]
    fn parse_phrases_from(lyric_events: &[LyricEvent]) -> (r: Vec<Phrase>)
        ensures
            phrase_views(r@) == segment_spec(lyric_views(lyric_events@)),
    {
        let ghost sv = lyric_views(lyric_events@);
        let timestamps = collect_phrase_starts(lyric_events);
        let n = timestamps.len();
        let mut phrases: Vec<Phrase> = Vec::new();
        let mut i: usize = 0;
        while i < n
            invariant
                i <= n,
                n == phrase_starts(sv).len(),
                timestamps@ == phrase_starts(sv),
                phrase_views(phrases@) == segment_spec(sv).take(i as int),
            decreases n - i,
        {
            let low = timestamps[i];
            let high: Option<u32> = if i + 1 < n {
                Some(timestamps[i + 1])
            } else {
                None
            };
            let lyrics = collect_window_lyrics(lyric_events, low, high);
            let end_timestamp = match find_end_exec(lyric_events, low, high) {
                Some(t) => t,
                None => match high {
                    Some(h) => h,
                    None => {
                        if lyrics.len() > 0 {
                            let t = lyrics[lyrics.len() - 1].get_timestamp();
                            if t == u32::MAX {
                                u32::MAX
                            } else {
                                t + 1
                            }
                        } else {
                            if low == u32::MAX {
                                u32::MAX
                            } else {
                                low + 1
                            }
                        }
                    },
                },
            };
            let ghost a = phrase_views(phrases@);
            let phrase = Phrase { start_timestamp: low, end_timestamp, lyrics };
            proof {
                assert(phrase_lyric_views(phrase.lyrics@).len() > 0 ==> phrase_lyric_views(
                    phrase.lyrics@,
                ).last() == phrase.lyrics@.last()@);
                assert(phrase@ =~= phrase_at(sv, i as int));
            }
            phrases.push(phrase);
            proof {
                assert(phrase_views(phrases@) =~= a.push(phrase@));
                assert(segment_spec(sv).take(i + 1) =~= segment_spec(sv).take(i as int).push(
                    phrase_at(sv, i as int),
                ));
            }
            i = i + 1;
        }
        proof {
            assert(segment_spec(sv).take(n as int) =~= segment_spec(sv));
        }
        phrases
    }

    /// Builds the phrase collection of a lyric event list: the main track is
    /// segmented from the input as it stands, the duet track from the duet
    /// events remapped to their plain counterparts.
    #[verifier::loop_isolation(false)]
    pub fn new(lyrics_events: &[LyricEvent]) -> (r: Self)
        ensures
            r@.main_phrases == segment_spec(lyric_views(lyrics_events@)),
            r@.duet_phrases == segment_spec(duet_projection(lyric_views(lyrics_events@))),
    {
        let ghost sv = lyric_views(lyrics_events@);
        let mut duet_only: Vec<LyricEvent> = Vec::new();
        let mut j: usize = 0;
        while j < lyrics_events.len()
            invariant
                j <= lyrics_events@.len(),
                lyric_views(duet_only@) == duet_projection(sv.take(j as int)),
            decreases lyrics_events@.len() - j,
        {
            let ghost pre = sv.take(j as int);
            let ghost cur = sv.take(j + 1);
            let ghost dp = |e: LyricEventView| is_duet_event(e);
            proof {
                assert(cur.drop_last() =~= pre);
                assert(cur.last() == sv[j as int]);
                reveal(Seq::filter);
            }
            let ghost a = lyric_views(duet_only@);
            match &lyrics_events[j] {
                LyricEvent::DuetPhraseStart { timestamp } => {
                    duet_only.push(LyricEvent::PhraseStart { timestamp: *timestamp });
                },
                LyricEvent::DuetPhraseEnd { timestamp } => {
                    duet_only.push(LyricEvent::PhraseEnd { timestamp: *timestamp });
                },
                LyricEvent::DuetLyric { timestamp, text } => {
                    duet_only.push(
                        LyricEvent::Lyric { timestamp: *timestamp, text: text.clone() },
                    );
                },
                _ => {},
            }
            proof {
                if is_duet_event(sv[j as int]) {
                    assert(cur.filter(dp) =~= pre.filter(dp).push(sv[j as int]));
                    assert(lyric_views(duet_only@) =~= a.push(duet_only@.last()@));
                    assert(duet_only@.last()@ == duet_counterpart(sv[j as int]));
                    assert(duet_projection(cur) =~= lyric_views(duet_only@));
                } else {
                    assert(cur.filter(dp) =~= pre.filter(dp));
                    assert(duet_projection(cur) =~= duet_projection(pre));
                }
            }
            j = j + 1;
        }
        proof {
            assert(sv.take(lyrics_events@.len() as int) =~= sv);
        }
        let main = Self::parse_phrases_from(lyrics_events);
        let duet = Self::parse_phrases_from(duet_only.as_slice());
        LyricPhraseCollection { main_phrases: main, duet_phrases: duet }
    }

    /// Re-encodes one phrase as lyric events, appended to `result`.
    #[verifier::loop_isolation(false)]
    fn encode_single(phrase: &Phrase, result: &mut Vec<LyricEvent>)
        ensures
            lyric_views(final(result)@) == lyric_views(old(result)@) + encode_phrase(phrase@),
    {
        let ghost base = lyric_views(result@);
        let ghost start_ev = LyricEventView::PhraseStart { timestamp: phrase@.start_timestamp };
        let ghost to_ev = |l: PhraseLyricView| LyricEventView::Lyric {
            timestamp: l.timestamp,
            text: l.text,
        };
        result.push(LyricEvent::PhraseStart { timestamp: phrase.start_timestamp });
        proof {
            assert(lyric_views(result@) =~= base + seq![start_ev] + phrase@.lyrics.take(
                0,
            ).map_values(to_ev));
        }
        let mut k: usize = 0;
        while k < phrase.lyrics.len()
            invariant
                k <= phrase.lyrics@.len(),
                lyric_views(result@) == base + seq![start_ev] + phrase@.lyrics.take(
                    k as int,
                ).map_values(to_ev),
            decreases phrase.lyrics@.len() - k,
        {
            let ghost before = lyric_views(result@);
            let l = &phrase.lyrics[k];
            result.push(LyricEvent::Lyric { timestamp: l.timestamp, text: l.text.clone() });
            proof {
                let ev = to_ev(phrase@.lyrics[k as int]);
                assert(result@.last()@ == ev);
                assert(lyric_views(result@) =~= before.push(ev));
                assert(phrase@.lyrics.take(k + 1) =~= phrase@.lyrics.take(k as int).push(
                    phrase@.lyrics[k as int],
                ));
                assert(phrase@.lyrics.take(k + 1).map_values(to_ev) =~= phrase@.lyrics.take(
                    k as int,
                ).map_values(to_ev).push(ev));
                assert(before.push(ev) =~= base + seq![start_ev] + phrase@.lyrics.take(
                    k + 1,
                ).map_values(to_ev));
            }
            k = k + 1;
        }
        let ghost mid = lyric_views(result@);
        result.push(LyricEvent::PhraseEnd { timestamp: phrase.end_timestamp });
        proof {
            let end_ev = LyricEventView::PhraseEnd { timestamp: phrase@.end_timestamp };
            assert(result@.last()@ == end_ev);
            assert(lyric_views(result@) =~= mid.push(end_ev));
            assert(phrase@.lyrics.take(phrase.lyrics@.len() as int) =~= phrase@.lyrics);
            assert(mid.push(end_ev) =~= base + encode_phrase(phrase@));
        }
    }

    /// Re-encodes the main track's phrases as a flat lyric event list: for
    /// each phrase its start marker, its syllables and its end marker, in
    /// order. Callers must keep every duet phrase after the main phrases:
    /// interleaving the two tracks is not supported.
    #[verifier::loop_isolation(false)]
    pub fn encode(&self) -> (r: Vec<LyricEvent>)
        requires
            self@.duet_phrases.len() == 0 || forall|i: int|
                0 <= i < self@.main_phrases.len() ==> self@.duet_phrases[0].start_timestamp > (
                #[trigger] self@.main_phrases[i]).start_timestamp,
        ensures
            lyric_views(r@) == encode_phrases(self@.main_phrases),
    {
        let mut result: Vec<LyricEvent> = Vec::new();
        let mut i: usize = 0;
        proof {
            assert(lyric_views(result@) =~= encode_phrases(self@.main_phrases.take(0)));
        }
        while i < self.main_phrases.len()
            invariant
                i <= self.main_phrases@.len(),
                lyric_views(result@) == encode_phrases(self@.main_phrases.take(i as int)),
            decreases self.main_phrases@.len() - i,
        {
            Self::encode_single(&self.main_phrases[i], &mut result);
            proof {
                assert(self@.main_phrases.take(i + 1).drop_last() =~= self@.main_phrases.take(
                    i as int,
                ));
                assert(self@.main_phrases.take(i + 1).last() == self@.main_phrases[i as int]);
            }
            i = i + 1;
        }
        proof {
            assert(self@.main_phrases.take(self.main_phrases@.len() as int)
                =~= self@.main_phrases);
        }
        result
    }

    /// Read-only view of the main track's phrases.
    pub fn get_main_phrases(&self) -> (r: &Vec<Phrase>)
        ensures
            phrase_views(r@) == self@.main_phrases,
    {
        &self.main_phrases
    }

    /// Read-only view of the duet track's phrases.
    pub fn get_duet_phrases(&self) -> (r: &Vec<Phrase>)
        ensures
            phrase_views(r@) == self@.duet_phrases,
    {
        &self.duet_phrases
    }
}


/// A plain phrase event: one that the main track's segmentation reads.
pub open spec fn is_plain_event(e: LyricEventView) -> bool {
    ||| is_phrase_start_event(e)
    ||| is_phrase_end_event(e)
    ||| is_lyric_event(e)
}

/// An input whose events are all structural markers or unrecognised codes:
/// nothing that segmentation of either track reads.
pub open spec fn only_passive_events(s: Seq<LyricEventView>) -> bool {
    forall|k: int| 0 <= k < s.len() ==> !is_segmentable_event(#[trigger] s[k])
}

/// The concatenation of the display lines of a list of phrases.
pub open spec fn concat_display(ps: Seq<PhraseView>) -> Seq<char>
    decreases ps.len(),
{
    if ps.len() == 0 {
        Seq::empty()
    } else {
        display_line_spec(ps[0]) + concat_display(ps.drop_first())
    }
}

/// Round-trip count: segmentation yields exactly one phrase per
/// `PhraseStart` event of its input, whatever the input holds.
pub proof fn lemma_phrase_count(s: Seq<LyricEventView>)
    ensures
        segment_spec(s).len() == count_phrase_starts(s),
{
}

/// Filtering by a broader predicate first does not change a filter.
proof fn lemma_filter_subset_pred<A>(s: Seq<A>, p: spec_fn(A) -> bool, q: spec_fn(A) -> bool)
    requires
        forall|x: A| #[trigger] q(x) ==> p(x),
    ensures
        s.filter(p).filter(q) == s.filter(q),
    decreases s.len(),
{
    reveal(Seq::filter);
    if s.len() > 0 {
        lemma_filter_subset_pred(s.drop_last(), p, q);
        let a = s.drop_last().filter(p);
        if p(s.last()) {
            assert(s.filter(p) =~= a.push(s.last()));
            assert(a.push(s.last()).drop_last() =~= a);
        } else {
            assert(s.filter(p) =~= a);
        }
    }
}

/// A filter with no matching element is empty.
proof fn lemma_filter_none<A>(s: Seq<A>, p: spec_fn(A) -> bool)
    requires
        forall|k: int| 0 <= k < s.len() ==> !p(#[trigger] s[k]),
    ensures
        s.filter(p) == Seq::<A>::empty(),
    decreases s.len(),
{
    reveal(Seq::filter);
    if s.len() > 0 {
        lemma_filter_none(s.drop_last(), p);
        assert(s.filter(p) =~= Seq::<A>::empty());
    }
}

/// A non-empty filter has a matching element.
proof fn lemma_filter_nonempty<A>(s: Seq<A>, p: spec_fn(A) -> bool)
    requires
        s.filter(p).len() > 0,
    ensures
        exists|k: int| 0 <= k < s.len() && p(#[trigger] s[k]),
    decreases s.len(),
{
    reveal(Seq::filter);
    if s.len() > 0 {
        if p(s.last()) {
            assert(0 <= s.len() - 1 < s.len() && p(s[s.len() - 1]));
        } else {
            lemma_filter_nonempty(s.drop_last(), p);
            let k = choose|k: int| 0 <= k < s.drop_last().len() && p(#[trigger] s.drop_last()[k]);
            assert(s[k] == s.drop_last()[k]);
        }
    }
}

/// Dropping events that are never suitable phrase ends does not change the
/// end search.
proof fn lemma_find_end_filter(
    s: Seq<LyricEventView>,
    low: u32,
    high: Option<u32>,
    p: spec_fn(LyricEventView) -> bool,
)
    requires
        forall|e: LyricEventView| #[trigger] is_phrase_end_event(e) ==> p(e),
    ensures
        find_phrase_end(s.filter(p), low, high) == find_phrase_end(s, low, high),
    decreases s.len(),
{
    reveal(Seq::filter);
    if s.len() > 0 {
        lemma_find_end_filter(s.drop_last(), low, high, p);
        let a = s.drop_last().filter(p);
        if p(s.last()) {
            assert(s.filter(p) =~= a.push(s.last()));
            assert(a.push(s.last()).drop_last() =~= a);
            assert(a.push(s.last()).last() == s.last());
        } else {
            assert(s.filter(p) =~= a);
        }
    }
}

/// Segmentation reads only the plain phrase events: filtering the input down
/// to them changes nothing.
pub proof fn lemma_segment_reads_plain_events(s: Seq<LyricEventView>)
    ensures
        segment_spec(s) == segment_spec(s.filter(|e: LyricEventView| is_plain_event(e))),
{
    let pp = |e: LyricEventView| is_plain_event(e);
    let f = s.filter(pp);
    let sp = |e: LyricEventView| is_phrase_start_event(e);
    lemma_filter_subset_pred(s, pp, sp);
    assert(phrase_starts(f) == phrase_starts(s));
    assert forall|i: int| 0 <= i < count_phrase_starts(s) implies phrase_at(f, i) == phrase_at(
        s,
        i,
    ) by {
        let starts = phrase_starts(s);
        let low = starts[i];
        let high = if i + 1 < starts.len() {
            Some(starts[i + 1])
        } else {
            None::<u32>
        };
        let wl = |e: LyricEventView| is_lyric_event(e) && lyric_in_window(low, high, e.timestamp());
        lemma_filter_subset_pred(s, pp, wl);
        assert(window_lyrics(f, low, high) == window_lyrics(s, low, high));
        lemma_find_end_filter(s, low, high, pp);
        assert(find_phrase_end(f, low, high) == find_phrase_end(s, low, high));
    }
    assert(segment_spec(s) =~= segment_spec(f));
}

/// Duet independence: the main track's phrases depend only on the plain
/// `PhraseStart`/`Lyric`/`PhraseEnd` events, and the duet track's projection
/// only on the `DuetPhraseStart`/`DuetLyric`/`DuetPhraseEnd` events, so
/// neither track's events influence the other's phrases.
pub proof fn lemma_duet_independence(s: Seq<LyricEventView>)
    ensures
        segment_spec(s) == segment_spec(s.filter(|e: LyricEventView| is_plain_event(e))),
        duet_projection(s) == duet_projection(s.filter(|e: LyricEventView| is_duet_event(e))),
{
    lemma_segment_reads_plain_events(s);
    let dp = |e: LyricEventView| is_duet_event(e);
    lemma_filter_subset_pred(s, dp, dp);
}

/// A found phrase end can close the phrase: it lies strictly after the
/// phrase's start and at or before the window's bound.
proof fn lemma_find_phrase_end_sound(s: Seq<LyricEventView>, low: u32, high: Option<u32>)
    requires
        find_phrase_end(s, low, high) is Some,
    ensures
        end_candidate(low, high, find_phrase_end(s, low, high)->0),
    decreases s.len(),
{
    if s.len() > 0 && find_phrase_end(s.drop_last(), low, high) is Some {
        lemma_find_phrase_end_sound(s.drop_last(), low, high);
    }
}

/// Window disjointness, first half: every phrase but the last ends at or
/// before the next phrase's start.
pub proof fn lemma_phrase_end_before_next(s: Seq<LyricEventView>, i: int)
    requires
        0 <= i,
        i + 1 < segment_spec(s).len(),
    ensures
        segment_spec(s)[i].end_timestamp <= segment_spec(s)[i + 1].start_timestamp,
{
    let starts = phrase_starts(s);
    let low = starts[i];
    let high = Some(starts[i + 1]);
    if find_phrase_end(s, low, high) is Some {
        lemma_find_phrase_end_sound(s, low, high);
    }
}

/// Whether the phrase starts come in non-decreasing order, as they do in a
/// well-formed chart.
pub open spec fn starts_sorted(s: Seq<LyricEventView>) -> bool {
    forall|a: int, b: int|
        0 <= a <= b < phrase_starts(s).len() ==> phrase_starts(s)[a] <= phrase_starts(s)[b]
}

/// Window disjointness, second half: when the phrase starts come in
/// non-decreasing order, no timestamp falls in two phrases' windows, so no
/// lyric is assigned to two phrases.
pub proof fn lemma_window_disjointness(s: Seq<LyricEventView>, i: int, j: int, t: u32)
    requires
        starts_sorted(s),
        0 <= i < j < count_phrase_starts(s),
    ensures
        !(lyric_in_window(phrase_starts(s)[i], window_high(s, i), t) && lyric_in_window(
            phrase_starts(s)[j],
            window_high(s, j),
            t,
        )),
{
    assert(phrase_starts(s)[i + 1] <= phrase_starts(s)[j]);
}

/// Window disjointness, corollary: when the phrase starts come in
/// non-decreasing order, no lyric event is collected into the lyrics of two
/// phrases.
pub proof fn lemma_no_lyric_in_two_phrases(s: Seq<LyricEventView>, i: int, j: int, k: int)
    requires
        starts_sorted(s),
        0 <= i < j < count_phrase_starts(s),
        0 <= k < s.len(),
    ensures
        !(is_lyric_event(s[k]) && lyric_in_window(
            phrase_starts(s)[i],
            window_high(s, i),
            s[k].timestamp(),
        ) && lyric_in_window(phrase_starts(s)[j], window_high(s, j), s[k].timestamp())),
{
    lemma_window_disjointness(s, i, j, s[k].timestamp());
}

/// Rendering emptiness: the concatenated display lines of the main phrases
/// are empty exactly when the input holds nothing but `Section` and
/// `OtherLyricEvent` entries. An input with lyric or phrase events but no
/// `PhraseStart` yields no phrase at all and is excluded: its concatenation
/// is empty although a segmentable event is present.
pub proof fn lemma_rendering_emptiness(s: Seq<LyricEventView>)
    requires
        count_phrase_starts(s) > 0 || only_passive_events(s),
    ensures
        (concat_display(segment_spec(s)).len() == 0) <==> only_passive_events(s),
{
    let sp = |e: LyricEventView| is_phrase_start_event(e);
    if only_passive_events(s) {
        assert forall|k: int| 0 <= k < s.len() implies !sp(s[k]) by {}
        lemma_filter_none(s, sp);
        assert(segment_spec(s) =~= Seq::<PhraseView>::empty());
    } else {
        assert(count_phrase_starts(s) > 0);
        let ps = segment_spec(s);
        assert(ps.len() > 0);
        assert(concat_display(ps) == display_line_spec(ps[0]) + concat_display(ps.drop_first()));
        proof_display_line_nonempty(ps[0]);
    }
    if count_phrase_starts(s) > 0 {
        lemma_filter_nonempty(s, sp);
        let k = choose|k: int| 0 <= k < s.len() && sp(#[trigger] s[k]);
        assert(is_segmentable_event(s[k]));
        assert(!only_passive_events(s));
    }
}

/// A display line always begins with its "from" prefix, so it is never
/// empty.
proof fn proof_display_line_nonempty(p: PhraseView)
    ensures
        display_line_spec(p).len() > 0,
{
    reveal_strlit("from ");
    assert("from "@.len() == 5);
}

} // verus!
