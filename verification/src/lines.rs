//! The line grammar of chart sections.
//!
//! A chart file is a sequence of sections delimited by `'}'`. Inside a
//! section, the decoder recognises two line shapes, each anchored by a
//! two-space indent:
//!
//! * timed event line: `"  "` digits `" = "` word, optionally followed by a
//!   space and free text running to the end of the line;
//! * property line: `"  "` key `" = "` free text, where the key is a
//!   non-empty run of characters other than space and `'='` and the text is
//!   non-empty.
//!
//! A section's name is taken from the first bracketed header `[Name]` found
//! in it: the leftmost `'['` whose following run of non-`']'` characters is
//! non-empty and closed by a `']'`.
//!
//! Matches are found leftmost-first and do not overlap: scanning resumes at
//! the end of each match. The specification functions here pin down the
//! match positions and field extents; the executable scanners are proved to
//! return exactly those.

use vstd::prelude::*;

use crate::scan::bracket_run_end;
use crate::scan::digit_exec;
use crate::scan::digit_run_end;
use crate::scan::is_line_break;
use crate::scan::key_run_end;
use crate::scan::line_break_exec;
use crate::scan::scan_bracket_run;
use crate::scan::scan_digit_run;
use crate::scan::scan_key_run;
use crate::scan::scan_text_run;
use crate::scan::scan_word_run;
use crate::scan::text_run_end;
use crate::scan::word_run_end;

verus! {

/// Field extents of a timed event line starting at `i`.
pub struct LineShape {
    pub ts_lo: int,
    pub ts_hi: int,
    pub code_lo: int,
    pub code_hi: int,
    pub has_content: bool,
    pub content_lo: int,
    pub content_hi: int,
    pub end: int,
}

/// The field extents a timed event line starting at `i` would have, whether
/// or not the line actually matches there.
pub open spec fn line_shape(s: Seq<char>, hi: int, i: int) -> LineShape {
    let ts_lo = i + 2;
    let ts_hi = digit_run_end(s, hi, ts_lo);
    let code_lo = ts_hi + 3;
    let code_hi = word_run_end(s, hi, code_lo);
    let has_content = code_hi < hi && s[code_hi] == ' ';
    let content_lo = if has_content {
        code_hi + 1
    } else {
        code_hi
    };
    let content_hi = if has_content {
        text_run_end(s, hi, content_lo)
    } else {
        code_hi
    };
    LineShape {
        ts_lo,
        ts_hi,
        code_lo,
        code_hi,
        has_content,
        content_lo,
        content_hi,
        end: content_hi,
    }
}

/// Whether a timed event line matches at position `i` within `[0, hi)`.
pub open spec fn line_match_at(s: Seq<char>, hi: int, i: int) -> bool {
    let sh = line_shape(s, hi, i);
    &&& 0 <= i
    &&& i + 2 <= hi <= s.len()
    &&& s[i] == ' '
    &&& s[i + 1] == ' '
    &&& sh.ts_hi > sh.ts_lo
    &&& sh.ts_hi + 3 <= hi
    &&& s[sh.ts_hi] == ' '
    &&& s[sh.ts_hi + 1] == '='
    &&& s[sh.ts_hi + 2] == ' '
    &&& sh.code_hi > sh.code_lo
    &&& (sh.code_hi == hi || s[sh.code_hi] == ' ' || is_line_break(s[sh.code_hi]))
}

/// The timestamp field of a timed event line.
pub open spec fn line_ts(s: Seq<char>, hi: int, i: int) -> Seq<char> {
    s.subrange(line_shape(s, hi, i).ts_lo, line_shape(s, hi, i).ts_hi)
}

/// The code field of a timed event line.
pub open spec fn line_code(s: Seq<char>, hi: int, i: int) -> Seq<char> {
    s.subrange(line_shape(s, hi, i).code_lo, line_shape(s, hi, i).code_hi)
}

/// The content field of a timed event line; empty when the line stops at its
/// code.
pub open spec fn line_content(s: Seq<char>, hi: int, i: int) -> Seq<char> {
    s.subrange(line_shape(s, hi, i).content_lo, line_shape(s, hi, i).content_hi)
}

pub proof fn lemma_line_shape_bounds(s: Seq<char>, hi: int, i: int)
    requires
        line_match_at(s, hi, i),
    ensures
        ({
            let sh = line_shape(s, hi, i);
            &&& i + 2 == sh.ts_lo < sh.ts_hi
            &&& sh.ts_hi + 3 == sh.code_lo < sh.code_hi
            &&& sh.code_hi <= sh.content_lo <= sh.content_hi <= hi
            &&& sh.end == sh.content_hi
            &&& i < sh.end <= hi
        }),
{
    let sh = line_shape(s, hi, i);
    crate::scan::lemma_run_end_bounds(s, hi, sh.ts_lo, |c: char| crate::scan::is_ascii_digit(c));
    crate::scan::lemma_run_end_bounds(s, hi, sh.code_lo, |c: char| crate::scan::is_word_char(c));
    if sh.has_content {
        crate::scan::lemma_run_end_bounds(s, hi, sh.content_lo, |c: char| !is_line_break(c));
    }
}

/// Position of the first timed event line match at or after `from`.
pub open spec fn find_line_from(s: Seq<char>, hi: int, from: int) -> Option<int>
    decreases hi - from,
{
    if !(0 <= from < hi) {
        None
    } else if line_match_at(s, hi, from) {
        Some(from)
    } else {
        find_line_from(s, hi, from + 1)
    }
}

pub proof fn lemma_find_line_props(s: Seq<char>, hi: int, from: int)
    requires
        find_line_from(s, hi, from) is Some,
    ensures
        ({
            let p = find_line_from(s, hi, from)->0;
            &&& from <= p < hi
            &&& line_match_at(s, hi, p)
        }),
    decreases hi - from,
{
    if 0 <= from < hi && !line_match_at(s, hi, from) {
        lemma_find_line_props(s, hi, from + 1);
    }
}

/// Field extents of a property line starting at `i`.
pub struct PropShape {
    pub key_lo: int,
    pub key_hi: int,
    pub val_lo: int,
    pub val_hi: int,
    pub end: int,
}

/// The field extents a property line starting at `i` would have.
pub open spec fn prop_shape(s: Seq<char>, hi: int, i: int) -> PropShape {
    let key_lo = i + 2;
    let key_hi = key_run_end(s, hi, key_lo);
    let val_lo = key_hi + 3;
    let val_hi = text_run_end(s, hi, val_lo);
    PropShape { key_lo, key_hi, val_lo, val_hi, end: val_hi }
}

/// Whether a property line matches at position `i` within `[0, hi)`.
pub open spec fn prop_match_at(s: Seq<char>, hi: int, i: int) -> bool {
    let sh = prop_shape(s, hi, i);
    &&& 0 <= i
    &&& i + 2 <= hi <= s.len()
    &&& s[i] == ' '
    &&& s[i + 1] == ' '
    &&& sh.key_hi > sh.key_lo
    &&& sh.key_hi + 3 <= hi
    &&& s[sh.key_hi] == ' '
    &&& s[sh.key_hi + 1] == '='
    &&& s[sh.key_hi + 2] == ' '
    &&& sh.val_hi > sh.val_lo
}

/// The key field of a property line.
pub open spec fn prop_key(s: Seq<char>, hi: int, i: int) -> Seq<char> {
    s.subrange(prop_shape(s, hi, i).key_lo, prop_shape(s, hi, i).key_hi)
}

/// The value field of a property line.
pub open spec fn prop_value(s: Seq<char>, hi: int, i: int) -> Seq<char> {
    s.subrange(prop_shape(s, hi, i).val_lo, prop_shape(s, hi, i).val_hi)
}

pub proof fn lemma_prop_shape_bounds(s: Seq<char>, hi: int, i: int)
    requires
        prop_match_at(s, hi, i),
    ensures
        ({
            let sh = prop_shape(s, hi, i);
            &&& i + 2 == sh.key_lo < sh.key_hi
            &&& sh.key_hi + 3 == sh.val_lo < sh.val_hi <= hi
            &&& sh.end == sh.val_hi
            &&& i < sh.end <= hi
        }),
{
    let sh = prop_shape(s, hi, i);
    crate::scan::lemma_run_end_bounds(s, hi, sh.key_lo, |c: char| c != ' ' && c != '=');
    crate::scan::lemma_run_end_bounds(s, hi, sh.val_lo, |c: char| !is_line_break(c));
}

/// Position of the first property line match at or after `from`.
pub open spec fn find_prop_from(s: Seq<char>, hi: int, from: int) -> Option<int>
    decreases hi - from,
{
    if !(0 <= from < hi) {
        None
    } else if prop_match_at(s, hi, from) {
        Some(from)
    } else {
        find_prop_from(s, hi, from + 1)
    }
}

pub proof fn lemma_find_prop_props(s: Seq<char>, hi: int, from: int)
    requires
        find_prop_from(s, hi, from) is Some,
    ensures
        ({
            let p = find_prop_from(s, hi, from)->0;
            &&& from <= p < hi
            &&& prop_match_at(s, hi, p)
        }),
    decreases hi - from,
{
    if 0 <= from < hi && !prop_match_at(s, hi, from) {
        lemma_find_prop_props(s, hi, from + 1);
    }
}

/// Closing position of a header starting at `i`: the end of the maximal run
/// of non-`']'` characters after the `'['`.
pub open spec fn header_close(s: Seq<char>, hi: int, i: int) -> int {
    bracket_run_end(s, hi, i + 1)
}

/// Whether a bracketed header matches at position `i` within `[0, hi)`.
pub open spec fn header_match_at(s: Seq<char>, hi: int, i: int) -> bool {
    &&& 0 <= i < hi <= s.len()
    &&& s[i] == '['
    &&& header_close(s, hi, i) > i + 1
    &&& header_close(s, hi, i) < hi
    &&& s[header_close(s, hi, i)] == ']'
}

/// The name of a header matching at `i`: the text between the brackets with
/// any stray `'['` characters removed, as the decoder strips all brackets.
pub open spec fn header_name(s: Seq<char>, hi: int, i: int) -> Seq<char> {
    s.subrange(i + 1, header_close(s, hi, i)).filter(|c: char| c != '[')
}

/// Position of the first header match at or after `from`.
pub open spec fn find_header_from(s: Seq<char>, hi: int, from: int) -> Option<int>
    decreases hi - from,
{
    if !(0 <= from < hi) {
        None
    } else if header_match_at(s, hi, from) {
        Some(from)
    } else {
        find_header_from(s, hi, from + 1)
    }
}

/// A timed event line match, with the extents of its fields.
pub struct LineMatch {
    pub start: usize,
    pub ts_lo: usize,
    pub ts_hi: usize,
    pub code_lo: usize,
    pub code_hi: usize,
    pub has_content: bool,
    pub content_lo: usize,
    pub content_hi: usize,
    pub end: usize,
}

impl LineMatch {
    /// The exec match mirrors the specification's field extents.
    pub open spec fn matches_shape(self, s: Seq<char>, hi: int, i: int) -> bool {
        let sh = line_shape(s, hi, i);
        &&& self.start == i
        &&& self.ts_lo == sh.ts_lo
        &&& self.ts_hi == sh.ts_hi
        &&& self.code_lo == sh.code_lo
        &&& self.code_hi == sh.code_hi
        &&& self.has_content == sh.has_content
        &&& self.content_lo == sh.content_lo
        &&& self.content_hi == sh.content_hi
        &&& self.end == sh.end
        &&& i < self.end <= hi
    }
}

/// Tries to match a timed event line exactly at position `i`.
fn try_line_match(chars: &Vec<char>, hi: usize, i: usize) -> (r: Option<LineMatch>)
    requires
        i < hi <= chars@.len(),
    ensures
        match r {
            Some(m) => line_match_at(chars@, hi as int, i as int) && m.matches_shape(
                chars@,
                hi as int,
                i as int,
            ),
            None => !line_match_at(chars@, hi as int, i as int),
        },
{
    let ghost s = chars@;
    if hi - i < 2 {
        return None;
    }
    if chars[i] != ' ' || chars[i + 1] != ' ' {
        return None;
    }
    let ts_lo = i + 2;
    let ts_hi = scan_digit_run(chars, hi, ts_lo);
    if ts_hi == ts_lo {
        return None;
    }
    if hi - ts_hi < 3 {
        return None;
    }
    if chars[ts_hi] != ' ' || chars[ts_hi + 1] != '=' || chars[ts_hi + 2] != ' ' {
        return None;
    }
    let code_lo = ts_hi + 3;
    let code_hi = scan_word_run(chars, hi, code_lo);
    if code_hi == code_lo {
        return None;
    }
    if code_hi == hi {
        proof {
            assert(line_match_at(s, hi as int, i as int));
            lemma_line_shape_bounds(s, hi as int, i as int);
        }
        return Some(
            LineMatch {
                start: i,
                ts_lo,
                ts_hi,
                code_lo,
                code_hi,
                has_content: false,
                content_lo: code_hi,
                content_hi: code_hi,
                end: code_hi,
            },
        );
    }
    let c = chars[code_hi];
    if c == ' ' {
        let content_lo = code_hi + 1;
        let content_hi = scan_text_run(chars, hi, content_lo);
        proof {
            assert(line_match_at(s, hi as int, i as int));
            lemma_line_shape_bounds(s, hi as int, i as int);
        }
        Some(
            LineMatch {
                start: i,
                ts_lo,
                ts_hi,
                code_lo,
                code_hi,
                has_content: true,
                content_lo,
                content_hi,
                end: content_hi,
            },
        )
    } else if line_break_exec(c) {
        proof {
            assert(line_match_at(s, hi as int, i as int));
            lemma_line_shape_bounds(s, hi as int, i as int);
        }
        Some(
            LineMatch {
                start: i,
                ts_lo,
                ts_hi,
                code_lo,
                code_hi,
                has_content: false,
                content_lo: code_hi,
                content_hi: code_hi,
                end: code_hi,
            },
        )
    } else {
        None
    }
}

/// Finds the leftmost timed event line match at or after `from`.
pub fn next_line_match(chars: &Vec<char>, hi: usize, from: usize) -> (r: Option<LineMatch>)
    requires
        from <= hi <= chars@.len(),
    ensures
        match r {
            Some(m) => {
                &&& find_line_from(chars@, hi as int, from as int) == Some(m.start as int)
                &&& from <= m.start
                &&& m.matches_shape(chars@, hi as int, m.start as int)
                &&& line_match_at(chars@, hi as int, m.start as int)
            },
            None => find_line_from(chars@, hi as int, from as int) is None,
        },
{
    let mut i: usize = from;
    while i < hi
        invariant
            from <= i <= hi <= chars@.len(),
            find_line_from(chars@, hi as int, from as int) == find_line_from(
                chars@,
                hi as int,
                i as int,
            ),
        decreases hi - i,
    {
        match try_line_match(chars, hi, i) {
            Some(m) => {
                return Some(m);
            },
            None => {
                i = i + 1;
            },
        }
    }
    None
}

/// A property line match, with the extents of its fields.
pub struct PropMatch {
    pub start: usize,
    pub key_lo: usize,
    pub key_hi: usize,
    pub val_lo: usize,
    pub val_hi: usize,
    pub end: usize,
}

impl PropMatch {
    /// The exec match mirrors the specification's field extents.
    pub open spec fn matches_shape(self, s: Seq<char>, hi: int, i: int) -> bool {
        let sh = prop_shape(s, hi, i);
        &&& self.start == i
        &&& self.key_lo == sh.key_lo
        &&& self.key_hi == sh.key_hi
        &&& self.val_lo == sh.val_lo
        &&& self.val_hi == sh.val_hi
        &&& self.end == sh.end
        &&& i < self.end <= hi
    }
}

/// Tries to match a property line exactly at position `i`.
fn try_prop_match(chars: &Vec<char>, hi: usize, i: usize) -> (r: Option<PropMatch>)
    requires
        i < hi <= chars@.len(),
    ensures
        match r {
            Some(m) => prop_match_at(chars@, hi as int, i as int) && m.matches_shape(
                chars@,
                hi as int,
                i as int,
            ),
            None => !prop_match_at(chars@, hi as int, i as int),
        },
{
    let ghost s = chars@;
    if hi - i < 2 {
        return None;
    }
    if chars[i] != ' ' || chars[i + 1] != ' ' {
        return None;
    }
    let key_lo = i + 2;
    let key_hi = scan_key_run(chars, hi, key_lo);
    if key_hi == key_lo {
        return None;
    }
    if hi - key_hi < 3 {
        return None;
    }
    if chars[key_hi] != ' ' || chars[key_hi + 1] != '=' || chars[key_hi + 2] != ' ' {
        return None;
    }
    let val_lo = key_hi + 3;
    let val_hi = scan_text_run(chars, hi, val_lo);
    if val_hi == val_lo {
        return None;
    }
    proof {
        lemma_prop_shape_bounds(s, hi as int, i as int);
    }
    Some(PropMatch { start: i, key_lo, key_hi, val_lo, val_hi, end: val_hi })
}

/// Finds the leftmost property line match at or after `from`.
pub fn next_prop_match(chars: &Vec<char>, hi: usize, from: usize) -> (r: Option<PropMatch>)
    requires
        from <= hi <= chars@.len(),
    ensures
        match r {
            Some(m) => {
                &&& find_prop_from(chars@, hi as int, from as int) == Some(m.start as int)
                &&& from <= m.start
                &&& m.matches_shape(chars@, hi as int, m.start as int)
                &&& prop_match_at(chars@, hi as int, m.start as int)
            },
            None => find_prop_from(chars@, hi as int, from as int) is None,
        },
{
    let mut i: usize = from;
    while i < hi
        invariant
            from <= i <= hi <= chars@.len(),
            find_prop_from(chars@, hi as int, from as int) == find_prop_from(
                chars@,
                hi as int,
                i as int,
            ),
        decreases hi - i,
    {
        match try_prop_match(chars, hi, i) {
            Some(m) => {
                return Some(m);
            },
            None => {
                i = i + 1;
            },
        }
    }
    None
}

/// Finds the leftmost header match in `[from, hi)` and returns its name with
/// all bracket characters removed.
#[verifier::loop_isolation(false)]
pub fn find_header(chars: &Vec<char>, hi: usize, from: usize) -> (r: Option<Vec<char>>)
    requires
        from <= hi <= chars@.len(),
    ensures
        match r {
            Some(name) => {
                &&& find_header_from(chars@, hi as int, from as int) is Some
                &&& name@ == header_name(
                    chars@,
                    hi as int,
                    find_header_from(chars@, hi as int, from as int)->0,
                )
            },
            None => find_header_from(chars@, hi as int, from as int) is None,
        },
{
    let ghost s = chars@;
    let mut i: usize = from;
    while i < hi
        invariant
            from <= i <= hi <= chars@.len(),
            find_header_from(chars@, hi as int, from as int) == find_header_from(
                chars@,
                hi as int,
                i as int,
            ),
        decreases hi - i,
    {
        if chars[i] == '[' {
            let close = scan_bracket_run(chars, hi, i + 1);
            if close > i + 1 && close < hi {
                // the bracket run ends either at `hi` or at a `']'`
                assert(s[close as int] == ']') by {
                    crate::scan::lemma_run_end_chars(s, hi as int, i + 1, |c: char| c != ']');
                }
                assert(header_match_at(s, hi as int, i as int));
                let mut name: Vec<char> = Vec::new();
                let mut j: usize = i + 1;
                while j < close
                    invariant
                        i + 1 <= j <= close <= hi <= chars@.len(),
                        name@ == chars@.subrange(i + 1, j as int).filter(|c: char| c != '['),
                    decreases close - j,
                {
                    let ghost pre = s.subrange(i + 1, j as int);
                    let c = chars[j];
                    if c != '[' {
                        name.push(c);
                    }
                    proof {
                        let cur = s.subrange(i + 1, j + 1);
                        assert(cur.drop_last() =~= pre);
                        assert(cur.last() == c);
                        reveal(Seq::filter);
                    }
                    j = j + 1;
                }
                proof {
                    assert(s.subrange(i + 1, close as int) =~= s.subrange(
                        i + 1,
                        header_close(s, hi as int, i as int),
                    ));
                }
                return Some(name);
            }
        }
        i = i + 1;
    }
    None
}

} // verus!
