//! Character-level scanning primitives shared by the chart decoder.
//!
//! The decoder works on a `Vec<char>` copy of the input text. This module
//! defines the character classes of the chart grammar, maximal-run scanning,
//! decimal number parsing and whitespace trimming, each as an executable
//! function proved against a specification over `Seq<char>`.

use vstd::prelude::*;
use vstd::std_specs::iter::IteratorSpec;

verus! {

/// An ASCII decimal digit, `'0'` through `'9'`.
pub open spec fn is_ascii_digit(c: char) -> bool {
    48 <= c as u32 <= 57
}

/// A word character of the grammar: ASCII letter, digit or underscore.
pub open spec fn is_word_char(c: char) -> bool {
    ||| is_ascii_digit(c)
    ||| 65 <= c as u32 <= 90
    ||| 97 <= c as u32 <= 122
    ||| c == '_'
}

/// A line break character; free-text fields run up to the next one.
pub open spec fn is_line_break(c: char) -> bool {
    c == '\n' || c == '\r'
}

/// Horizontal whitespace stripped from numeric fields before parsing.
pub open spec fn is_blank(c: char) -> bool {
    c == ' ' || c == '\t'
}

/// Numeric value of a decimal digit character.
pub open spec fn digit_val(c: char) -> nat {
    (c as u32 - 48) as nat
}

/// Value of a sequence of decimal digit characters, most significant first.
pub open spec fn digits_val(s: Seq<char>) -> nat
    decreases s.len(),
{
    if s.len() == 0 {
        0
    } else {
        digits_val(s.drop_last()) * 10 + digit_val(s.last())
    }
}

/// Whether every character of `s` is a decimal digit.
pub open spec fn all_digits(s: Seq<char>) -> bool {
    forall|i: int| 0 <= i < s.len() ==> is_ascii_digit(#[trigger] s[i])
}

/// The value a field parses to as a `u64`: defined when the field is a
/// non-empty run of digits whose value fits.
pub open spec fn parse_u64_spec(s: Seq<char>) -> Option<u64> {
    if s.len() > 0 && all_digits(s) && digits_val(s) <= u64::MAX {
        Some(digits_val(s) as u64)
    } else {
        None
    }
}

/// The value a field parses to as a `u32`.
pub open spec fn parse_u32_spec(s: Seq<char>) -> Option<u32> {
    if s.len() > 0 && all_digits(s) && digits_val(s) <= u32::MAX {
        Some(digits_val(s) as u32)
    } else {
        None
    }
}

/// A digit prefix never has a larger value than the whole run.
proof fn lemma_digits_val_take_le(s: Seq<char>, i: int)
    requires
        0 <= i <= s.len(),
    ensures
        digits_val(s.take(i)) <= digits_val(s),
    decreases s.len() - i,
{
    if i < s.len() {
        lemma_digits_val_take_le(s, i + 1);
        assert(s.take(i + 1).drop_last() =~= s.take(i));
        assert(digits_val(s.take(i + 1)) == digits_val(s.take(i)) * 10 + digit_val(
            s.take(i + 1).last(),
        ));
    } else {
        assert(s.take(i) =~= s);
    }
}

/// Parses the characters of `chars` in `[lo, hi)` as an unsigned decimal
/// number, returning `None` on a non-digit, an empty range, or overflow.
pub fn parse_u64_range(chars: &Vec<char>, lo: usize, hi: usize) -> (r: Option<u64>)
    requires
        lo <= hi <= chars@.len(),
    ensures
        r == parse_u64_spec(chars@.subrange(lo as int, hi as int)),
{
    let ghost s = chars@.subrange(lo as int, hi as int);
    if lo == hi {
        return None;
    }
    let mut acc: u64 = 0;
    let mut i: usize = lo;
    while i < hi
        invariant
            lo <= i <= hi <= chars@.len(),
            s == chars@.subrange(lo as int, hi as int),
            all_digits(s.take(i - lo)),
            acc == digits_val(s.take(i - lo)),
        decreases hi - i,
    {
        let c = chars[i];
        let cu = c as u32;
        if !(48 <= cu && cu <= 57) {
            assert(s[i - lo] == c);
            return None;
        }
        let d: u64 = (cu - 48) as u64;
        if acc > (u64::MAX - d) / 10 {
            proof {
                assert(s.take(i - lo + 1).drop_last() =~= s.take(i - lo));
                assert(s.take(i - lo + 1).last() == c);
                assert(digits_val(s.take(i - lo + 1)) == acc * 10 + d);
                assert(acc * 10 + d > u64::MAX) by (nonlinear_arith)
                    requires
                        acc > (u64::MAX - d) / 10,
                        d <= 9,
                ;
                lemma_digits_val_take_le(s, i - lo + 1);
            }
            return None;
        }
        proof {
            assert(s.take(i - lo + 1).drop_last() =~= s.take(i - lo));
            assert(s.take(i - lo + 1).last() == c);
            assert(acc * 10 + d <= u64::MAX) by (nonlinear_arith)
                requires
                    acc <= (u64::MAX - d) / 10,
                    d <= 9,
            ;
        }
        acc = acc * 10 + d;
        i = i + 1;
    }
    proof {
        assert(s.take(hi - lo) =~= s);
    }
    Some(acc)
}

/// Parses the characters of `chars` in `[lo, hi)` as a `u32`.
pub fn parse_u32_range(chars: &Vec<char>, lo: usize, hi: usize) -> (r: Option<u32>)
    requires
        lo <= hi <= chars@.len(),
    ensures
        r == parse_u32_spec(chars@.subrange(lo as int, hi as int)),
{
    match parse_u64_range(chars, lo, hi) {
        None => None,
        Some(v) => {
            if v <= u32::MAX as u64 {
                Some(v as u32)
            } else {
                None
            }
        },
    }
}

/// `s` with leading blanks removed.
pub open spec fn trim_front(s: Seq<char>) -> Seq<char>
    decreases s.len(),
{
    if s.len() > 0 && is_blank(s[0]) {
        trim_front(s.drop_first())
    } else {
        s
    }
}

/// `s` with trailing blanks removed.
pub open spec fn trim_back(s: Seq<char>) -> Seq<char>
    decreases s.len(),
{
    if s.len() > 0 && is_blank(s.last()) {
        trim_back(s.drop_last())
    } else {
        s
    }
}

/// `s` with leading and trailing blanks removed.
pub open spec fn trimmed(s: Seq<char>) -> Seq<char> {
    trim_back(trim_front(s))
}

proof fn lemma_trim_front_skip(s: Seq<char>, k: int)
    requires
        0 <= k <= s.len(),
        forall|i: int| 0 <= i < k ==> is_blank(#[trigger] s[i]),
        k == s.len() || !is_blank(s[k]),
    ensures
        trim_front(s) == s.skip(k),
    decreases k,
{
    if k == 0 {
        assert(s.skip(0) =~= s);
    } else {
        lemma_trim_front_skip(s.drop_first(), k - 1);
        assert(s.drop_first().skip(k - 1) =~= s.skip(k));
    }
}

proof fn lemma_trim_back_take(s: Seq<char>, k: int)
    requires
        0 <= k <= s.len(),
        forall|i: int| k <= i < s.len() ==> is_blank(#[trigger] s[i]),
        k == 0 || !is_blank(s[k - 1]),
    ensures
        trim_back(s) == s.take(k),
    decreases s.len() - k,
{
    if k == s.len() {
        assert(s.take(k) =~= s);
    } else {
        assert(s.drop_last() =~= s.take(s.len() - 1));
        lemma_trim_back_take(s.take(s.len() - 1), k);
        assert(s.take(s.len() - 1).take(k) =~= s.take(k));
    }
}

/// Narrows `[lo, hi)` to the blank-trimmed subrange of `chars`.
pub fn trim_range(chars: &Vec<char>, lo: usize, hi: usize) -> (r: (usize, usize))
    requires
        lo <= hi <= chars@.len(),
    ensures
        lo <= r.0 <= r.1 <= hi,
        chars@.subrange(r.0 as int, r.1 as int) == trimmed(
            chars@.subrange(lo as int, hi as int),
        ),
{
    let ghost s = chars@.subrange(lo as int, hi as int);
    let mut a: usize = lo;
    while a < hi && (chars[a] == ' ' || chars[a] == '\t')
        invariant
            lo <= a <= hi <= chars@.len(),
            forall|i: int| lo <= i < a ==> is_blank(#[trigger] chars@[i]),
        decreases hi - a,
    {
        a = a + 1;
    }
    let mut b: usize = hi;
    while b > a && (chars[b - 1] == ' ' || chars[b - 1] == '\t')
        invariant
            a <= b <= hi <= chars@.len(),
            forall|i: int| b <= i < hi ==> is_blank(#[trigger] chars@[i]),
        decreases b - a,
    {
        b = b - 1;
    }
    proof {
        lemma_trim_front_skip(s, a - lo);
        let t = s.skip(a - lo);
        lemma_trim_back_take(t, b - a);
        assert(t.take(b - a) =~= chars@.subrange(a as int, b as int));
    }
    (a, b)
}

/// End of the maximal run of characters satisfying `cls`, starting at `from`
/// and bounded by `hi`: the first position at or after `from` that is `hi` or
/// holds a character outside the class.
pub open spec fn run_end(s: Seq<char>, hi: int, from: int, cls: spec_fn(char) -> bool) -> int
    decreases hi - from,
{
    if from < hi && 0 <= from < s.len() && cls(s[from]) {
        run_end(s, hi, from + 1, cls)
    } else {
        from
    }
}

pub proof fn lemma_run_end_bounds(s: Seq<char>, hi: int, from: int, cls: spec_fn(char) -> bool)
    requires
        from <= hi,
    ensures
        from <= run_end(s, hi, from, cls) <= hi,
    decreases hi - from,
{
    if from < hi && 0 <= from < s.len() && cls(s[from]) {
        lemma_run_end_bounds(s, hi, from + 1, cls);
    }
}

/// Every character inside the run satisfies the class, and the character at
/// the run's end (if any) does not.
pub proof fn lemma_run_end_chars(s: Seq<char>, hi: int, from: int, cls: spec_fn(char) -> bool)
    requires
        0 <= from <= hi <= s.len(),
    ensures
        forall|i: int| from <= i < run_end(s, hi, from, cls) ==> cls(#[trigger] s[i]),
        run_end(s, hi, from, cls) < hi ==> !cls(s[run_end(s, hi, from, cls)]),
    decreases hi - from,
{
    if from < hi && cls(s[from]) {
        lemma_run_end_chars(s, hi, from + 1, cls);
    }
}

/// Run of decimal digits.
pub open spec fn digit_run_end(s: Seq<char>, hi: int, from: int) -> int {
    run_end(s, hi, from, |c: char| is_ascii_digit(c))
}

/// Run of word characters.
pub open spec fn word_run_end(s: Seq<char>, hi: int, from: int) -> int {
    run_end(s, hi, from, |c: char| is_word_char(c))
}

/// Run of free-text characters: anything but a line break.
pub open spec fn text_run_end(s: Seq<char>, hi: int, from: int) -> int {
    run_end(s, hi, from, |c: char| !is_line_break(c))
}

/// Run of property-key characters: anything but a space or `'='`.
pub open spec fn key_run_end(s: Seq<char>, hi: int, from: int) -> int {
    run_end(s, hi, from, |c: char| c != ' ' && c != '=')
}

/// Run of section-header body characters: anything but `']'`.
pub open spec fn bracket_run_end(s: Seq<char>, hi: int, from: int) -> int {
    run_end(s, hi, from, |c: char| c != ']')
}

/// Run of section-body characters: anything but the `'}'` delimiter.
pub open spec fn brace_run_end(s: Seq<char>, hi: int, from: int) -> int {
    run_end(s, hi, from, |c: char| c != '}')
}

/// Run of non-space characters, used to split fields inside free text.
pub open spec fn nonspace_run_end(s: Seq<char>, hi: int, from: int) -> int {
    run_end(s, hi, from, |c: char| c != ' ')
}

/// Whether `c` is a decimal digit.
pub fn digit_exec(c: char) -> (b: bool)
    ensures
        b == is_ascii_digit(c),
{
    let u = c as u32;
    48 <= u && u <= 57
}

/// Whether `c` is a word character.
pub fn word_char_exec(c: char) -> (b: bool)
    ensures
        b == is_word_char(c),
{
    let u = c as u32;
    (48 <= u && u <= 57) || (65 <= u && u <= 90) || (97 <= u && u <= 122) || c == '_'
}

/// Whether `c` is a line break.
pub fn line_break_exec(c: char) -> (b: bool)
    ensures
        b == is_line_break(c),
{
    c == '\n' || c == '\r'
}

/// Scans the maximal digit run starting at `from`.
pub fn scan_digit_run(chars: &Vec<char>, hi: usize, from: usize) -> (r: usize)
    requires
        from <= hi <= chars@.len(),
    ensures
        r == digit_run_end(chars@, hi as int, from as int),
        from <= r <= hi,
{
    let mut i: usize = from;
    while i < hi && digit_exec(chars[i])
        invariant
            from <= i <= hi <= chars@.len(),
            digit_run_end(chars@, hi as int, from as int) == digit_run_end(
                chars@,
                hi as int,
                i as int,
            ),
        decreases hi - i,
    {
        i = i + 1;
    }
    i
}

/// Scans the maximal word-character run starting at `from`.
pub fn scan_word_run(chars: &Vec<char>, hi: usize, from: usize) -> (r: usize)
    requires
        from <= hi <= chars@.len(),
    ensures
        r == word_run_end(chars@, hi as int, from as int),
        from <= r <= hi,
{
    let mut i: usize = from;
    while i < hi && word_char_exec(chars[i])
        invariant
            from <= i <= hi <= chars@.len(),
            word_run_end(chars@, hi as int, from as int) == word_run_end(
                chars@,
                hi as int,
                i as int,
            ),
        decreases hi - i,
    {
        i = i + 1;
    }
    i
}

/// Scans the maximal free-text run starting at `from`.
pub fn scan_text_run(chars: &Vec<char>, hi: usize, from: usize) -> (r: usize)
    requires
        from <= hi <= chars@.len(),
    ensures
        r == text_run_end(chars@, hi as int, from as int),
        from <= r <= hi,
{
    let mut i: usize = from;
    while i < hi && !line_break_exec(chars[i])
        invariant
            from <= i <= hi <= chars@.len(),
            text_run_end(chars@, hi as int, from as int) == text_run_end(
                chars@,
                hi as int,
                i as int,
            ),
        decreases hi - i,
    {
        i = i + 1;
    }
    i
}

/// Scans the maximal property-key run starting at `from`.
pub fn scan_key_run(chars: &Vec<char>, hi: usize, from: usize) -> (r: usize)
    requires
        from <= hi <= chars@.len(),
    ensures
        r == key_run_end(chars@, hi as int, from as int),
        from <= r <= hi,
{
    let mut i: usize = from;
    while i < hi && chars[i] != ' ' && chars[i] != '='
        invariant
            from <= i <= hi <= chars@.len(),
            key_run_end(chars@, hi as int, from as int) == key_run_end(chars@, hi as int, i as int),
        decreases hi - i,
    {
        i = i + 1;
    }
    i
}

/// Scans the maximal header-body run starting at `from`.
pub fn scan_bracket_run(chars: &Vec<char>, hi: usize, from: usize) -> (r: usize)
    requires
        from <= hi <= chars@.len(),
    ensures
        r == bracket_run_end(chars@, hi as int, from as int),
        from <= r <= hi,
{
    let mut i: usize = from;
    while i < hi && chars[i] != ']'
        invariant
            from <= i <= hi <= chars@.len(),
            bracket_run_end(chars@, hi as int, from as int) == bracket_run_end(
                chars@,
                hi as int,
                i as int,
            ),
        decreases hi - i,
    {
        i = i + 1;
    }
    i
}

/// Scans up to the next `'}'` delimiter starting at `from`.
pub fn scan_brace_run(chars: &Vec<char>, hi: usize, from: usize) -> (r: usize)
    requires
        from <= hi <= chars@.len(),
    ensures
        r == brace_run_end(chars@, hi as int, from as int),
        from <= r <= hi,
{
    let mut i: usize = from;
    while i < hi && chars[i] != '}'
        invariant
            from <= i <= hi <= chars@.len(),
            brace_run_end(chars@, hi as int, from as int) == brace_run_end(
                chars@,
                hi as int,
                i as int,
            ),
        decreases hi - i,
    {
        i = i + 1;
    }
    i
}

/// Scans up to the next space starting at `from`.
pub fn scan_nonspace_run(chars: &Vec<char>, hi: usize, from: usize) -> (r: usize)
    requires
        from <= hi <= chars@.len(),
    ensures
        r == nonspace_run_end(chars@, hi as int, from as int),
        from <= r <= hi,
{
    let mut i: usize = from;
    while i < hi && chars[i] != ' '
        invariant
            from <= i <= hi <= chars@.len(),
            nonspace_run_end(chars@, hi as int, from as int) == nonspace_run_end(
                chars@,
                hi as int,
                i as int,
            ),
        decreases hi - i,
    {
        i = i + 1;
    }
    i
}

/// Collects the characters of a `&str` into a vector, in order.
pub fn str_to_char_vec(text: &str) -> (v: Vec<char>)
    ensures
        v@ == text@,
{
    broadcast use vstd::string::group_string_axioms;

    let mut it = text.chars();
    let mut v: Vec<char> = Vec::new();
    loop
        invariant
            it.obeys_prophetic_iter_laws(),
            it.remaining() =~= text@.skip(v@.len() as int),
            v@.len() <= text@.len(),
            v@ =~= text@.take(v@.len() as int),
        decreases text@.len() - v@.len(),
    {
        match it.next() {
            Some(c) => {
                proof {
                    assert(text@.skip(v@.len() as int)[0] == text@[v@.len() as int]);
                    assert(text@.skip(v@.len() as int).drop_first() =~= text@.skip(
                        v@.len() as int + 1,
                    ));
                }
                v.push(c);
            },
            None => {
                proof {
                    assert(text@.skip(v@.len() as int).len() == 0);
                    assert(v@ =~= text@);
                }
                return v;
            },
        }
    }
}

/// Relies on `String: FromIterator<&char>` from std: collecting the
/// characters of a vector yields the string with exactly those characters.
#[verifier::external_body]
pub fn chars_to_string(v: &Vec<char>) -> (s: String)
    ensures
        s@ == v@,
{
    v.iter().collect()
}

/// Copies the characters of `chars` in `[lo, hi)` into a `String`.
pub fn range_to_string(chars: &Vec<char>, lo: usize, hi: usize) -> (s: String)
    requires
        lo <= hi <= chars@.len(),
    ensures
        s@ == chars@.subrange(lo as int, hi as int),
{
    let mut v: Vec<char> = Vec::new();
    let mut i: usize = lo;
    while i < hi
        invariant
            lo <= i <= hi <= chars@.len(),
            v@ =~= chars@.subrange(lo as int, i as int),
        decreases hi - i,
    {
        v.push(chars[i]);
        proof {
            assert(v@ =~= chars@.subrange(lo as int, i + 1));
        }
        i = i + 1;
    }
    chars_to_string(&v)
}

/// Compares the characters of `chars` in `[lo, hi)` with `pat`.
pub fn range_eq(chars: &Vec<char>, lo: usize, hi: usize, pat: &Vec<char>) -> (r: bool)
    requires
        lo <= hi <= chars@.len(),
    ensures
        r == (chars@.subrange(lo as int, hi as int) == pat@),
{
    if hi - lo != pat.len() {
        proof {
            assert(chars@.subrange(lo as int, hi as int).len() == hi - lo);
        }
        return false;
    }
    let mut i: usize = 0;
    while i < pat.len()
        invariant
            lo <= hi <= chars@.len(),
            hi - lo == pat@.len(),
            i <= pat@.len(),
            forall|j: int| 0 <= j < i ==> chars@[lo + j] == #[trigger] pat@[j],
        decreases pat@.len() - i,
    {
        if chars[lo + i] != pat[i] {
            proof {
                assert(chars@.subrange(lo as int, hi as int)[i as int] == chars@[lo + i]);
            }
            return false;
        }
        i = i + 1;
    }
    proof {
        assert(chars@.subrange(lo as int, hi as int) =~= pat@);
    }
    true
}

/// Compares two string slices character by character.
pub fn str_eq(a: &str, b: &str) -> (r: bool)
    ensures
        r == (a@ == b@),
{
    let va = str_to_char_vec(a);
    let vb = str_to_char_vec(b);
    if va.len() != vb.len() {
        return false;
    }
    let mut i: usize = 0;
    while i < va.len()
        invariant
            va@ == a@,
            vb@ == b@,
            va@.len() == vb@.len(),
            i <= va@.len(),
            forall|j: int| 0 <= j < i ==> va@[j] == vb@[j],
        decreases va@.len() - i,
    {
        if va[i] != vb[i] {
            return false;
        }
        i = i + 1;
    }
    proof {
        assert(a@ =~= b@);
    }
    true
}

} // verus!
