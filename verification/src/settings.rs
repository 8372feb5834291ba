//! The persisted settings: a sound flag and the high-score table, stored as
//! one line holding `true` or `false` followed by one decimal score per line.
//! Reading tolerates a malformed store by falling back to built-in defaults;
//! the byte-level format is specified exactly here, while the actual file
//! access stays outside the library.

use vstd::prelude::*;
use crate::highscores::HIGHSCORE_COUNT;

verus! {

/// Line feed, carriage return, the `+` sign and the digit zero, as bytes.
pub const BYTE_LF: u8 = 10;
pub const BYTE_CR: u8 = 13;
pub const BYTE_PLUS: u8 = 43;
pub const BYTE_ZERO: u8 = 48;

/// The settings a store holds.
pub struct Settings {
    pub sound_enabled: bool,
    pub high_scores: Vec<u32>,
}

/// Whether sound is on; a plain flag the menu owns.
pub struct SoundEnabled(pub bool);

impl Settings {
    pub open spec fn wf(&self) -> bool {
        self.high_scores@.len() == HIGHSCORE_COUNT
    }
}

impl Default for Settings {
    /// Sound on, and the built-in descending default table.
    fn default() -> (s: Settings)
        ensures
            s.wf(),
            s.sound_enabled,
            s.high_scores@ =~= seq![100u32, 80u32, 50u32, 30u32, 10u32],
    {
        let mut high_scores: Vec<u32> = Vec::new();
        high_scores.push(100);
        high_scores.push(80);
        high_scores.push(50);
        high_scores.push(30);
        high_scores.push(10);
        Settings { sound_enabled: true, high_scores }
    }
}

/// Index of the first line feed in `s`, or `s.len()` if there is none.
pub open spec fn first_newline(s: Seq<u8>) -> int
    decreases s.len(),
{
    if s.len() == 0 {
        0
    } else if s[0] == BYTE_LF {
        0
    } else {
        1 + first_newline(s.skip(1))
    }
}

pub proof fn lemma_first_newline(s: Seq<u8>)
    ensures
        0 <= first_newline(s) <= s.len(),
        first_newline(s) < s.len() ==> s[first_newline(s)] == BYTE_LF,
        forall|j: int| 0 <= j < first_newline(s) ==> s[j] != BYTE_LF,
    decreases s.len(),
{
    if s.len() == 0 {
    } else if s[0] == BYTE_LF {
    } else {
        lemma_first_newline(s.skip(1));
        let k = first_newline(s);
        assert forall|j: int| 0 <= j < k implies s[j] != BYTE_LF by {
            if j > 0 {
                assert(s.skip(1)[j - 1] == s[j]);
            }
        }
        if k < s.len() {
            assert(s.skip(1)[k - 1] == s[k]);
        }
    }
}

/// A carriage return just before the line break is dropped.
pub open spec fn strip_cr(line: Seq<u8>) -> Seq<u8> {
    if line.len() > 0 && line[line.len() - 1] == BYTE_CR {
        line.drop_last()
    } else {
        line
    }
}

/// The lines of `s` from `start` on, split at line feeds: a line break at the
/// very end opens no further line, and a carriage return before a line feed
/// is dropped.
pub open spec fn lines_from(s: Seq<u8>, start: int) -> Seq<Seq<u8>>
    decreases s.len() - start,
    via lines_from_decreases
{
    if start < 0 || start >= s.len() {
        Seq::empty()
    } else {
        let i = start + first_newline(s.skip(start));
        if i >= s.len() {
            seq![s.skip(start)]
        } else {
            seq![strip_cr(s.subrange(start, i))] + lines_from(s, i + 1)
        }
    }
}

#[via_fn]
proof fn lines_from_decreases(s: Seq<u8>, start: int) {
    if 0 <= start < s.len() {
        lemma_first_newline(s.skip(start));
    }
}

/// All the lines of `s`.
pub open spec fn lines_of(s: Seq<u8>) -> Seq<Seq<u8>> {
    lines_from(s, 0)
}

pub open spec fn is_digit(b: u8) -> bool {
    BYTE_ZERO <= b <= 57
}

pub open spec fn all_digits(s: Seq<u8>) -> bool {
    forall|i: int| 0 <= i < s.len() ==> is_digit(s[i])
}

/// The number the digit bytes of `s` spell, most significant first.
pub open spec fn digits_val(s: Seq<u8>) -> int
    decreases s.len(),
{
    if s.len() == 0 {
        0
    } else {
        digits_val(s.drop_last()) * 10 + (s[s.len() - 1] - BYTE_ZERO)
    }
}

/// The digit part of a decimal literal: everything after one optional `+`.
pub open spec fn digit_part(s: Seq<u8>) -> Seq<u8> {
    if s.len() > 0 && s[0] == BYTE_PLUS {
        s.skip(1)
    } else {
        s
    }
}

/// What parsing `s` as a `u32` yields: an optional `+`, then at least one
/// digit and nothing else, spelling a value that fits.
pub open spec fn parse_u32_of(s: Seq<u8>) -> Option<u32> {
    let d = digit_part(s);
    if d.len() > 0 && all_digits(d) && digits_val(d) <= u32::MAX {
        Some(digits_val(d) as u32)
    } else {
        None
    }
}

/// The bytes of `true` or `false`.
pub open spec fn bool_bytes(b: bool) -> Seq<u8> {
    if b {
        seq![116u8, 114u8, 117u8, 101u8]
    } else {
        seq![102u8, 97u8, 108u8, 115u8, 101u8]
    }
}

/// What a stored settings file means, if anything: its first line must read
/// `true` or `false`; of the five lines after it, each that parses as a `u32`
/// is a table entry and each that does not leaves zero in its slot, but the
/// last of the five must parse; every later line must be empty.
pub open spec fn settings_of(bytes: Seq<u8>) -> Option<(bool, Seq<u32>)> {
    let ls = lines_of(bytes);
    if ls.len() >= 1 + HIGHSCORE_COUNT && (ls[0] == bool_bytes(true) || ls[0] == bool_bytes(false))
        && parse_u32_of(ls[HIGHSCORE_COUNT as int]) is Some
        && (forall|j: int| 1 + HIGHSCORE_COUNT <= j < ls.len() ==> ls[j].len() == 0) {
        Some(
            (
                ls[0] == bool_bytes(true),
                Seq::new(
                    HIGHSCORE_COUNT as nat,
                    |i: int|
                        match parse_u32_of(ls[i + 1]) {
                            Some(v) => v,
                            None => 0u32,
                        },
                ),
            ),
        )
    } else {
        None
    }
}

/// Digit bytes spell a nonnegative number.
pub proof fn lemma_digits_val_nonneg(s: Seq<u8>)
    requires
        all_digits(s),
    ensures
        digits_val(s) >= 0,
    decreases s.len(),
{
    if s.len() > 0 {
        assert(all_digits(s.drop_last()));
        lemma_digits_val_nonneg(s.drop_last());
    }
}

/// Dropping trailing digits never increases the spelled value.
pub proof fn lemma_digits_val_prefix(s: Seq<u8>, k: int)
    requires
        0 <= k <= s.len(),
        all_digits(s),
    ensures
        digits_val(s) >= digits_val(s.take(k)),
    decreases s.len() - k,
{
    if k == s.len() {
        assert(s.take(k) =~= s);
    } else {
        assert(all_digits(s.take(k)));
        lemma_digits_val_nonneg(s.take(k));
        assert(s.take(k + 1).drop_last() =~= s.take(k));
        assert(digits_val(s.take(k + 1)) == digits_val(s.take(k)) * 10 + (s[k] - BYTE_ZERO));
        lemma_digits_val_prefix(s, k + 1);
    }
}

/// Splits bytes into lines exactly as `lines_of` describes.
pub fn split_lines(contents: &Vec<u8>) -> (out: Vec<Vec<u8>>)
    ensures
        out@.map_values(|l: Vec<u8>| l@) == lines_of(contents@),
{
    let ghost sq = contents@;
    let mut out: Vec<Vec<u8>> = Vec::new();
    let mut line_start: usize = 0;
    let mut i: usize = 0;
    while i < contents.len()
        invariant
            sq == contents@,
            0 <= line_start <= i <= sq.len(),
            forall|j: int| line_start <= j < i ==> sq[j] != BYTE_LF,
            lines_of(sq) == out@.map_values(|l: Vec<u8>| l@) + lines_from(sq, line_start as int),
        decreases sq.len() - i,
    {
        if contents[i] == BYTE_LF {
            let mut line: Vec<u8> = Vec::new();
            let mut j: usize = line_start;
            while j < i
                invariant
                    sq == contents@,
                    line_start <= j <= i <= sq.len(),
                    line@ == sq.subrange(line_start as int, j as int),
                decreases i - j,
            {
                let b = contents[j];
                line.push(b);
                proof {
                    assert(line@ =~= sq.subrange(line_start as int, j + 1));
                }
                j = j + 1;
            }
            if line.len() > 0 && line[line.len() - 1] == BYTE_CR {
                line.pop();
                proof {
                    assert(line@ =~= strip_cr(sq.subrange(line_start as int, i as int)));
                }
            }
            proof {
                let t = sq.skip(line_start as int);
                lemma_first_newline(t);
                assert(t[i - line_start] == sq[i as int]);
                assert forall|j: int| 0 <= j < i - line_start implies t[j] != BYTE_LF by {
                    assert(t[j] == sq[line_start + j]);
                }
                assert(first_newline(t) == i - line_start) by {
                    if first_newline(t) < i - line_start {
                        assert(t[first_newline(t)] == BYTE_LF);
                    }
                }
                assert(lines_from(sq, line_start as int) == seq![
                    strip_cr(sq.subrange(line_start as int, i as int)),
                ] + lines_from(sq, i + 1));
            }
            let ghost out_pre = out@;
            out.push(line);
            proof {
                assert(out@.map_values(|l: Vec<u8>| l@) =~= out_pre.map_values(|l: Vec<u8>| l@)
                    .push(line@));
            }
            line_start = i + 1;
        }
        i = i + 1;
    }
    if line_start < contents.len() {
        let mut line: Vec<u8> = Vec::new();
        let mut j: usize = line_start;
        while j < contents.len()
            invariant
                sq == contents@,
                line_start <= j <= sq.len(),
                line@ == sq.subrange(line_start as int, j as int),
            decreases sq.len() - j,
        {
            let b = contents[j];
            line.push(b);
            proof {
                assert(line@ =~= sq.subrange(line_start as int, j + 1));
            }
            j = j + 1;
        }
        proof {
            let t = sq.skip(line_start as int);
            lemma_first_newline(t);
            assert(first_newline(t) == t.len()) by {
                if first_newline(t) < t.len() {
                    assert(t[first_newline(t)] == BYTE_LF);
                    assert(sq[line_start + first_newline(t)] == BYTE_LF);
                }
            }
            assert(line@ =~= t);
            assert(lines_from(sq, line_start as int) == seq![t]);
        }
        let ghost out_pre = out@;
        out.push(line);
        proof {
            assert(out@.map_values(|l: Vec<u8>| l@) =~= out_pre.map_values(|l: Vec<u8>| l@).push(
                line@,
            ));
        }
    }
    out
}

/// Parses a decimal `u32` with the standard library's semantics: one
/// optional `+`, then at least one digit and nothing else, with the value in
/// range.
pub fn parse_u32(line: &Vec<u8>) -> (r: Option<u32>)
    ensures
        r == parse_u32_of(line@),
{
    let ghost d = digit_part(line@);
    let start: usize = if line.len() > 0 && line[0] == BYTE_PLUS {
        1
    } else {
        0
    };
    proof {
        assert(d =~= line@.skip(start as int));
    }
    if line.len() == start {
        return None;
    }
    let mut val: u64 = 0;
    let mut i: usize = start;
    while i < line.len()
        invariant
            d == digit_part(line@),
            d =~= line@.skip(start as int),
            start <= i <= line@.len(),
            start <= line@.len(),
            all_digits(d.take(i - start)),
            val == digits_val(d.take(i - start)),
            val <= u32::MAX,
        decreases line@.len() - i,
    {
        let b = line[i];
        if b < BYTE_ZERO || b > 57 {
            proof {
                assert(d[i - start] == line@[i as int]);
                assert(!all_digits(d));
            }
            return None;
        }
        let digit: u64 = (b - BYTE_ZERO) as u64;
        let next: u64 = val * 10 + digit;
        proof {
            assert(d.take(i - start + 1).drop_last() =~= d.take(i - start));
            assert(d.take(i - start + 1)[i - start] == line@[i as int]);
            assert(digits_val(d.take(i - start + 1)) == digits_val(d.take(i - start)) * 10 + (
            line@[i as int] - BYTE_ZERO));
            assert(all_digits(d.take(i - start + 1)));
        }
        if next > 0xFFFF_FFFF {
            proof {
                if all_digits(d) {
                    lemma_digits_val_prefix(d, i - start + 1);
                }
            }
            return None;
        }
        val = next;
        i = i + 1;
    }
    proof {
        assert(d.take(line@.len() - start) =~= d);
    }
    Some(val as u32)
}

fn is_bool_line(v: &Vec<u8>, which: bool) -> (r: bool)
    ensures
        r == (v@ == bool_bytes(which)),
{
    let r = if which {
        v.len() == 4 && *v.get(0).unwrap() == 116 && *v.get(1).unwrap() == 114 && *v.get(2).unwrap()
            == 117 && *v.get(3).unwrap() == 101
    } else {
        v.len() == 5 && *v.get(0).unwrap() == 102 && *v.get(1).unwrap() == 97 && *v.get(2).unwrap()
            == 108 && *v.get(3).unwrap() == 115 && *v.get(4).unwrap() == 101
    };
    proof {
        if r {
            assert(v@ =~= bool_bytes(which));
        }
    }
    r
}

/// Parses a stored settings file; `None` exactly when `settings_of` gives
/// the bytes no meaning.
pub fn parse_settings(contents: &Vec<u8>) -> (r: Option<Settings>)
    ensures
        (r is Some) == (settings_of(contents@) is Some),
        ({
            match (r, settings_of(contents@)) {
                (Some(s), Some(m)) => s.wf() && s.sound_enabled == m.0 && s.high_scores@ == m.1,
                (None, None) => true,
                _ => false,
            }
        }),
{
    let lines = split_lines(contents);
    let ghost ls = lines_of(contents@);
    if lines.len() < 1 + HIGHSCORE_COUNT {
        return None;
    }
    let is_true = is_bool_line(&lines[0], true);
    let is_false = is_bool_line(&lines[0], false);
    if !is_true && !is_false {
        return None;
    }
    let mut high_scores: Vec<u32> = Vec::new();
    let mut k: usize = 0;
    while k < HIGHSCORE_COUNT
        invariant
            ls == lines_of(contents@),
            lines@.map_values(|l: Vec<u8>| l@) == ls,
            1 + HIGHSCORE_COUNT <= lines@.len(),
            0 <= k <= HIGHSCORE_COUNT,
            high_scores@.len() == k,
            forall|i: int|
                0 <= i < k ==> high_scores@[i] == (match parse_u32_of(ls[i + 1]) {
                    Some(v) => v,
                    None => 0u32,
                }),
            k == HIGHSCORE_COUNT ==> parse_u32_of(ls[HIGHSCORE_COUNT as int]) is Some,
        decreases HIGHSCORE_COUNT - k,
    {
        let parsed = parse_u32(&lines[1 + k]);
        match parsed {
            Some(v) => {
                high_scores.push(v);
            },
            None => {
                if k == HIGHSCORE_COUNT - 1 {
                    return None;
                }
                high_scores.push(0);
            },
        }
        k = k + 1;
    }
    let mut j: usize = 1 + HIGHSCORE_COUNT;
    while j < lines.len()
        invariant
            ls == lines_of(contents@),
            lines@.map_values(|l: Vec<u8>| l@) == ls,
            1 + HIGHSCORE_COUNT <= j <= lines@.len(),
            forall|i: int| 1 + HIGHSCORE_COUNT <= i < j ==> ls[i].len() == 0,
        decreases lines@.len() - j,
    {
        if lines[j].len() != 0 {
            proof {
                assert(ls[j as int] == lines@[j as int]@);
                assert(!(forall|i: int|
                    1 + HIGHSCORE_COUNT <= i < ls.len() ==> ls[i].len() == 0));
            }
            return None;
        }
        proof {
            assert(ls[j as int] == lines@[j as int]@);
        }
        j = j + 1;
    }
    proof {
        assert(settings_of(contents@) is Some);
        let m = settings_of(contents@)->Some_0;
        assert(high_scores@ =~= m.1);
    }
    Some(Settings { sound_enabled: is_true, high_scores })
}

/// What the settings store holds after `read_settings`: the parsed values,
/// or the defaults when nothing readable was handed in.
pub open spec fn read_settings_result(contents: Option<Seq<u8>>, s: Settings) -> bool {
    match contents {
        Some(bytes) => match settings_of(bytes) {
            Some(m) => s.sound_enabled == m.0 && s.high_scores@ == m.1,
            None => s.sound_enabled && s.high_scores@ == seq![100u32, 80u32, 50u32, 30u32, 10u32],
        },
        None => s.sound_enabled && s.high_scores@ == seq![100u32, 80u32, 50u32, 30u32, 10u32],
    }
}

/// Reads the settings from the raw bytes of the store, if they could be had:
/// a store that is missing or unreadable, or that `settings_of` rejects,
/// yields the built-in defaults.
pub fn read_settings(contents: Option<&Vec<u8>>) -> (s: Settings)
    ensures
        s.wf(),
        read_settings_result(
            match contents {
                Some(b) => Some(b@),
                None => None,
            },
            s,
        ),
{
    match contents {
        Some(bytes) => match parse_settings(bytes) {
            Some(s) => s,
            None => Settings::default(),
        },
        None => Settings::default(),
    }
}

/// The canonical decimal spelling of a nonnegative number.
pub open spec fn dec_bytes(n: int) -> Seq<u8>
    decreases n,
{
    if n < 10 {
        seq![(BYTE_ZERO + n) as u8]
    } else {
        dec_bytes(n / 10).push((BYTE_ZERO + n % 10) as u8)
    }
}

/// The scores from index `i` on, one decimal line each.
pub open spec fn rendered_from(scores: Seq<u32>, i: int) -> Seq<u8>
    decreases scores.len() - i,
{
    if i < 0 || i >= scores.len() {
        Seq::empty()
    } else {
        dec_bytes(scores[i] as int) + seq![BYTE_LF] + rendered_from(scores, i + 1)
    }
}

/// The whole settings store: the sound flag line, then one line per score.
pub open spec fn rendered_settings(sound_enabled: bool, scores: Seq<u32>) -> Seq<u8> {
    bool_bytes(sound_enabled) + seq![BYTE_LF] + rendered_from(scores, 0)
}

/// Appends the decimal spelling of `n`.
fn push_dec(out: &mut Vec<u8>, n: u32)
    ensures
        final(out)@ == old(out)@ + dec_bytes(n as int),
    decreases n,
{
    if n >= 10 {
        push_dec(out, n / 10);
    }
    let b: u8 = BYTE_ZERO + (n % 10) as u8;
    out.push(b);
    proof {
        if n < 10 {
            assert(out@ =~= old(out)@ + dec_bytes(n as int));
        } else {
            assert(out@ =~= old(out)@ + dec_bytes(n as int));
        }
    }
}

/// A decimal spelling is digits through and through, at least one of them,
/// and spells its number back.
proof fn lemma_dec_bytes_digits(n: int)
    requires
        n >= 0,
    ensures
        all_digits(dec_bytes(n)),
        dec_bytes(n).len() >= 1,
        is_digit(dec_bytes(n)[0]),
        digits_val(dec_bytes(n)) == n,
    decreases n,
{
    if n < 10 {
        let s = dec_bytes(n);
        assert(s == seq![(BYTE_ZERO + n) as u8]);
        assert(s.drop_last() =~= Seq::<u8>::empty());
        assert(digits_val(s) == digits_val(s.drop_last()) * 10 + (s[0] - BYTE_ZERO));
    } else {
        lemma_dec_bytes_digits(n / 10);
        let p = dec_bytes(n / 10);
        let s = dec_bytes(n);
        assert(s == p.push((BYTE_ZERO + n % 10) as u8));
        assert(s.drop_last() =~= p);
        assert(digits_val(s) == digits_val(p) * 10 + (n % 10));
        assert(all_digits(s)) by {
            assert(forall|j: int| 0 <= j < p.len() ==> s[j] == p[j]);
        }
        assert(s[0] == p[0]);
    }
}

/// Parsing a decimal spelling recovers the number.
proof fn lemma_parse_dec(n: u32)
    ensures
        parse_u32_of(dec_bytes(n as int)) == Some(n),
{
    lemma_dec_bytes_digits(n as int);
    let d = dec_bytes(n as int);
    assert(d[0] != BYTE_PLUS);
    assert(digit_part(d) == d);
}

/// `lines_from` reads the same lines as starting fresh on the suffix.
proof fn lemma_lines_from_is_skip(s: Seq<u8>, start: int)
    requires
        0 <= start <= s.len(),
    ensures
        lines_from(s, start) == lines_of(s.skip(start)),
    decreases s.len() - start,
{
    let u = s.skip(start);
    if start == s.len() {
        assert(lines_from(s, start) =~= Seq::<Seq<u8>>::empty());
        assert(u.len() == 0);
        assert(lines_of(u) =~= Seq::<Seq<u8>>::empty());
    } else {
        assert(u.skip(0) =~= u);
        lemma_first_newline(u);
        let i = first_newline(u);
        if start + i >= s.len() {
            assert(lines_from(s, start) == seq![u]);
            assert(lines_of(u) == seq![u.skip(0)]);
        } else {
            assert(s.subrange(start, start + i) =~= u.subrange(0, i));
            lemma_lines_from_is_skip(s, start + i + 1);
            lemma_lines_from_is_skip(u, i + 1);
            assert(s.skip(start + i + 1) =~= u.skip(i + 1));
        }
    }
}

/// The first line of a byte string that opens with a break-free segment and
/// a line feed is that segment; the rest parses on its own.
proof fn lemma_lines_split(a: Seq<u8>, b: Seq<u8>)
    requires
        forall|j: int| 0 <= j < a.len() ==> a[j] != BYTE_LF,
    ensures
        lines_of(a + seq![BYTE_LF] + b) == seq![strip_cr(a)] + lines_of(b),
{
    let s = a + seq![BYTE_LF] + b;
    let m = a.len() as int;
    assert(s[m] == BYTE_LF);
    assert(forall|j: int| 0 <= j < m ==> s[j] == a[j]);
    let t = s.skip(0);
    assert(t =~= s);
    lemma_first_newline(s);
    assert(first_newline(s) == m) by {
        if first_newline(s) < m {
            assert(s[first_newline(s)] == BYTE_LF);
            assert(s[first_newline(s)] == a[first_newline(s)]);
        }
        if first_newline(s) > m {
            assert(s[m] != BYTE_LF);
        }
    }
    assert(lines_of(s) == seq![strip_cr(s.subrange(0, m))] + lines_from(s, m + 1));
    assert(s.subrange(0, m) =~= a);
    lemma_lines_from_is_skip(s, m + 1);
    assert(s.skip(m + 1) =~= b);
}

/// The rendered score block reads back as one line per score, each the
/// decimal spelling of its entry.
proof fn lemma_lines_rendered_from(scores: Seq<u32>, i: int)
    requires
        0 <= i <= scores.len(),
    ensures
        lines_of(rendered_from(scores, i)).len() == scores.len() - i,
        forall|k: int|
            0 <= k < scores.len() - i ==> #[trigger] lines_of(rendered_from(scores, i))[k]
                == dec_bytes(scores[i + k] as int),
    decreases scores.len() - i,
{
    if i == scores.len() {
        assert(rendered_from(scores, i) =~= Seq::<u8>::empty());
        assert(lines_of(Seq::<u8>::empty()) =~= Seq::<Seq<u8>>::empty());
    } else {
        lemma_dec_bytes_digits(scores[i] as int);
        let d = dec_bytes(scores[i] as int);
        assert(forall|j: int| 0 <= j < d.len() ==> #[trigger] d[j] != BYTE_LF);
        lemma_lines_split(d, rendered_from(scores, i + 1));
        assert(strip_cr(d) == d);
        lemma_lines_rendered_from(scores, i + 1);
        let ls = lines_of(rendered_from(scores, i));
        assert(ls == seq![d] + lines_of(rendered_from(scores, i + 1)));
        assert forall|k: int| 0 <= k < scores.len() - i implies #[trigger] ls[k] == dec_bytes(
            scores[i + k] as int,
        ) by {
            if k > 0 {
                assert(ls[k] == lines_of(rendered_from(scores, i + 1))[k - 1]);
            }
        }
    }
}

/// Rendering the settings and reading the bytes back yields exactly the
/// values that were rendered: the stored format loses nothing.
pub proof fn lemma_settings_round_trip(sound_enabled: bool, scores: Seq<u32>)
    requires
        scores.len() == HIGHSCORE_COUNT,
    ensures
        settings_of(rendered_settings(sound_enabled, scores)) is Some,
        settings_of(rendered_settings(sound_enabled, scores))->Some_0.0 == sound_enabled,
        settings_of(rendered_settings(sound_enabled, scores))->Some_0.1 == scores,
{
    let head = bool_bytes(sound_enabled);
    assert(forall|j: int| 0 <= j < head.len() ==> #[trigger] head[j] != BYTE_LF);
    assert(head[head.len() - 1] != BYTE_CR);
    lemma_lines_split(head, rendered_from(scores, 0));
    lemma_lines_rendered_from(scores, 0);
    let r = rendered_settings(sound_enabled, scores);
    assert(r == head + seq![BYTE_LF] + rendered_from(scores, 0));
    let ls = lines_of(r);
    assert(ls.len() == 1 + HIGHSCORE_COUNT);
    assert(ls[0] == strip_cr(head));
    assert(strip_cr(head) == head);
    assert(bool_bytes(true).len() != bool_bytes(false).len());
    assert forall|i: int| 0 <= i < HIGHSCORE_COUNT implies parse_u32_of(#[trigger] ls[i + 1])
        == Some(scores[i]) by {
        assert(ls[i + 1] == (seq![head] + lines_of(rendered_from(scores, 0)))[i + 1]);
        assert(ls[i + 1] == lines_of(rendered_from(scores, 0))[i]);
        lemma_parse_dec(scores[i]);
    }
    assert(parse_u32_of(ls[4int + 1]) == Some(scores[4]));
    if sound_enabled {
        assert(ls[0] == bool_bytes(true));
    } else {
        assert(ls[0] == bool_bytes(false));
    }
    assert(settings_of(r) is Some);
    assert(settings_of(r)->Some_0.1 =~= scores);
}

/// Renders the settings in the stored format, byte for byte.
pub fn render_settings(sound_enabled: bool, high_scores: &Vec<u32>) -> (out: Vec<u8>)
    ensures
        out@ == rendered_settings(sound_enabled, high_scores@),
{
    let mut out: Vec<u8> = Vec::new();
    if sound_enabled {
        out.push(116);
        out.push(114);
        out.push(117);
        out.push(101);
    } else {
        out.push(102);
        out.push(97);
        out.push(108);
        out.push(115);
        out.push(101);
    }
    out.push(BYTE_LF);
    proof {
        assert(out@ =~= bool_bytes(sound_enabled) + seq![BYTE_LF]);
    }
    let mut k: usize = 0;
    while k < high_scores.len()
        invariant
            0 <= k <= high_scores@.len(),
            rendered_settings(sound_enabled, high_scores@) =~= out@ + rendered_from(
                high_scores@,
                k as int,
            ),
        decreases high_scores@.len() - k,
    {
        push_dec(&mut out, high_scores[k]);
        out.push(BYTE_LF);
        proof {
            assert(rendered_settings(sound_enabled, high_scores@) =~= out@ + rendered_from(
                high_scores@,
                k + 1,
            ));
        }
        k = k + 1;
    }
    out
}

} // verus!
