use vstd::prelude::*;
use vstd::string::*;

use crate::pattern::{Matcher, NumField};

verus! {

/// Decimal digit characters.
pub open spec fn is_digit_char(c: char) -> bool {
    48 <= c as u32 <= 57
}

/// Numeric value of a digit character.
pub open spec fn digit_val(c: char) -> int {
    c as u32 - 48
}

/// `k` decimal digits stand at position `pos`.
pub open spec fn digits_at(line: Seq<char>, pos: int, k: int) -> bool {
    &&& pos >= 0
    &&& k >= 0
    &&& pos + k <= line.len()
    &&& forall|j: int| pos <= j < pos + k ==> is_digit_char(#[trigger] line[j])
}

/// Value of the `k` digits at position `pos`, most significant first.
pub open spec fn num_val(line: Seq<char>, pos: int, k: int) -> int
    decreases k,
{
    if k <= 0 {
        0
    } else {
        num_val(line, pos, k - 1) * 10 + digit_val(line[pos + k - 1])
    }
}

/// Powers of ten.
pub open spec fn pow10(k: int) -> int
    decreases k,
{
    if k <= 0 {
        1
    } else {
        10 * pow10(k - 1)
    }
}

pub proof fn lemma_pow10_pos(k: int)
    ensures
        pow10(k) >= 1,
    decreases k,
{
    if k > 0 {
        lemma_pow10_pos(k - 1);
    }
}

pub proof fn lemma_pow10_mono(a: int, b: int)
    requires
        a <= b,
    ensures
        pow10(a) <= pow10(b),
    decreases b - a,
{
    if a < b {
        lemma_pow10_mono(a, b - 1);
        lemma_pow10_pos(b - 1);
    }
}

pub proof fn lemma_pow10_small()
    ensures
        pow10(0) == 1,
        pow10(1) == 10,
        pow10(2) == 100,
        pow10(3) == 1000,
        pow10(4) == 10000,
{
    reveal_with_fuel(pow10, 5);
}

pub proof fn lemma_pow10_18()
    ensures
        pow10(18) == 1_000_000_000_000_000_000,
{
    reveal_with_fuel(pow10, 19);
}

/// First position at or after `pos` that does not hold a digit.
pub open spec fn digit_run_end(line: Seq<char>, pos: int) -> int
    decreases line.len() - pos,
{
    if pos < 0 || pos >= line.len() || !is_digit_char(line[pos]) {
        pos
    } else {
        digit_run_end(line, pos + 1)
    }
}

pub proof fn lemma_digit_run_end(line: Seq<char>, pos: int)
    requires
        0 <= pos <= line.len(),
    ensures
        pos <= digit_run_end(line, pos) <= line.len(),
        digits_at(line, pos, digit_run_end(line, pos) - pos),
    decreases line.len() - pos,
{
    if pos < line.len() && is_digit_char(line[pos]) {
        lemma_digit_run_end(line, pos + 1);
    }
}

/// Whitespace characters recognized by the whitespace-run matcher.
pub open spec fn is_line_ws(c: char) -> bool {
    c == ' ' || c == '\t' || c == '\r' || c == '\n'
}

/// First position at or after `pos` that does not hold whitespace.
pub open spec fn ws_run_end(line: Seq<char>, pos: int) -> int
    decreases line.len() - pos,
{
    if pos < 0 || pos >= line.len() || !is_line_ws(line[pos]) {
        pos
    } else {
        ws_run_end(line, pos + 1)
    }
}

pub proof fn lemma_ws_run_end(line: Seq<char>, pos: int)
    requires
        0 <= pos <= line.len(),
    ensures
        pos <= ws_run_end(line, pos) <= line.len(),
    decreases line.len() - pos,
{
    if pos < line.len() && is_line_ws(line[pos]) {
        lemma_ws_run_end(line, pos + 1);
    }
}

/// Month number of the English three-letter abbreviation at `pos`.
pub open spec fn month_name_at(line: Seq<char>, pos: int) -> Option<int> {
    if pos < 0 || pos + 3 > line.len() {
        None
    } else if line[pos] == 'J' && line[pos + 1] == 'a' && line[pos + 2] == 'n' {
        Some(1)
    } else if line[pos] == 'F' && line[pos + 1] == 'e' && line[pos + 2] == 'b' {
        Some(2)
    } else if line[pos] == 'M' && line[pos + 1] == 'a' && line[pos + 2] == 'r' {
        Some(3)
    } else if line[pos] == 'A' && line[pos + 1] == 'p' && line[pos + 2] == 'r' {
        Some(4)
    } else if line[pos] == 'M' && line[pos + 1] == 'a' && line[pos + 2] == 'y' {
        Some(5)
    } else if line[pos] == 'J' && line[pos + 1] == 'u' && line[pos + 2] == 'n' {
        Some(6)
    } else if line[pos] == 'J' && line[pos + 1] == 'u' && line[pos + 2] == 'l' {
        Some(7)
    } else if line[pos] == 'A' && line[pos + 1] == 'u' && line[pos + 2] == 'g' {
        Some(8)
    } else if line[pos] == 'S' && line[pos + 1] == 'e' && line[pos + 2] == 'p' {
        Some(9)
    } else if line[pos] == 'O' && line[pos + 1] == 'c' && line[pos + 2] == 't' {
        Some(10)
    } else if line[pos] == 'N' && line[pos + 1] == 'o' && line[pos + 2] == 'v' {
        Some(11)
    } else if line[pos] == 'D' && line[pos + 1] == 'e' && line[pos + 2] == 'c' {
        Some(12)
    } else {
        None
    }
}

/// The signed two-part numeric offset at `pos`: consumed length (5, or 6
/// with the optional colon) and the offset in milliseconds.  A positive
/// offset means local time is ahead of UTC.
pub open spec fn tz_at(line: Seq<char>, pos: int) -> Option<(int, int)> {
    if pos < 0 || pos >= line.len() {
        None
    } else if line[pos] != '+' && line[pos] != '-' {
        None
    } else if !digits_at(line, pos + 1, 2) {
        None
    } else {
        let sgn: int = if line[pos] == '-' {
            -1
        } else {
            1
        };
        let h = num_val(line, pos + 1, 2);
        if pos + 3 < line.len() && line[pos + 3] == ':' {
            if digits_at(line, pos + 4, 2) {
                Some((6, sgn * (h * 3600000 + num_val(line, pos + 4, 2) * 60000)))
            } else {
                None
            }
        } else if digits_at(line, pos + 3, 2) {
            Some((5, sgn * (h * 3600000 + num_val(line, pos + 3, 2) * 60000)))
        } else {
            None
        }
    }
}

/// Sub-second fraction in milliseconds: the captured digits are scaled by
/// their count (one digit is tenths, two hundredths, three or more give
/// milliseconds from the first three digits).
pub open spec fn frac_scaled(line: Seq<char>, pos: int, runlen: int) -> int {
    if runlen >= 3 {
        num_val(line, pos, 3)
    } else if runlen == 2 {
        num_val(line, pos, 2) * 10
    } else {
        num_val(line, pos, 1) * 100
    }
}

/// Field values captured by a successful match, as unbounded integers.
pub struct SpecCaps {
    pub year: Option<int>,
    pub month: Option<int>,
    pub month_name: Option<int>,
    pub day: Option<int>,
    pub hour: Option<int>,
    pub minute: Option<int>,
    pub second: Option<int>,
    pub frac_ms: Option<int>,
    pub tz_ms: Option<int>,
    pub abs_val: Option<int>,
    pub abs_len: int,
}

/// No field captured.
pub open spec fn empty_caps() -> SpecCaps {
    SpecCaps {
        year: None,
        month: None,
        month_name: None,
        day: None,
        hour: None,
        minute: None,
        second: None,
        frac_ms: None,
        tz_ms: None,
        abs_val: None,
        abs_len: 0,
    }
}

/// Sets the two-digit numeric field `f`.
pub open spec fn with_num(c: SpecCaps, f: NumField, v: int) -> SpecCaps {
    match f {
        NumField::Month => SpecCaps { month: Some(v), ..c },
        NumField::Day => SpecCaps { day: Some(v), ..c },
        NumField::Hour => SpecCaps { hour: Some(v), ..c },
        NumField::Minute => SpecCaps { minute: Some(v), ..c },
        NumField::Second => SpecCaps { second: Some(v), ..c },
    }
}

/// Matches the matchers from index `j` on against the line at position
/// `pos`.  Runs (digits, whitespace) are maximal: each consumes as far as
/// it can and the next matcher continues from there.
pub open spec fn spec_match_from(ms: Seq<Matcher>, j: int, line: Seq<char>, pos: int) -> Option<
    SpecCaps,
>
    decreases ms.len() - j,
{
    if j < 0 || pos < 0 || pos > line.len() {
        None
    } else if j >= ms.len() {
        Some(empty_caps())
    } else {
        match ms[j] {
            Matcher::Year4 => if digits_at(line, pos, 4) {
                match spec_match_from(ms, j + 1, line, pos + 4) {
                    Some(c) => Some(SpecCaps { year: Some(num_val(line, pos, 4)), ..c }),
                    None => None,
                }
            } else {
                None
            },
            Matcher::Num2(f) => if digits_at(line, pos, 2) {
                match spec_match_from(ms, j + 1, line, pos + 2) {
                    Some(c) => Some(with_num(c, f, num_val(line, pos, 2))),
                    None => None,
                }
            } else {
                None
            },
            Matcher::MonthName => match month_name_at(line, pos) {
                Some(m) => match spec_match_from(ms, j + 1, line, pos + 3) {
                    Some(c) => Some(SpecCaps { month_name: Some(m), ..c }),
                    None => None,
                },
                None => None,
            },
            Matcher::Tz => match tz_at(line, pos) {
                Some(kv) => match spec_match_from(ms, j + 1, line, pos + kv.0) {
                    Some(c) => Some(SpecCaps { tz_ms: Some(kv.1), ..c }),
                    None => None,
                },
                None => None,
            },
            Matcher::Frac => {
                let e = digit_run_end(line, pos);
                if e > pos {
                    match spec_match_from(ms, j + 1, line, e) {
                        Some(c) => Some(
                            SpecCaps { frac_ms: Some(frac_scaled(line, pos, e - pos)), ..c },
                        ),
                        None => None,
                    }
                } else {
                    None
                }
            },
            Matcher::Abs => {
                let e = digit_run_end(line, pos);
                if e > pos {
                    match spec_match_from(ms, j + 1, line, e) {
                        Some(c) => Some(
                            SpecCaps {
                                abs_val: Some(num_val(line, pos, e - pos)),
                                abs_len: e - pos,
                                ..c
                            },
                        ),
                        None => None,
                    }
                } else {
                    None
                }
            },
            Matcher::Lit(ch) => if pos < line.len() && line[pos] == ch {
                spec_match_from(ms, j + 1, line, pos + 1)
            } else {
                None
            },
            Matcher::Ws => {
                let e = ws_run_end(line, pos);
                if e > pos {
                    spec_match_from(ms, j + 1, line, e)
                } else {
                    None
                }
            },
        }
    }
}

/// Unanchored search: the captures of the match at the smallest starting
/// position at or after `pos`, if any.
pub open spec fn spec_find_from(ms: Seq<Matcher>, line: Seq<char>, pos: int) -> Option<SpecCaps>
    decreases line.len() - pos + 1,
{
    if pos < 0 || pos > line.len() {
        None
    } else {
        match spec_match_from(ms, 0, line, pos) {
            Some(c) => Some(c),
            None => if pos == line.len() {
                None
            } else {
                spec_find_from(ms, line, pos + 1)
            },
        }
    }
}

/// Unanchored search over the whole line.
pub open spec fn spec_find(ms: Seq<Matcher>, line: Seq<char>) -> Option<SpecCaps> {
    spec_find_from(ms, line, 0)
}

/// Executable captures.  A raw-epoch run longer than 18 digits is recorded
/// by its length alone; its value would not fit a 64-bit count.
#[derive(Clone, Copy, Debug)]
pub struct Captures {
    pub year: Option<u64>,
    pub month: Option<u64>,
    pub month_name: Option<u64>,
    pub day: Option<u64>,
    pub hour: Option<u64>,
    pub minute: Option<u64>,
    pub second: Option<u64>,
    pub frac_ms: Option<u64>,
    pub tz_ms: Option<i64>,
    pub abs_val: Option<u64>,
    pub abs_len: usize,
}

pub open spec fn opt_u64_rel(a: Option<u64>, b: Option<int>) -> bool {
    &&& (a is Some <==> b is Some)
    &&& (a is Some ==> a->Some_0 as int == b->Some_0)
}

pub open spec fn opt_i64_rel(a: Option<i64>, b: Option<int>) -> bool {
    &&& (a is Some <==> b is Some)
    &&& (a is Some ==> a->Some_0 as int == b->Some_0)
}

/// The executable captures stand for the mathematical captures.
pub open spec fn caps_rel(e: Captures, s: SpecCaps) -> bool {
    &&& opt_u64_rel(e.year, s.year)
    &&& opt_u64_rel(e.month, s.month)
    &&& opt_u64_rel(e.month_name, s.month_name)
    &&& opt_u64_rel(e.day, s.day)
    &&& opt_u64_rel(e.hour, s.hour)
    &&& opt_u64_rel(e.minute, s.minute)
    &&& opt_u64_rel(e.second, s.second)
    &&& opt_u64_rel(e.frac_ms, s.frac_ms)
    &&& opt_i64_rel(e.tz_ms, s.tz_ms)
    &&& e.abs_len as int == s.abs_len
    &&& (s.abs_val is None ==> e.abs_val is None)
    &&& (s.abs_val is Some && s.abs_len <= 18 ==> e.abs_val is Some && e.abs_val->Some_0 as int
        == s.abs_val->Some_0)
    &&& (s.abs_len > 18 ==> e.abs_val is None)
}

/// Ranges that captured values are known to lie in.
pub open spec fn caps_bounds(e: Captures) -> bool {
    &&& (e.year is Some ==> e.year->Some_0 < 10000)
    &&& (e.month is Some ==> e.month->Some_0 < 100)
    &&& (e.month_name is Some ==> 1 <= e.month_name->Some_0 <= 12)
    &&& (e.day is Some ==> e.day->Some_0 < 100)
    &&& (e.hour is Some ==> e.hour->Some_0 < 100)
    &&& (e.minute is Some ==> e.minute->Some_0 < 100)
    &&& (e.second is Some ==> e.second->Some_0 < 100)
    &&& (e.frac_ms is Some ==> e.frac_ms->Some_0 < 1000)
    &&& (e.tz_ms is Some ==> -400000000 <= e.tz_ms->Some_0 <= 400000000)
    &&& (e.abs_val is Some ==> e.abs_val->Some_0 < 1_000_000_000_000_000_000)
}

fn empty_captures() -> (r: Captures)
    ensures
        caps_rel(r, empty_caps()),
        caps_bounds(r),
{
    Captures {
        year: None,
        month: None,
        month_name: None,
        day: None,
        hour: None,
        minute: None,
        second: None,
        frac_ms: None,
        tz_ms: None,
        abs_val: None,
        abs_len: 0,
    }
}

fn is_digit_at(line: &Vec<char>, i: usize) -> (b: bool)
    requires
        i < line@.len(),
    ensures
        b == is_digit_char(line@[i as int]),
{
    let c = line[i];
    let u = c as u32;
    48 <= u && u <= 57
}

fn is_ws_at(line: &Vec<char>, i: usize) -> (b: bool)
    requires
        i < line@.len(),
    ensures
        b == is_line_ws(line@[i as int]),
{
    let c = line[i];
    c == ' ' || c == '\t' || c == '\r' || c == '\n'
}

fn digit_run_end_exec(line: &Vec<char>, pos: usize) -> (e: usize)
    requires
        pos <= line@.len(),
    ensures
        e as int == digit_run_end(line@, pos as int),
        pos <= e <= line@.len(),
{
    let n = line.len();
    let mut e = pos;
    while e < n && is_digit_at(line, e)
        invariant
            pos <= e <= n,
            n == line@.len(),
            digit_run_end(line@, pos as int) == digit_run_end(line@, e as int),
        decreases n - e,
    {
        e = e + 1;
    }
    e
}

fn ws_run_end_exec(line: &Vec<char>, pos: usize) -> (e: usize)
    requires
        pos <= line@.len(),
    ensures
        e as int == ws_run_end(line@, pos as int),
        pos <= e <= line@.len(),
{
    let n = line.len();
    let mut e = pos;
    while e < n && is_ws_at(line, e)
        invariant
            pos <= e <= n,
            n == line@.len(),
            ws_run_end(line@, pos as int) == ws_run_end(line@, e as int),
        decreases n - e,
    {
        e = e + 1;
    }
    e
}

fn num_val_exec(line: &Vec<char>, pos: usize, k: usize) -> (v: u64)
    requires
        digits_at(line@, pos as int, k as int),
        k <= 18,
    ensures
        v as int == num_val(line@, pos as int, k as int),
        (v as int) < pow10(k as int),
{
    proof {
        lemma_pow10_18();
    }
    let n = line.len();
    let mut v: u64 = 0;
    let mut j: usize = 0;
    proof {
        lemma_pow10_pos(0);
    }
    while j < k
        invariant
            j <= k <= 18,
            n == line@.len(),
            pos + k <= n,
            digits_at(line@, pos as int, k as int),
            v as int == num_val(line@, pos as int, j as int),
            (v as int) < pow10(j as int),
            pow10(18) == 1_000_000_000_000_000_000,
        decreases k - j,
    {
        proof {
            assert(is_digit_char(line@[pos + j]));
            lemma_pow10_mono(j + 1, 18);
        }
        let c = line[pos + j];
        let d: u32 = (c as u32) - 48;
        v = v * 10 + (d as u64);
        j = j + 1;
    }
    v
}

fn month_name_exec(line: &Vec<char>, pos: usize) -> (r: Option<u64>)
    requires
        pos <= line@.len(),
    ensures
        match r {
            Some(m) => month_name_at(line@, pos as int) == Some(m as int) && 1 <= m <= 12,
            None => month_name_at(line@, pos as int) is None,
        },
{
    let n = line.len();
    if n - pos < 3 {
        return None;
    }
    let c0 = line[pos];
    let c1 = line[pos + 1];
    let c2 = line[pos + 2];
    if c0 == 'J' && c1 == 'a' && c2 == 'n' {
        Some(1)
    } else if c0 == 'F' && c1 == 'e' && c2 == 'b' {
        Some(2)
    } else if c0 == 'M' && c1 == 'a' && c2 == 'r' {
        Some(3)
    } else if c0 == 'A' && c1 == 'p' && c2 == 'r' {
        Some(4)
    } else if c0 == 'M' && c1 == 'a' && c2 == 'y' {
        Some(5)
    } else if c0 == 'J' && c1 == 'u' && c2 == 'n' {
        Some(6)
    } else if c0 == 'J' && c1 == 'u' && c2 == 'l' {
        Some(7)
    } else if c0 == 'A' && c1 == 'u' && c2 == 'g' {
        Some(8)
    } else if c0 == 'S' && c1 == 'e' && c2 == 'p' {
        Some(9)
    } else if c0 == 'O' && c1 == 'c' && c2 == 't' {
        Some(10)
    } else if c0 == 'N' && c1 == 'o' && c2 == 'v' {
        Some(11)
    } else if c0 == 'D' && c1 == 'e' && c2 == 'c' {
        Some(12)
    } else {
        None
    }
}

fn tz_exec(line: &Vec<char>, pos: usize) -> (r: Option<(usize, i64)>)
    requires
        pos <= line@.len(),
    ensures
        match r {
            Some(kv) => {
                &&& tz_at(line@, pos as int) == Some((kv.0 as int, kv.1 as int))
                &&& 5 <= kv.0 <= 6
                &&& pos + kv.0 <= line@.len()
                &&& -400000000 <= kv.1 <= 400000000
            },
            None => tz_at(line@, pos as int) is None,
        },
{
    let n = line.len();
    if pos == n {
        return None;
    }
    let c = line[pos];
    if c != '+' && c != '-' {
        return None;
    }
    let neg = c == '-';
    if n - pos < 3 || !(is_digit_at(line, pos + 1) && is_digit_at(line, pos + 2)) {
        proof {
            assert(!digits_at(line@, pos + 1, 2));
        }
        return None;
    }
    proof {
        assert forall|j: int| pos + 1 <= j < pos + 3 implies is_digit_char(line@[j]) by {
            assert(j == pos + 1 || j == pos + 2);
        }
        assert(digits_at(line@, pos + 1, 2));
        lemma_pow10_small();
    }
    let h = num_val_exec(line, pos + 1, 2);
    if pos + 3 < n && line[pos + 3] == ':' {
        if n - pos < 6 || !(is_digit_at(line, pos + 4) && is_digit_at(line, pos + 5)) {
            proof {
                assert(!digits_at(line@, pos + 4, 2));
            }
            return None;
        }
        proof {
            assert forall|j: int| pos + 4 <= j < pos + 6 implies is_digit_char(line@[j]) by {
                assert(j == pos + 4 || j == pos + 5);
            }
            assert(digits_at(line@, pos + 4, 2));
        }
        let m = num_val_exec(line, pos + 4, 2);
        let mag: i64 = (h as i64) * 3600000 + (m as i64) * 60000;
        let v: i64 = if neg {
            -mag
        } else {
            mag
        };
        Some((6, v))
    } else {
        if n - pos < 5 || !(is_digit_at(line, pos + 3) && is_digit_at(line, pos + 4)) {
            proof {
                assert(!digits_at(line@, pos + 3, 2));
            }
            return None;
        }
        proof {
            assert forall|j: int| pos + 3 <= j < pos + 5 implies is_digit_char(line@[j]) by {
                assert(j == pos + 3 || j == pos + 4);
            }
            assert(digits_at(line@, pos + 3, 2));
        }
        let m = num_val_exec(line, pos + 3, 2);
        let mag: i64 = (h as i64) * 3600000 + (m as i64) * 60000;
        let v: i64 = if neg {
            -mag
        } else {
            mag
        };
        Some((5, v))
    }
}

/// Matches the tail of the pattern beginning at matcher `j` against the
/// line at position `pos`.
#[verifier::rlimit(60)]
fn match_from(ms: &Vec<Matcher>, j: usize, line: &Vec<char>, pos: usize) -> (r: Option<Captures>)
    requires
        j <= ms@.len(),
        pos <= line@.len(),
    ensures
        match r {
            Some(c) => {
                &&& spec_match_from(ms@, j as int, line@, pos as int) is Some
                &&& caps_rel(c, spec_match_from(ms@, j as int, line@, pos as int)->Some_0)
                &&& caps_bounds(c)
            },
            None => spec_match_from(ms@, j as int, line@, pos as int) is None,
        },
    decreases ms@.len() - j,
{
    let n = line.len();
    if j == ms.len() {
        return Some(empty_captures());
    }
    let m = ms[j];
    match m {
        Matcher::Year4 => {
            if n - pos >= 4 && is_digit_at(line, pos) && is_digit_at(line, pos + 1) && is_digit_at(
                line,
                pos + 2,
            ) && is_digit_at(line, pos + 3) {
                proof {
                    assert forall|q: int| pos <= q < pos + 4 implies is_digit_char(line@[q]) by {
                        assert(q == pos || q == pos + 1 || q == pos + 2 || q == pos + 3);
                    }
                    assert(digits_at(line@, pos as int, 4));
                    lemma_pow10_small();
                }
                let v = num_val_exec(line, pos, 4);
                match match_from(ms, j + 1, line, pos + 4) {
                    Some(mut c) => {
                        c.year = Some(v);
                        Some(c)
                    },
                    None => None,
                }
            } else {
                proof {
                    assert(!digits_at(line@, pos as int, 4));
                }
                None
            }
        },
        Matcher::Num2(f) => {
            if n - pos >= 2 && is_digit_at(line, pos) && is_digit_at(line, pos + 1) {
                proof {
                    assert forall|q: int| pos <= q < pos + 2 implies is_digit_char(line@[q]) by {
                        assert(q == pos || q == pos + 1);
                    }
                    assert(digits_at(line@, pos as int, 2));
                    lemma_pow10_small();
                }
                let v = num_val_exec(line, pos, 2);
                match match_from(ms, j + 1, line, pos + 2) {
                    Some(mut c) => {
                        match f {
                            NumField::Month => {
                                c.month = Some(v);
                            },
                            NumField::Day => {
                                c.day = Some(v);
                            },
                            NumField::Hour => {
                                c.hour = Some(v);
                            },
                            NumField::Minute => {
                                c.minute = Some(v);
                            },
                            NumField::Second => {
                                c.second = Some(v);
                            },
                        }
                        Some(c)
                    },
                    None => None,
                }
            } else {
                proof {
                    assert(!digits_at(line@, pos as int, 2));
                }
                None
            }
        },
        Matcher::MonthName => {
            match month_name_exec(line, pos) {
                Some(v) => {
                    match match_from(ms, j + 1, line, pos + 3) {
                        Some(mut c) => {
                            c.month_name = Some(v);
                            Some(c)
                        },
                        None => None,
                    }
                },
                None => None,
            }
        },
        Matcher::Tz => {
            match tz_exec(line, pos) {
                Some((k, v)) => {
                    match match_from(ms, j + 1, line, pos + k) {
                        Some(mut c) => {
                            c.tz_ms = Some(v);
                            Some(c)
                        },
                        None => None,
                    }
                },
                None => None,
            }
        },
        Matcher::Frac => {
            let e = digit_run_end_exec(line, pos);
            if e > pos {
                proof {
                    lemma_digit_run_end(line@, pos as int);
                }
                let runlen = e - pos;
                let fv: u64;
                if runlen >= 3 {
                    proof {
                        assert(digits_at(line@, pos as int, 3));
                        lemma_pow10_small();
                    }
                    fv = num_val_exec(line, pos, 3);
                } else if runlen == 2 {
                    proof {
                        lemma_pow10_small();
                    }
                    fv = num_val_exec(line, pos, 2) * 10;
                } else {
                    proof {
                        lemma_pow10_small();
                    }
                    fv = num_val_exec(line, pos, 1) * 100;
                }
                match match_from(ms, j + 1, line, e) {
                    Some(mut c) => {
                        c.frac_ms = Some(fv);
                        Some(c)
                    },
                    None => None,
                }
            } else {
                None
            }
        },
        Matcher::Abs => {
            let e = digit_run_end_exec(line, pos);
            if e > pos {
                proof {
                    lemma_digit_run_end(line@, pos as int);
                }
                let runlen = e - pos;
                let av: Option<u64>;
                if runlen <= 18 {
                    proof {
                        lemma_pow10_mono(runlen as int, 18);
                        lemma_pow10_18();
                    }
                    av = Some(num_val_exec(line, pos, runlen));
                } else {
                    av = None;
                }
                match match_from(ms, j + 1, line, e) {
                    Some(mut c) => {
                        c.abs_val = av;
                        c.abs_len = runlen;
                        Some(c)
                    },
                    None => None,
                }
            } else {
                None
            }
        },
        Matcher::Lit(ch) => {
            if pos < n && line[pos] == ch {
                match_from(ms, j + 1, line, pos + 1)
            } else {
                None
            }
        },
        Matcher::Ws => {
            let e = ws_run_end_exec(line, pos);
            if e > pos {
                proof {
                    lemma_ws_run_end(line@, pos as int);
                }
                match_from(ms, j + 1, line, e)
            } else {
                None
            }
        },
    }
}

/// Unanchored search: tries every starting position from the left and
/// returns the captures of the first successful match.
pub fn find_match(ms: &Vec<Matcher>, line: &Vec<char>) -> (r: Option<Captures>)
    ensures
        match r {
            Some(c) => {
                &&& spec_find(ms@, line@) is Some
                &&& caps_rel(c, spec_find(ms@, line@)->Some_0)
                &&& caps_bounds(c)
            },
            None => spec_find(ms@, line@) is None,
        },
{
    let n = line.len();
    let mut pos: usize = 0;
    loop
        invariant
            pos <= n,
            n == line@.len(),
            spec_find(ms@, line@) == spec_find_from(ms@, line@, pos as int),
        decreases n - pos,
    {
        match match_from(ms, 0, line, pos) {
            Some(c) => {
                return Some(c);
            },
            None => {},
        }
        if pos == n {
            return None;
        }
        pos = pos + 1;
    }
}

/// The characters of a string, in order.
pub fn chars_of(s: &str) -> (r: Vec<char>)
    ensures
        r@ == s@,
{
    let n = s.unicode_len();
    let mut v: Vec<char> = Vec::new();
    let mut i: usize = 0;
    while i < n
        invariant
            i <= n,
            n == s@.len(),
            v@ =~= s@.subrange(0, i as int),
        decreases n - i,
    {
        let c = s.get_char(i);
        v.push(c);
        proof {
            assert(v@ =~= s@.subrange(0, i + 1));
        }
        i = i + 1;
    }
    proof {
        assert(s@.subrange(0, n as int) =~= s@);
    }
    v
}

} // verus!
