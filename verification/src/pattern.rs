use vstd::prelude::*;
use vstd::string::*;

use crate::errors::FormatError;
use crate::pieces::{FormatPiece, Tok, all_fraction_toks};
use crate::parser::{spec_parse, spec_tokens, parse};

verus! {

/// Two-digit numeric fields of a pattern.
#[derive(Clone, Copy, Debug, PartialEq, Eq, Structural)]
pub enum NumField {
    Month,
    Day,
    Hour,
    Minute,
    Second,
}

/// One step of a compiled pattern.  A pattern is a sequence of these,
/// matched left to right against consecutive characters of a line.
#[derive(Clone, Copy, Debug, PartialEq, Eq, Structural)]
pub enum Matcher {
    /// Four decimal digits captured as the year.
    Year4,
    /// Two decimal digits captured as the given numeric field.
    Num2(NumField),
    /// One of the twelve English month abbreviations, captured as a month.
    MonthName,
    /// A signed two-part numeric offset, optionally colon-separated.
    Tz,
    /// A maximal run of one or more digits captured as a sub-second fraction.
    Frac,
    /// A maximal run of one or more digits captured as a raw epoch value.
    Abs,
    /// Exactly this character.
    Lit(char),
    /// A maximal run of one or more whitespace characters.
    Ws,
}

/// Interprets the escaped text of a separator token, from index `i` on:
/// `\s+` becomes a whitespace-run matcher, `\c` a literal `c`, any other
/// character itself.  Malformed text (a trailing backslash, or `\s` not
/// followed by `+`) has no interpretation.
pub open spec fn sep_matchers(t: Seq<char>, i: int) -> Option<Seq<Matcher>>
    decreases t.len() - i,
{
    if i < 0 {
        None
    } else if i >= t.len() {
        Some(Seq::empty())
    } else if t[i] == '\\' {
        if i + 3 <= t.len() && t[i + 1] == 's' && t[i + 2] == '+' {
            match sep_matchers(t, i + 3) {
                Some(ms) => Some(seq![Matcher::Ws] + ms),
                None => None,
            }
        } else if i + 2 <= t.len() && t[i + 1] != 's' {
            match sep_matchers(t, i + 2) {
                Some(ms) => Some(seq![Matcher::Lit(t[i + 1])] + ms),
                None => None,
            }
        } else {
            None
        }
    } else {
        match sep_matchers(t, i + 1) {
            Some(ms) => Some(seq![Matcher::Lit(t[i])] + ms),
            None => None,
        }
    }
}

/// The matchers of a single token.
pub open spec fn piece_matchers(t: Tok) -> Option<Seq<Matcher>> {
    match t {
        Tok::Year => Some(seq![Matcher::Year4]),
        Tok::Month => Some(seq![Matcher::Num2(NumField::Month)]),
        Tok::MonthShortName => Some(seq![Matcher::MonthName]),
        Tok::Day => Some(seq![Matcher::Num2(NumField::Day)]),
        Tok::Hour => Some(seq![Matcher::Num2(NumField::Hour)]),
        Tok::Minute => Some(seq![Matcher::Num2(NumField::Minute)]),
        Tok::Second => Some(seq![Matcher::Num2(NumField::Second)]),
        Tok::Fraction => Some(seq![Matcher::Frac]),
        Tok::TimeZone => Some(seq![Matcher::Tz]),
        Tok::Separator(txt) => sep_matchers(txt, 0),
    }
}

/// Concatenation of the matchers of the tokens from index `j` on.
pub open spec fn matchers_of(ts: Seq<Tok>, j: int) -> Option<Seq<Matcher>>
    decreases ts.len() - j,
{
    if j < 0 {
        None
    } else if j >= ts.len() {
        Some(Seq::empty())
    } else {
        match piece_matchers(ts[j]) {
            None => None,
            Some(ms) => match matchers_of(ts, j + 1) {
                None => None,
                Some(rest) => Some(ms + rest),
            },
        }
    }
}

/// Two tokens capture the same field.
pub open spec fn same_field_kind(a: Tok, b: Tok) -> bool {
    ||| (a is Year && b is Year)
    ||| (a is Month && b is Month)
    ||| (a is MonthShortName && b is MonthShortName)
    ||| (a is Day && b is Day)
    ||| (a is Hour && b is Hour)
    ||| (a is Minute && b is Minute)
    ||| (a is Second && b is Second)
    ||| (a is Fraction && b is Fraction)
    ||| (a is TimeZone && b is TimeZone)
}

/// No field is captured twice; duplicate field names cannot be synthesized.
pub open spec fn unique_fields(ts: Seq<Tok>) -> bool {
    forall|i: int, j: int|
        0 <= i < j < ts.len() ==> !same_field_kind(#[trigger] ts[i], #[trigger] ts[j])
}

/// Result of synthesis over a token sequence: the matcher sequence and
/// whether the pattern is the raw-epoch special case.  A sequence that is
/// entirely fraction tokens is the raw-epoch pattern, a single contiguous
/// digit run whose value is the timestamp itself.
pub open spec fn spec_synthesize(ts: Seq<Tok>) -> Result<(Seq<Matcher>, bool), FormatError> {
    if ts.len() > 0 && all_fraction_toks(ts) {
        Ok((seq![Matcher::Abs], true))
    } else if !unique_fields(ts) {
        Err(FormatError::CompileError)
    } else {
        match matchers_of(ts, 0) {
            Some(ms) => Ok((ms, false)),
            None => Err(FormatError::CompileError),
        }
    }
}

/// Textual sub-pattern of one token, in the classical named-group notation.
pub open spec fn tok_text(t: Tok) -> Seq<char> {
    match t {
        Tok::Year => "(?P<Y>\\d{4})"@,
        Tok::Month => "(?P<m>\\d{2})"@,
        Tok::MonthShortName => "(?P<MMM>(Jan|Feb|Mar|Apr|May|Jun|Jul|Aug|Sep|Oct|Nov|Dec))"@,
        Tok::Day => "(?P<d>\\d{2})"@,
        Tok::Hour => "(?P<H>\\d{2})"@,
        Tok::Minute => "(?P<M>\\d{2})"@,
        Tok::Second => "(?P<S>\\d{2})"@,
        Tok::Fraction => "(?P<millis>\\d+)"@,
        Tok::TimeZone => "(?P<timezone>[\\+\\-]\\d\\d:?\\d\\d)"@,
        Tok::Separator(txt) => txt,
    }
}

/// Concatenated text of the tokens from index `j` on.
pub open spec fn render_from(ts: Seq<Tok>, j: int) -> Seq<char>
    decreases ts.len() - j,
{
    if j < 0 || j >= ts.len() {
        Seq::empty()
    } else {
        tok_text(ts[j]) + render_from(ts, j + 1)
    }
}

/// Textual form of the whole pattern.
pub open spec fn spec_render(ts: Seq<Tok>) -> Seq<char> {
    if ts.len() > 0 && all_fraction_toks(ts) {
        "(?P<absolute>\\d+)"@
    } else {
        render_from(ts, 0)
    }
}

/// A compiled, immutable, matchable pattern with named fields.  It owns no
/// external state and may be reused across any number of lines.
pub struct CompiledPattern {
    /// The steps matched left to right.
    pub matchers: Vec<Matcher>,
    /// The pattern rendered as text, for display and persistence.
    pub pattern_text: String,
    /// Whether the pattern is the raw-epoch special case.
    pub raw_epoch: bool,
}

impl CompiledPattern {
    /// The textual form of the pattern.
    pub fn as_str(&self) -> (r: &str)
        ensures
            r@ == self.pattern_text@,
    {
        self.pattern_text.as_str()
    }
}

/// `Some(pre + x)` when `o` is `Some(x)`, `None` otherwise.
pub open spec fn opt_prepend(pre: Seq<Matcher>, o: Option<Seq<Matcher>>) -> Option<Seq<Matcher>> {
    match o {
        Some(x) => Some(pre + x),
        None => None,
    }
}

/// Interprets the escaped text of one separator into matchers.
fn sep_to_matchers(txt: &str) -> (r: Option<Vec<Matcher>>)
    ensures
        match r {
            Some(v) => sep_matchers(txt@, 0) == Some(v@),
            None => sep_matchers(txt@, 0) is None,
        },
{
    let n = txt.unicode_len();
    let mut rv: Vec<Matcher> = Vec::new();
    let mut i: usize = 0;
    proof {
        assert(rv@ =~= Seq::<Matcher>::empty());
    }
    while i < n
        invariant
            i <= n,
            n == txt@.len(),
            sep_matchers(txt@, 0) == opt_prepend(rv@, sep_matchers(txt@, i as int)),
        decreases n - i,
    {
        let ghost pre = rv@;
        let c = txt.get_char(i);
        if c == '\\' {
            if n - i >= 3 && txt.get_char(i + 1) == 's' && txt.get_char(i + 2) == '+' {
                rv.push(Matcher::Ws);
                i = i + 3;
                proof {
                    assert(rv@ =~= pre + seq![Matcher::Ws]);
                    if sep_matchers(txt@, i as int) is Some {
                        let rest = sep_matchers(txt@, i as int)->Some_0;
                        assert(pre + (seq![Matcher::Ws] + rest) =~= rv@ + rest);
                    }
                }
            } else if n - i >= 2 && txt.get_char(i + 1) != 's' {
                let lc = txt.get_char(i + 1);
                rv.push(Matcher::Lit(lc));
                i = i + 2;
                proof {
                    assert(rv@ =~= pre + seq![Matcher::Lit(lc)]);
                    if sep_matchers(txt@, i as int) is Some {
                        let rest = sep_matchers(txt@, i as int)->Some_0;
                        assert(pre + (seq![Matcher::Lit(lc)] + rest) =~= rv@ + rest);
                    }
                }
            } else {
                proof {
                    assert(sep_matchers(txt@, i as int) is None);
                }
                return None;
            }
        } else {
            rv.push(Matcher::Lit(c));
            i = i + 1;
            proof {
                assert(rv@ =~= pre + seq![Matcher::Lit(c)]);
                if sep_matchers(txt@, i as int) is Some {
                    let rest = sep_matchers(txt@, i as int)->Some_0;
                    assert(pre + (seq![Matcher::Lit(c)] + rest) =~= rv@ + rest);
                }
            }
        }
    }
    proof {
        assert(sep_matchers(txt@, n as int) == Some(Seq::<Matcher>::empty()));
        assert(rv@ + Seq::<Matcher>::empty() =~= rv@);
    }
    Some(rv)
}

/// Converts a token sequence into a single matchable pattern with named
/// fields.  Fails with `CompileError` when a field would be captured twice
/// or a separator's escaped text has no interpretation; a sequence of only
/// fraction tokens becomes the raw-epoch pattern.
#[verifier::rlimit(60)]
pub fn synthesize(pieces: &Vec<FormatPiece>) -> (r: Result<CompiledPattern, FormatError>)
    ensures
        match r {
            Ok(p) => {
                &&& spec_synthesize(pieces.deep_view()) matches Ok(mr)
                &&& p.matchers@ == mr.0
                &&& p.raw_epoch == mr.1
                &&& p.pattern_text@ == spec_render(pieces.deep_view())
            },
            Err(e) => spec_synthesize(pieces.deep_view()) == Err::<(Seq<Matcher>, bool),
                FormatError,
            >(e),
        },
{
    let ghost ts = pieces.deep_view();
    let n = pieces.len();
    proof {
        assert(ts.len() == n);
    }

    // Raw-epoch special case: every token is a fraction token.
    let mut all_frac = true;
    let mut k: usize = 0;
    while k < n
        invariant
            k <= n,
            n == pieces@.len(),
            ts == pieces.deep_view(),
            all_frac == (forall|j: int| 0 <= j < k ==> #[trigger] ts[j] is Fraction),
        decreases n - k,
    {
        match &pieces[k] {
            FormatPiece::Fraction => {},
            _ => {
                proof {
                    assert(!(ts[k as int] is Fraction));
                }
                all_frac = false;
            },
        }
        k = k + 1;
    }
    if n > 0 && all_frac {
        let mut ms: Vec<Matcher> = Vec::new();
        ms.push(Matcher::Abs);
        proof {
            assert(all_fraction_toks(ts));
            assert(ms@ =~= seq![Matcher::Abs]);
        }
        return Ok(
            CompiledPattern {
                matchers: ms,
                pattern_text: String::from_str("(?P<absolute>\\d+)"),
                raw_epoch: true,
            },
        );
    }

    let mut ms: Vec<Matcher> = Vec::new();
    let mut text = String::new();
    let mut seen_year = false;
    let mut seen_month = false;
    let mut seen_month_name = false;
    let mut seen_day = false;
    let mut seen_hour = false;
    let mut seen_minute = false;
    let mut seen_second = false;
    let mut seen_fraction = false;
    let mut seen_tz = false;
    let mut k: usize = 0;
    proof {
        assert(ms@ =~= Seq::<Matcher>::empty());
        assert(text@ + render_from(ts, 0) =~= render_from(ts, 0));
    }
    while k < n
        invariant
            k <= n,
            n == pieces@.len(),
            ts == pieces.deep_view(),
            !(ts.len() > 0 && all_fraction_toks(ts)),
            matchers_of(ts, 0) == opt_prepend(ms@, matchers_of(ts, k as int)),
            render_from(ts, 0) == text@ + render_from(ts, k as int),
            seen_year == (exists|j: int| 0 <= j < k && #[trigger] ts[j] is Year),
            seen_month == (exists|j: int| 0 <= j < k && #[trigger] ts[j] is Month),
            seen_month_name == (exists|j: int| 0 <= j < k && #[trigger] ts[j] is MonthShortName),
            seen_day == (exists|j: int| 0 <= j < k && #[trigger] ts[j] is Day),
            seen_hour == (exists|j: int| 0 <= j < k && #[trigger] ts[j] is Hour),
            seen_minute == (exists|j: int| 0 <= j < k && #[trigger] ts[j] is Minute),
            seen_second == (exists|j: int| 0 <= j < k && #[trigger] ts[j] is Second),
            seen_fraction == (exists|j: int| 0 <= j < k && #[trigger] ts[j] is Fraction),
            seen_tz == (exists|j: int| 0 <= j < k && #[trigger] ts[j] is TimeZone),
            forall|i: int, j: int| 0 <= i < j < k ==> !same_field_kind(
                #[trigger] ts[i],
                #[trigger] ts[j],
            ),
        decreases n - k,
    {
        let ghost pre = ms@;
        let duplicate: bool;
        match &pieces[k] {
            FormatPiece::Year => {
                duplicate = seen_year;
                seen_year = true;
            },
            FormatPiece::Month => {
                duplicate = seen_month;
                seen_month = true;
            },
            FormatPiece::MonthShortName => {
                duplicate = seen_month_name;
                seen_month_name = true;
            },
            FormatPiece::Day => {
                duplicate = seen_day;
                seen_day = true;
            },
            FormatPiece::Hour => {
                duplicate = seen_hour;
                seen_hour = true;
            },
            FormatPiece::Minute => {
                duplicate = seen_minute;
                seen_minute = true;
            },
            FormatPiece::Second => {
                duplicate = seen_second;
                seen_second = true;
            },
            FormatPiece::Fraction => {
                duplicate = seen_fraction;
                seen_fraction = true;
            },
            FormatPiece::TimeZone => {
                duplicate = seen_tz;
                seen_tz = true;
            },
            FormatPiece::Separator(_) => {
                duplicate = false;
            },
        }
        if duplicate {
            proof {
                assert(!unique_fields(ts));
            }
            return Err(FormatError::CompileError);
        }
        match &pieces[k] {
            FormatPiece::Year => {
                ms.push(Matcher::Year4);
                text.append("(?P<Y>\\d{4})");
                proof {
                    assert(ms@ =~= pre + seq![Matcher::Year4]);
                }
            },
            FormatPiece::Month => {
                ms.push(Matcher::Num2(NumField::Month));
                text.append("(?P<m>\\d{2})");
                proof {
                    assert(ms@ =~= pre + seq![Matcher::Num2(NumField::Month)]);
                }
            },
            FormatPiece::MonthShortName => {
                ms.push(Matcher::MonthName);
                text.append("(?P<MMM>(Jan|Feb|Mar|Apr|May|Jun|Jul|Aug|Sep|Oct|Nov|Dec))");
                proof {
                    assert(ms@ =~= pre + seq![Matcher::MonthName]);
                }
            },
            FormatPiece::Day => {
                ms.push(Matcher::Num2(NumField::Day));
                text.append("(?P<d>\\d{2})");
                proof {
                    assert(ms@ =~= pre + seq![Matcher::Num2(NumField::Day)]);
                }
            },
            FormatPiece::Hour => {
                ms.push(Matcher::Num2(NumField::Hour));
                text.append("(?P<H>\\d{2})");
                proof {
                    assert(ms@ =~= pre + seq![Matcher::Num2(NumField::Hour)]);
                }
            },
            FormatPiece::Minute => {
                ms.push(Matcher::Num2(NumField::Minute));
                text.append("(?P<M>\\d{2})");
                proof {
                    assert(ms@ =~= pre + seq![Matcher::Num2(NumField::Minute)]);
                }
            },
            FormatPiece::Second => {
                ms.push(Matcher::Num2(NumField::Second));
                text.append("(?P<S>\\d{2})");
                proof {
                    assert(ms@ =~= pre + seq![Matcher::Num2(NumField::Second)]);
                }
            },
            FormatPiece::Fraction => {
                ms.push(Matcher::Frac);
                text.append("(?P<millis>\\d+)");
                proof {
                    assert(ms@ =~= pre + seq![Matcher::Frac]);
                }
            },
            FormatPiece::TimeZone => {
                ms.push(Matcher::Tz);
                text.append("(?P<timezone>[\\+\\-]\\d\\d:?\\d\\d)");
                proof {
                    assert(ms@ =~= pre + seq![Matcher::Tz]);
                }
            },
            FormatPiece::Separator(sep) => {
                match sep_to_matchers(sep.as_str()) {
                    Some(mut sv) => {
                        let ghost svv = sv@;
                        ms.append(&mut sv);
                        text.append(sep.as_str());
                        proof {
                            assert(ms@ =~= pre + svv);
                        }
                    },
                    None => {
                        proof {
                            assert(piece_matchers(ts[k as int]) is None);
                            assert(matchers_of(ts, k as int) is None);
                            assert(matchers_of(ts, 0) is None);
                        }
                        return Err(FormatError::CompileError);
                    },
                }
            },
        }
        proof {
            let tk = ts[k as int];
            assert(piece_matchers(tk) matches Some(pm) && ms@ =~= pre + pm);
            if matchers_of(ts, k + 1) is Some {
                let rest = matchers_of(ts, k + 1)->Some_0;
                let pm = piece_matchers(tk)->Some_0;
                assert(pre + (pm + rest) =~= (pre + pm) + rest);
            }
            assert(render_from(ts, 0) == text@ + render_from(ts, k + 1));
        }
        k = k + 1;
    }
    proof {
        assert(unique_fields(ts));
        assert(matchers_of(ts, n as int) == Some(Seq::<Matcher>::empty()));
        assert(ms@ + Seq::<Matcher>::empty() =~= ms@);
        assert(render_from(ts, n as int) =~= Seq::<char>::empty());
        assert(text@ + Seq::<char>::empty() =~= text@);
        assert(spec_render(ts) == text@);
    }
    Ok(CompiledPattern { matchers: ms, pattern_text: text, raw_epoch: false })
}

/// Result of compiling a format expression string: the matcher sequence and
/// the raw-epoch flag, or the first error of parsing or synthesis.
pub open spec fn spec_compile(s: Seq<char>) -> Result<(Seq<Matcher>, bool), FormatError> {
    match spec_parse(s) {
        Err(e) => Err(e),
        Ok(ts) => spec_synthesize(ts),
    }
}

/// Parses a format expression string and synthesizes its pattern.
pub fn compile(expression: &str) -> (r: Result<CompiledPattern, FormatError>)
    ensures
        match r {
            Ok(p) => {
                &&& spec_compile(expression@) matches Ok(mr)
                &&& p.matchers@ == mr.0
                &&& p.raw_epoch == mr.1
                &&& p.pattern_text@ == spec_render(spec_tokens(expression@))
            },
            Err(e) => spec_compile(expression@) == Err::<(Seq<Matcher>, bool), FormatError>(e),
        },
{
    match parse(expression) {
        Err(e) => Err(e),
        Ok(pieces) => synthesize(&pieces),
    }
}

} // verus!
