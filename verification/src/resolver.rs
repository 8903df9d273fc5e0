use vstd::prelude::*;

use crate::errors::FormatError;
use crate::pattern::{Matcher, CompiledPattern};
use crate::matcher::{SpecCaps, spec_find, find_match, chars_of, caps_rel, caps_bounds};
use crate::calendar::{days_in_month, naive_ms, days_in_month_exec, civil_day_exec};

verus! {

/// Caller-supplied resolution defaults: an optional fallback year and an
/// optional fallback UTC offset in signed milliseconds.
#[derive(Clone, Copy, Debug, PartialEq, Eq, Structural)]
pub struct TimestampContext {
    pub fallback_year: Option<i64>,
    pub fallback_offset_ms: Option<i64>,
}

/// A resolved timestamp: epoch milliseconds, plus whether the year and the
/// offset were taken from context defaults rather than from the line.
#[derive(Clone, Copy, Debug, PartialEq, Eq, Structural)]
pub struct ResolvedTimestamp {
    pub posix_ms: i64,
    pub year_from_context: bool,
    pub offset_from_context: bool,
}

/// Resolution of raw-epoch captures: the digit run is itself the epoch
/// millisecond value; the context year is ignored, but a fallback offset
/// still applies (the final instant is the value minus the offset).
pub open spec fn spec_resolve_raw(c: SpecCaps, ctx: TimestampContext) -> Result<
    ResolvedTimestamp,
    FormatError,
> {
    if c.abs_len > 18 {
        Err(FormatError::InvalidFieldError)
    } else if c.abs_val is None {
        Err(FormatError::InvalidFieldError)
    } else {
        let off: int = if ctx.fallback_offset_ms is Some {
            ctx.fallback_offset_ms->Some_0 as int
        } else {
            0
        };
        let r = c.abs_val->Some_0 - off;
        if r < i64::MIN || r > i64::MAX {
            Err(FormatError::InvalidFieldError)
        } else {
            Ok(
                ResolvedTimestamp {
                    posix_ms: r as i64,
                    year_from_context: false,
                    offset_from_context: ctx.fallback_offset_ms is Some,
                },
            )
        }
    }
}

/// Resolution of field captures: the year comes from the line or from the
/// context (else `MissingYearError`); the month from its numeric field or
/// the month-name field; day defaults to 1 and hour, minute, second and
/// fraction to 0 when their token is absent from the format.  All fields
/// are validated against calendar bounds.  The explicit offset of the line
/// wins over the context fallback; with neither, UTC is assumed.  The
/// final instant is the naive instant minus the offset.
pub open spec fn spec_resolve_fields(c: SpecCaps, ctx: TimestampContext) -> Result<
    ResolvedTimestamp,
    FormatError,
> {
    if c.year is None && ctx.fallback_year is None {
        Err(FormatError::MissingYearError)
    } else {
        let y: int = if c.year is Some {
            c.year->Some_0
        } else {
            ctx.fallback_year->Some_0 as int
        };
        let mo: int = if c.month is Some {
            c.month->Some_0
        } else if c.month_name is Some {
            c.month_name->Some_0
        } else {
            1
        };
        let d: int = if c.day is Some {
            c.day->Some_0
        } else {
            1
        };
        let h: int = if c.hour is Some {
            c.hour->Some_0
        } else {
            0
        };
        let mi: int = if c.minute is Some {
            c.minute->Some_0
        } else {
            0
        };
        let s: int = if c.second is Some {
            c.second->Some_0
        } else {
            0
        };
        let f: int = if c.frac_ms is Some {
            c.frac_ms->Some_0
        } else {
            0
        };
        if !(0 <= y <= 9999) || !(1 <= mo <= 12) || !(1 <= d <= days_in_month(y, mo)) || !(0 <= h
            <= 23) || !(0 <= mi <= 59) || !(0 <= s <= 59) || !(0 <= f <= 999) {
            Err(FormatError::InvalidFieldError)
        } else {
            let naive = naive_ms(y, mo, d, h, mi, s, f);
            let off: int = if c.tz_ms is Some {
                c.tz_ms->Some_0
            } else if ctx.fallback_offset_ms is Some {
                ctx.fallback_offset_ms->Some_0 as int
            } else {
                0
            };
            let r = naive - off;
            if r < i64::MIN || r > i64::MAX {
                Err(FormatError::InvalidFieldError)
            } else {
                Ok(
                    ResolvedTimestamp {
                        posix_ms: r as i64,
                        year_from_context: c.year is None,
                        offset_from_context: c.tz_ms is None && ctx.fallback_offset_ms is Some,
                    },
                )
            }
        }
    }
}

/// Resolution of a line against a pattern given as its matcher sequence
/// and raw-epoch flag: the first (leftmost) match is resolved; a line the
/// pattern does not match anywhere fails with `NoMatchError`.
pub open spec fn spec_resolve_m(
    line: Seq<char>,
    ms: Seq<Matcher>,
    raw: bool,
    ctx: TimestampContext,
) -> Result<ResolvedTimestamp, FormatError> {
    match spec_find(ms, line) {
        None => Err(FormatError::NoMatchError),
        Some(c) => if raw {
            spec_resolve_raw(c, ctx)
        } else {
            spec_resolve_fields(c, ctx)
        },
    }
}

fn resolve_raw_exec(c: &crate::matcher::Captures, ctx: &TimestampContext, Ghost(sc): Ghost<
    SpecCaps,
>) -> (r: Result<ResolvedTimestamp, FormatError>)
    requires
        caps_rel(*c, sc),
        caps_bounds(*c),
    ensures
        r == spec_resolve_raw(sc, *ctx),
{
    if c.abs_len > 18 {
        return Err(FormatError::InvalidFieldError);
    }
    match c.abs_val {
        None => Err(FormatError::InvalidFieldError),
        Some(v) => {
            let off: i64;
            let off_def: bool;
            match ctx.fallback_offset_ms {
                Some(o) => {
                    off = o;
                    off_def = true;
                },
                None => {
                    off = 0;
                    off_def = false;
                },
            }
            let r128: i128 = (v as i128) - (off as i128);
            if r128 < (i64::MIN as i128) || r128 > (i64::MAX as i128) {
                Err(FormatError::InvalidFieldError)
            } else {
                Ok(
                    ResolvedTimestamp {
                        posix_ms: r128 as i64,
                        year_from_context: false,
                        offset_from_context: off_def,
                    },
                )
            }
        },
    }
}

fn opt_or(v: Option<u64>, dflt: u64) -> (r: u64)
    ensures
        r == (if v is Some {
            v->Some_0
        } else {
            dflt
        }),
{
    match v {
        Some(x) => x,
        None => dflt,
    }
}

fn sel_month_exec(m: Option<u64>, mn: Option<u64>) -> (r: u64)
    ensures
        r == (if m is Some {
            m->Some_0
        } else if mn is Some {
            mn->Some_0
        } else {
            1u64
        }),
{
    match m {
        Some(x) => x,
        None => match mn {
            Some(x) => x,
            None => 1,
        },
    }
}

fn sel_offset_exec(tz: Option<i64>, fb: Option<i64>) -> (r: (i64, bool))
    ensures
        r.0 == (if tz is Some {
            tz->Some_0
        } else if fb is Some {
            fb->Some_0
        } else {
            0i64
        }),
        r.1 == (tz is None && fb is Some),
{
    match tz {
        Some(t) => (t, false),
        None => match fb {
            Some(o) => (o, true),
            None => (0, false),
        },
    }
}

fn sel_year_exec(cy: Option<u64>, fy: Option<i64>) -> (r: Option<(i64, bool)>)
    requires
        cy is Some ==> cy->Some_0 < 10000,
    ensures
        match r {
            Some(yb) => {
                &&& (cy is Some || fy is Some)
                &&& yb.0 as int == (if cy is Some {
                    cy->Some_0 as int
                } else {
                    fy->Some_0 as int
                })
                &&& yb.1 == (cy is None)
            },
            None => cy is None && fy is None,
        },
{
    match cy {
        Some(v) => Some((v as i64, false)),
        None => match fy {
            Some(y) => Some((y, true)),
            None => None,
        },
    }
}

#[verifier::rlimit(100)]
fn resolve_fields_exec(
    c: &crate::matcher::Captures,
    ctx: &TimestampContext,
    Ghost(sc): Ghost<SpecCaps>,
) -> (r: Result<ResolvedTimestamp, FormatError>)
    requires
        caps_rel(*c, sc),
        caps_bounds(*c),
    ensures
        r == spec_resolve_fields(sc, *ctx),
{
    let yb = sel_year_exec(c.year, ctx.fallback_year);
    match yb {
        None => Err(FormatError::MissingYearError),
        Some((y, y_def)) => {
            let mo = sel_month_exec(c.month, c.month_name);
            let d = opt_or(c.day, 1);
            let h = opt_or(c.hour, 0);
            let mi = opt_or(c.minute, 0);
            let s = opt_or(c.second, 0);
            let f = opt_or(c.frac_ms, 0);
            if y < 0 || y > 9999 || mo < 1 || mo > 12 {
                return Err(FormatError::InvalidFieldError);
            }
            let dim = days_in_month_exec(y, mo);
            if d < 1 || d > dim || h > 23 || mi > 59 || s > 59 {
                return Err(FormatError::InvalidFieldError);
            }
            let days = civil_day_exec(y, mo, d);
            let naive: i64 = days * 86400000 + (h as i64) * 3600000 + (mi as i64) * 60000 + (
            s as i64) * 1000 + (f as i64);
            let (off, off_def) = sel_offset_exec(c.tz_ms, ctx.fallback_offset_ms);
            let r128: i128 = (naive as i128) - (off as i128);
            if r128 < (i64::MIN as i128) || r128 > (i64::MAX as i128) {
                return Err(FormatError::InvalidFieldError);
            }
            Ok(
                ResolvedTimestamp {
                    posix_ms: r128 as i64,
                    year_from_context: y_def,
                    offset_from_context: off_def,
                },
            )
        },
    }
}

/// Matches `pattern` against `line` and computes the normalized POSIX
/// timestamp in milliseconds, using the context defaults for a missing
/// year or offset.  The result equals `spec_resolve_m` of the inputs, so
/// resolution is a pure function of line, pattern and context.
pub fn resolve(line: &str, pattern: &CompiledPattern, ctx: &TimestampContext) -> (r: Result<
    ResolvedTimestamp,
    FormatError,
>)
    ensures
        r == spec_resolve_m(line@, pattern.matchers@, pattern.raw_epoch, *ctx),
{
    let chars = chars_of(line);
    let found = find_match(&pattern.matchers, &chars);
    match found {
        None => Err(FormatError::NoMatchError),
        Some(c) => {
            let ghost sc = spec_find(pattern.matchers@, line@)->Some_0;
            if pattern.raw_epoch {
                resolve_raw_exec(&c, ctx, Ghost(sc))
            } else {
                resolve_fields_exec(&c, ctx, Ghost(sc))
            }
        },
    }
}

/// Resolving the same line with the same pattern and context twice yields
/// an identical result: resolution is deterministic, with no hidden state.
pub proof fn lemma_resolve_deterministic(
    line: Seq<char>,
    ms: Seq<Matcher>,
    raw: bool,
    ctx: TimestampContext,
    r1: Result<ResolvedTimestamp, FormatError>,
    r2: Result<ResolvedTimestamp, FormatError>,
)
    requires
        r1 == spec_resolve_m(line, ms, raw, ctx),
        r2 == spec_resolve_m(line, ms, raw, ctx),
    ensures
        r1 == r2,
{
}

} // verus!
