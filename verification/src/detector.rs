use vstd::prelude::*;
use vstd::string::*;

use crate::errors::FormatError;
use crate::pieces::has_field;
use crate::parser::spec_tokens;
use crate::pattern::{Matcher, spec_compile, compile};
use crate::matcher::{spec_find, find_match, chars_of};
use crate::resolver::{TimestampContext, ResolvedTimestamp, spec_resolve_m, resolve};

verus! {

/// The ordered registry of built-in candidate format expressions, from the
/// most structurally specific to the loosest, so that a specific match is
/// never shadowed by an accidental looser one.
pub open spec fn spec_candidates() -> Seq<Seq<char>> {
    seq![
        "YYYY-MM-DD hh:mm:ss.s TZD"@,
        "YYYY-MM-DDThh:mm:ss.s TZD"@,
        "MM-DD hh:mm:ss.s TZD"@,
        "MM-DDThh:mm:ss.s TZD"@,
        "MM-DD-YYYY hh:mm:ss.s TZD"@,
        "DD/MMM/YYYY:hh:mm:ss TZD"@,
        "YYYY-MM-DD hh:mm:ss.s"@,
        "YYYY-MM-DDThh:mm:ss.s"@,
        "MM-DD hh:mm:ss.s"@,
        "MM-DDThh:mm:ss.s"@,
        "MM-DD-YYYY hh:mm:ss.s"@,
        "DD/MMM/YYYY:hh:mm:ss"@,
        "YYYY-MM-DD"@,
        "YYYY"@,
    ]
}

/// The registry as executable values, in registry order.
pub fn candidate_formats() -> (r: Vec<&'static str>)
    ensures
        r@.len() == spec_candidates().len(),
        forall|i: int| 0 <= i < r@.len() ==> (#[trigger] r@[i])@ == spec_candidates()[i],
{
    let v: Vec<&'static str> = vec![
        "YYYY-MM-DD hh:mm:ss.s TZD",
        "YYYY-MM-DDThh:mm:ss.s TZD",
        "MM-DD hh:mm:ss.s TZD",
        "MM-DDThh:mm:ss.s TZD",
        "MM-DD-YYYY hh:mm:ss.s TZD",
        "DD/MMM/YYYY:hh:mm:ss TZD",
        "YYYY-MM-DD hh:mm:ss.s",
        "YYYY-MM-DDThh:mm:ss.s",
        "MM-DD hh:mm:ss.s",
        "MM-DDThh:mm:ss.s",
        "MM-DD-YYYY hh:mm:ss.s",
        "DD/MMM/YYYY:hh:mm:ss",
        "YYYY-MM-DD",
        "YYYY",
    ];
    proof {
        assert(v@[0]@ == spec_candidates()[0]);
        assert(v@[1]@ == spec_candidates()[1]);
        assert(v@[2]@ == spec_candidates()[2]);
        assert(v@[3]@ == spec_candidates()[3]);
        assert(v@[4]@ == spec_candidates()[4]);
        assert(v@[5]@ == spec_candidates()[5]);
        assert(v@[6]@ == spec_candidates()[6]);
        assert(v@[7]@ == spec_candidates()[7]);
        assert(v@[8]@ == spec_candidates()[8]);
        assert(v@[9]@ == spec_candidates()[9]);
        assert(v@[10]@ == spec_candidates()[10]);
        assert(v@[11]@ == spec_candidates()[11]);
        assert(v@[12]@ == spec_candidates()[12]);
        assert(v@[13]@ == spec_candidates()[13]);
    }
    v
}

/// Whether a format expression's pattern matches somewhere in the line.
pub open spec fn spec_line_matches(fmt: Seq<char>, line: Seq<char>) -> Result<bool, FormatError> {
    match spec_compile(fmt) {
        Err(e) => Err(e),
        Ok(mr) => Ok(spec_find(mr.0, line) is Some),
    }
}

/// Compiles `format` and reports whether its pattern matches anywhere in
/// `line` (unanchored substring match).  An expression that does not
/// compile is an error, never a vacuous `false`: in particular an
/// expression with no field tokens yields `EmptyFormatError`.
pub fn line_matches(format: &str, line: &str) -> (r: Result<bool, FormatError>)
    ensures
        r == spec_line_matches(format@, line@),
        !has_field(spec_tokens(format@)) ==> r == Err::<bool, FormatError>(
            FormatError::EmptyFormatError,
        ),
{
    match compile(format) {
        Err(e) => Err(e),
        Ok(p) => {
            let chars = chars_of(line);
            let found = find_match(&p.matchers, &chars);
            match found {
                Some(_) => Ok(true),
                None => Ok(false),
            }
        },
    }
}

/// Per-line detection from candidate `i` on: the first candidate that
/// compiles, matches and resolves wins.
pub open spec fn spec_detect_from(line: Seq<char>, ctx: TimestampContext, i: int) -> Result<
    ResolvedTimestamp,
    FormatError,
>
    decreases spec_candidates().len() - i,
{
    if i < 0 || i >= spec_candidates().len() {
        Err(FormatError::NoFormatMatchedError)
    } else {
        match spec_compile(spec_candidates()[i]) {
            Err(_) => spec_detect_from(line, ctx, i + 1),
            Ok(mr) => match spec_resolve_m(line, mr.0, mr.1, ctx) {
                Ok(t) => Ok(t),
                Err(_) => spec_detect_from(line, ctx, i + 1),
            },
        }
    }
}

/// Per-line detection over the whole registry.
pub open spec fn spec_detect_line(line: Seq<char>, ctx: TimestampContext) -> Result<
    ResolvedTimestamp,
    FormatError,
> {
    spec_detect_from(line, ctx, 0)
}

/// Tries the registry candidates in order against `line` and returns the
/// first successful resolution; fails with `NoFormatMatchedError` when no
/// candidate matches and resolves.
pub fn detect_line(line: &str, ctx: &TimestampContext) -> (r: Result<
    ResolvedTimestamp,
    FormatError,
>)
    ensures
        r == spec_detect_line(line@, *ctx),
{
    let cands = candidate_formats();
    let n = cands.len();
    let mut i: usize = 0;
    while i < n
        invariant
            i <= n,
            n == spec_candidates().len(),
            cands@.len() == n,
            forall|q: int| 0 <= q < n ==> (#[trigger] cands@[q])@ == spec_candidates()[q],
            spec_detect_line(line@, *ctx) == spec_detect_from(line@, *ctx, i as int),
        decreases n - i,
    {
        let cand = cands[i];
        match compile(cand) {
            Err(_) => {},
            Ok(p) => {
                match resolve(line, &p, ctx) {
                    Ok(t) => {
                        return Ok(t);
                    },
                    Err(_) => {},
                }
            },
        }
        i = i + 1;
    }
    Err(FormatError::NoFormatMatchedError)
}

/// The bounded sample: the first (up to) `cnt` non-empty lines from `i` on.
pub open spec fn spec_sample_from(ls: Seq<Seq<char>>, i: int, cnt: int) -> Seq<Seq<char>>
    decreases ls.len() - i,
{
    if i < 0 || i >= ls.len() || cnt <= 0 {
        Seq::empty()
    } else if ls[i].len() == 0 {
        spec_sample_from(ls, i + 1, cnt)
    } else {
        seq![ls[i]] + spec_sample_from(ls, i + 1, cnt - 1)
    }
}

/// The bounded sample of a file: its first ten non-empty lines.
pub open spec fn spec_sample(ls: Seq<Seq<char>>) -> Seq<Seq<char>> {
    spec_sample_from(ls, 0, 10)
}

/// The pattern matches every line of the sample.
pub open spec fn all_sample_match(ms: Seq<Matcher>, smp: Seq<Seq<char>>) -> bool {
    forall|k: int| 0 <= k < smp.len() ==> spec_find(ms, #[trigger] smp[k]) is Some
}

/// File-format detection from candidate `i` on: the first candidate whose
/// pattern matches every sampled line wins; detection must be unambiguous
/// for a homogeneous file, so a candidate that misses any sampled line is
/// rejected.
pub open spec fn spec_detect_file_from(smp: Seq<Seq<char>>, i: int) -> Result<
    Seq<char>,
    FormatError,
>
    decreases spec_candidates().len() - i,
{
    if i < 0 || i >= spec_candidates().len() {
        Err(FormatError::NoFormatDetectedError)
    } else {
        match spec_compile(spec_candidates()[i]) {
            Err(_) => spec_detect_file_from(smp, i + 1),
            Ok(mr) => if all_sample_match(mr.0, smp) {
                Ok(spec_candidates()[i])
            } else {
                spec_detect_file_from(smp, i + 1)
            },
        }
    }
}

/// File-format detection: `EmptyFileError` when the sample is empty, else
/// the first candidate matching the whole sample, else
/// `NoFormatDetectedError`.
pub open spec fn spec_detect_file(ls: Seq<Seq<char>>) -> Result<Seq<char>, FormatError> {
    if spec_sample(ls).len() == 0 {
        Err(FormatError::EmptyFileError)
    } else {
        spec_detect_file_from(spec_sample(ls), 0)
    }
}

/// Draws a bounded sample of leading non-empty lines and returns the
/// canonical expression string of the first registry candidate that
/// matches every sampled line, suitable for persistence and reuse.
#[verifier::rlimit(60)]
pub fn detect_file_format(lines: &Vec<String>) -> (r: Result<&'static str, FormatError>)
    ensures
        match r {
            Ok(s) => spec_detect_file(lines.deep_view()) == Ok::<Seq<char>, FormatError>(s@),
            Err(e) => spec_detect_file(lines.deep_view()) == Err::<Seq<char>, FormatError>(e),
        },
{
    let ghost lsv = lines.deep_view();
    let mut sample: Vec<String> = Vec::new();
    let mut i: usize = 0;
    let n = lines.len();
    proof {
        assert(lsv.len() == n);
        assert(sample.deep_view() =~= Seq::<Seq<char>>::empty());
        assert(sample.deep_view() + spec_sample_from(lsv, 0, 10) =~= spec_sample_from(lsv, 0, 10));
    }
    while i < n && sample.len() < 10
        invariant
            i <= n,
            n == lines@.len(),
            lsv == lines.deep_view(),
            sample@.len() <= 10,
            spec_sample(lsv) == sample.deep_view() + spec_sample_from(
                lsv,
                i as int,
                10 - sample@.len(),
            ),
        decreases n - i,
    {
        let ghost pre = sample.deep_view();
        let li = &lines[i];
        if !li.as_str().is_empty() {
            sample.push(li.clone());
            proof {
                assert(lsv[i as int] == lines@[i as int]@);
                assert(sample.deep_view() =~= pre.push(lsv[i as int]));
                let rest = spec_sample_from(lsv, i + 1, 10 - sample@.len());
                assert(pre + (seq![lsv[i as int]] + rest) =~= sample.deep_view() + rest);
            }
        } else {
            proof {
                assert(lsv[i as int] == lines@[i as int]@);
                assert(lsv[i as int].len() == 0);
            }
        }
        i = i + 1;
    }
    proof {
        assert(spec_sample_from(lsv, i as int, 10 - sample@.len()) =~= Seq::<Seq<char>>::empty());
        assert(sample.deep_view() + Seq::<Seq<char>>::empty() =~= sample.deep_view());
        assert(spec_sample(lsv) == sample.deep_view());
    }
    if sample.len() == 0 {
        return Err(FormatError::EmptyFileError);
    }
    let ghost smp = sample.deep_view();
    let cands = candidate_formats();
    let cn = cands.len();
    let mut ci: usize = 0;
    while ci < cn
        invariant
            ci <= cn,
            cn == spec_candidates().len(),
            cands@.len() == cn,
            forall|q: int| 0 <= q < cn ==> (#[trigger] cands@[q])@ == spec_candidates()[q],
            smp == sample.deep_view(),
            smp.len() > 0,
            lsv == lines.deep_view(),
            spec_detect_file(lsv) == spec_detect_file_from(smp, ci as int),
        decreases cn - ci,
    {
        let cand = cands[ci];
        match compile(cand) {
            Err(_) => {},
            Ok(p) => {
                let mut all = true;
                let mut k: usize = 0;
                while k < sample.len()
                    invariant
                        k <= sample@.len(),
                        smp == sample.deep_view(),
                        all == (forall|q: int|
                            0 <= q < k ==> spec_find(p.matchers@, #[trigger] smp[q]) is Some),
                    decreases sample@.len() - k,
                {
                    let lk = &sample[k];
                    let chars = chars_of(lk.as_str());
                    proof {
                        assert(chars@ == smp[k as int]);
                    }
                    match find_match(&p.matchers, &chars) {
                        Some(_) => {},
                        None => {
                            all = false;
                        },
                    }
                    k = k + 1;
                }
                if all {
                    proof {
                        assert(all_sample_match(p.matchers@, smp));
                        assert((cands@[ci as int])@ == spec_candidates()[ci as int]);
                        assert(spec_detect_file_from(smp, ci as int) == Ok::<
                            Seq<char>,
                            FormatError,
                        >(spec_candidates()[ci as int]));
                    }
                    return Ok(cand);
                }
                proof {
                    assert(!all_sample_match(p.matchers@, smp));
                }
            },
        }
        ci = ci + 1;
    }
    Err(FormatError::NoFormatDetectedError)
}

proof fn lemma_detect_file_from_consistent(smp: Seq<Seq<char>>, i: int, e: Seq<char>)
    requires
        0 <= i,
        spec_detect_file_from(smp, i) == Ok::<Seq<char>, FormatError>(e),
    ensures
        spec_compile(e) is Ok,
        all_sample_match(spec_compile(e)->Ok_0.0, smp),
    decreases spec_candidates().len() - i,
{
    if i < spec_candidates().len() {
        let c = spec_candidates()[i];
        if spec_compile(c) is Ok && all_sample_match(spec_compile(c)->Ok_0.0, smp) {
        } else {
            lemma_detect_file_from_consistent(smp, i + 1, e);
        }
    }
}

/// A detected expression is consistent over the whole bounded sample: the
/// canonical expression that `detect_file_format` returns compiles, and
/// its pattern matches every sampled line of the file.
pub proof fn lemma_detect_file_consistent(ls: Seq<Seq<char>>, e: Seq<char>)
    requires
        spec_detect_file(ls) == Ok::<Seq<char>, FormatError>(e),
    ensures
        spec_compile(e) is Ok,
        all_sample_match(spec_compile(e)->Ok_0.0, spec_sample(ls)),
{
    lemma_detect_file_from_consistent(spec_sample(ls), 0, e);
}

proof fn lemma_detect_file_from_undetected(smp: Seq<Seq<char>>, i: int)
    requires
        0 <= i,
        smp.len() > 0,
        forall|q: int|
            0 <= q < spec_candidates().len() && spec_compile(
                #[trigger] spec_candidates()[q],
            ) is Ok ==> !(spec_find(spec_compile(spec_candidates()[q])->Ok_0.0, smp[0]) is Some),
    ensures
        spec_detect_file_from(smp, i) == Err::<Seq<char>, FormatError>(
            FormatError::NoFormatDetectedError,
        ),
    decreases spec_candidates().len() - i,
{
    if i < spec_candidates().len() {
        let c = spec_candidates()[i];
        if spec_compile(c) is Ok {
            assert(!(spec_find(spec_compile(c)->Ok_0.0, smp[0]) is Some));
            assert(!all_sample_match(spec_compile(c)->Ok_0.0, smp));
        }
        lemma_detect_file_from_undetected(smp, i + 1);
    }
}

/// When no registry candidate matches any sampled line of a non-empty
/// sample, file-format detection fails with `NoFormatDetectedError`.
pub proof fn lemma_detect_file_undetected(ls: Seq<Seq<char>>)
    requires
        spec_sample(ls).len() > 0,
        forall|q: int, k: int|
            0 <= q < spec_candidates().len() && 0 <= k < spec_sample(ls).len() && spec_compile(
                #[trigger] spec_candidates()[q],
            ) is Ok ==> !(spec_find(
                spec_compile(spec_candidates()[q])->Ok_0.0,
                #[trigger] spec_sample(ls)[k],
            ) is Some),
    ensures
        spec_detect_file(ls) == Err::<Seq<char>, FormatError>(FormatError::NoFormatDetectedError),
{
    assert forall|q: int|
        0 <= q < spec_candidates().len() && spec_compile(
            #[trigger] spec_candidates()[q],
        ) is Ok implies !(spec_find(
        spec_compile(spec_candidates()[q])->Ok_0.0,
        spec_sample(ls)[0],
    ) is Some) by {
        assert(0 <= 0 < spec_sample(ls).len());
    }
    lemma_detect_file_from_undetected(spec_sample(ls), 0);
}

} // verus!
