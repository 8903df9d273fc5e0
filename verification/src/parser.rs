use vstd::prelude::*;
use vstd::string::*;

use crate::errors::FormatError;
use crate::pieces::{FormatPiece, Tok, has_field, is_field_tok};

verus! {

/// Whitespace characters; a run of them in a literal collapses to a single
/// one-or-more-whitespace matcher.
pub open spec fn is_ws_char(c: char) -> bool {
    c == ' ' || c == '\t' || c == '\r' || c == '\n'
}

/// Pattern metacharacters that are escaped inside a literal separator.
/// Closing brackets and braces match literally and are left unescaped.
pub open spec fn is_meta_char(c: char) -> bool {
    ||| c == '.'
    ||| c == '|'
    ||| c == '?'
    ||| c == '*'
    ||| c == '+'
    ||| c == '('
    ||| c == ')'
    ||| c == '{'
    ||| c == '['
    ||| c == '^'
    ||| c == '$'
    ||| c == '\\'
}

/// Escaped form of the literal run `l` from index `i` on; `prev_ws` records
/// whether the previously consumed character was whitespace, so that a
/// whole whitespace run produces a single `\s+`.
pub open spec fn escape_from(l: Seq<char>, i: int, prev_ws: bool) -> Seq<char>
    decreases l.len() - i,
{
    if i < 0 || i >= l.len() {
        Seq::empty()
    } else if is_ws_char(l[i]) {
        if prev_ws {
            escape_from(l, i + 1, true)
        } else {
            seq!['\\', 's', '+'] + escape_from(l, i + 1, true)
        }
    } else if is_meta_char(l[i]) {
        seq!['\\', l[i]] + escape_from(l, i + 1, false)
    } else {
        seq![l[i]] + escape_from(l, i + 1, false)
    }
}

/// Escaped form of a whole literal run.
pub open spec fn escape_literal(l: Seq<char>) -> Seq<char> {
    escape_from(l, 0, false)
}

/// Longest keyword of the token vocabulary starting at position `i`, with
/// its length.  Keywords are tried longest first, so `MMM` is never split
/// into `MM` plus a stray `M`.
pub open spec fn keyword_at(s: Seq<char>, i: int) -> Option<(Tok, int)> {
    if i + 4 <= s.len() && s[i] == 'Y' && s[i + 1] == 'Y' && s[i + 2] == 'Y' && s[i + 3] == 'Y' {
        Some((Tok::Year, 4))
    } else if i + 3 <= s.len() && s[i] == 'M' && s[i + 1] == 'M' && s[i + 2] == 'M' {
        Some((Tok::MonthShortName, 3))
    } else if i + 3 <= s.len() && s[i] == 'T' && s[i + 1] == 'Z' && s[i + 2] == 'D' {
        Some((Tok::TimeZone, 3))
    } else if i + 2 <= s.len() && s[i] == 'M' && s[i + 1] == 'M' {
        Some((Tok::Month, 2))
    } else if i + 2 <= s.len() && s[i] == 'D' && s[i + 1] == 'D' {
        Some((Tok::Day, 2))
    } else if i + 2 <= s.len() && s[i] == 'h' && s[i + 1] == 'h' {
        Some((Tok::Hour, 2))
    } else if i + 2 <= s.len() && s[i] == 'm' && s[i + 1] == 'm' {
        Some((Tok::Minute, 2))
    } else if i + 2 <= s.len() && s[i] == 's' && s[i + 1] == 's' {
        Some((Tok::Second, 2))
    } else if i < s.len() && s[i] == 's' {
        Some((Tok::Fraction, 1))
    } else {
        None
    }
}

/// Appends the pending literal, if any, as a separator token.
pub open spec fn flush(acc: Seq<Tok>, lit: Seq<char>) -> Seq<Tok> {
    if lit.len() == 0 {
        acc
    } else {
        acc.push(Tok::Separator(escape_literal(lit)))
    }
}

/// The scan state machine: at each position the longest keyword is taken if
/// one starts there (flushing the pending literal first); otherwise the
/// character joins the pending literal.  Input ending flushes the literal.
pub open spec fn scan_from(s: Seq<char>, i: int, lit: Seq<char>, acc: Seq<Tok>) -> Seq<Tok>
    decreases s.len() - i,
{
    if i < 0 || i >= s.len() {
        flush(acc, lit)
    } else {
        match keyword_at(s, i) {
            Some((t, k)) => scan_from(s, i + k, Seq::empty(), flush(acc, lit).push(t)),
            None => scan_from(s, i + 1, lit.push(s[i]), acc),
        }
    }
}

/// Every character of the expression is the fraction keyword.
pub open spec fn all_fraction_chars(s: Seq<char>) -> bool {
    forall|i: int| 0 <= i < s.len() ==> #[trigger] s[i] == 's'
}

/// Token sequence of a format expression.  An expression that is one
/// unbroken run of the fraction keyword denotes the raw-epoch form and
/// yields one fraction token per character; any other expression is
/// scanned with longest-keyword-first lookup.
pub open spec fn spec_tokens(s: Seq<char>) -> Seq<Tok> {
    if s.len() > 0 && all_fraction_chars(s) {
        Seq::new(s.len(), |i: int| Tok::Fraction)
    } else {
        scan_from(s, 0, Seq::empty(), Seq::empty())
    }
}

/// Result of parsing: the token sequence, unless it holds no field token.
pub open spec fn spec_parse(s: Seq<char>) -> Result<Seq<Tok>, FormatError> {
    if has_field(spec_tokens(s)) {
        Ok(spec_tokens(s))
    } else {
        Err(FormatError::EmptyFormatError)
    }
}

/// A format expression whose token sequence holds no field token always
/// fails to parse, and always with `EmptyFormatError`.
pub proof fn lemma_parse_no_fields(s: Seq<char>)
    requires
        !has_field(spec_tokens(s)),
    ensures
        spec_parse(s) == Err::<Seq<Tok>, FormatError>(FormatError::EmptyFormatError),
{
}

fn is_ws_exec(c: char) -> (b: bool)
    ensures
        b == is_ws_char(c),
{
    c == ' ' || c == '\t' || c == '\r' || c == '\n'
}

fn is_meta_exec(c: char) -> (b: bool)
    ensures
        b == is_meta_char(c),
{
    c == '.' || c == '|' || c == '?' || c == '*' || c == '+' || c == '(' || c == ')' || c == '{'
        || c == '[' || c == '^' || c == '$' || c == '\\'
}

/// Builds the escaped separator text for the literal run `s[from..to]`.
fn escape_range(s: &str, from: usize, to: usize) -> (r: String)
    requires
        from <= to <= s@.len(),
    ensures
        r@ == escape_literal(s@.subrange(from as int, to as int)),
{
    let ghost sub = s@.subrange(from as int, to as int);
    let mut out = String::new();
    let mut j: usize = from;
    let mut prev_ws = false;
    proof {
        assert(out@ + escape_from(sub, 0, false) =~= escape_from(sub, 0, false));
    }
    while j < to
        invariant
            from <= j <= to <= s@.len(),
            sub == s@.subrange(from as int, to as int),
            escape_literal(sub) == out@ + escape_from(sub, j - from, prev_ws),
        decreases to - j,
    {
        let c = s.get_char(j);
        proof {
            assert(sub[j - from] == s@[j as int]);
        }
        if is_ws_exec(c) {
            if !prev_ws {
                out.append("\\s+");
                proof {
                    reveal_strlit("\\s+");
                    assert("\\s+"@ =~= seq!['\\', 's', '+']);
                }
            }
            prev_ws = true;
        } else if is_meta_exec(c) {
            out.append("\\");
            let piece = s.substring_char(j, j + 1);
            out.append(piece);
            proof {
                reveal_strlit("\\");
                assert("\\"@ =~= seq!['\\']);
                assert(piece@ =~= seq![sub[j - from]]);
            }
            prev_ws = false;
        } else {
            let piece = s.substring_char(j, j + 1);
            out.append(piece);
            proof {
                assert(piece@ =~= seq![sub[j - from]]);
            }
            prev_ws = false;
        }
        j = j + 1;
        proof {
            assert(escape_literal(sub) == out@ + escape_from(sub, j - from, prev_ws));
        }
    }
    proof {
        assert(escape_from(sub, to - from, prev_ws) =~= Seq::<char>::empty());
        assert(out@ =~= out@ + Seq::<char>::empty());
    }
    out
}

/// Longest keyword starting at character `i`, as an executable lookup.
fn keyword_at_exec(s: &str, i: usize, n: usize) -> (r: Option<(FormatPiece, usize)>)
    requires
        n == s@.len(),
        i < n,
    ensures
        match r {
            Some(pk) => {
                &&& keyword_at(s@, i as int) == Some((pk.0.deep_view(), pk.1 as int))
                &&& 1 <= pk.1 <= 4
                &&& i + pk.1 <= n
            },
            None => keyword_at(s@, i as int) is None,
        },
{
    let c0 = s.get_char(i);
    if n - i >= 4 && c0 == 'Y' && s.get_char(i + 1) == 'Y' && s.get_char(i + 2) == 'Y'
        && s.get_char(i + 3) == 'Y' {
        Some((FormatPiece::Year, 4))
    } else if n - i >= 3 && c0 == 'M' && s.get_char(i + 1) == 'M' && s.get_char(i + 2) == 'M' {
        Some((FormatPiece::MonthShortName, 3))
    } else if n - i >= 3 && c0 == 'T' && s.get_char(i + 1) == 'Z' && s.get_char(i + 2) == 'D' {
        Some((FormatPiece::TimeZone, 3))
    } else if n - i >= 2 && c0 == 'M' && s.get_char(i + 1) == 'M' {
        Some((FormatPiece::Month, 2))
    } else if n - i >= 2 && c0 == 'D' && s.get_char(i + 1) == 'D' {
        Some((FormatPiece::Day, 2))
    } else if n - i >= 2 && c0 == 'h' && s.get_char(i + 1) == 'h' {
        Some((FormatPiece::Hour, 2))
    } else if n - i >= 2 && c0 == 'm' && s.get_char(i + 1) == 'm' {
        Some((FormatPiece::Minute, 2))
    } else if n - i >= 2 && c0 == 's' && s.get_char(i + 1) == 's' {
        Some((FormatPiece::Second, 2))
    } else if c0 == 's' {
        Some((FormatPiece::Fraction, 1))
    } else {
        None
    }
}

/// Compiles a format expression string into its ordered token sequence.
///
/// Scans left to right taking the longest keyword at each position;
/// unrecognized characters accumulate into literal separators whose
/// whitespace runs collapse to `\s+` and whose metacharacters are escaped.
/// Fails with `EmptyFormatError` if and only if the scan yields no field
/// token, so an expression with no field tokens is never accepted.
pub fn parse(expression: &str) -> (r: Result<Vec<FormatPiece>, FormatError>)
    ensures
        r is Ok <==> has_field(spec_tokens(expression@)),
        r matches Ok(ps) ==> ps.deep_view() == spec_tokens(expression@),
        r matches Err(e) ==> e == FormatError::EmptyFormatError,
        r is Ok <==> spec_parse(expression@) is Ok,
        r matches Ok(ps) ==> spec_parse(expression@) == Ok::<Seq<Tok>, FormatError>(ps.deep_view()),
{
    let n = expression.unicode_len();

    // Raw-epoch form: the whole expression is a run of the fraction keyword.
    let mut all_s = true;
    let mut i: usize = 0;
    while i < n
        invariant
            i <= n,
            n == expression@.len(),
            all_s == (forall|j: int| 0 <= j < i ==> #[trigger] expression@[j] == 's'),
        decreases n - i,
    {
        let c = expression.get_char(i);
        if c != 's' {
            all_s = false;
        }
        i = i + 1;
    }
    if n > 0 && all_s {
        assert(all_fraction_chars(expression@));
        let mut pieces: Vec<FormatPiece> = Vec::new();
        let mut k: usize = 0;
        while k < n
            invariant
                k <= n,
                pieces.deep_view() =~= Seq::new(k as nat, |i: int| Tok::Fraction),
            decreases n - k,
        {
            pieces.push(FormatPiece::Fraction);
            proof {
                assert(pieces.deep_view() =~= Seq::new(k as nat, |i: int| Tok::Fraction).push(
                    Tok::Fraction));
                assert(Seq::new(k as nat, |i: int| Tok::Fraction).push(Tok::Fraction) =~= Seq::new(
                    (k + 1) as nat,
                    |i: int| Tok::Fraction,
                ));
            }
            k = k + 1;
        }
        proof {
            assert(spec_tokens(expression@) =~= pieces.deep_view());
            assert(is_field_tok(spec_tokens(expression@)[0]));
        }
        return Ok(pieces);
    }

    // General scan with a pending literal run `expression[lit_start..i]`.
    let mut pieces: Vec<FormatPiece> = Vec::new();
    let mut idx: usize = 0;
    let mut lit_start: usize = 0;
    proof {
        assert(expression@.subrange(0, 0) =~= Seq::<char>::empty());
        assert(pieces.deep_view() =~= Seq::<Tok>::empty());
    }
    while idx < n
        invariant
            lit_start <= idx <= n,
            n == expression@.len(),
            scan_from(expression@, 0, Seq::empty(), Seq::empty()) == scan_from(
                expression@,
                idx as int,
                expression@.subrange(lit_start as int, idx as int),
                pieces.deep_view(),
            ),
        decreases n - idx,
    {
        let ghost lit = expression@.subrange(lit_start as int, idx as int);
        match keyword_at_exec(expression, idx, n) {
            Some((p, k)) => {
                let ghost acc0 = pieces.deep_view();
                if lit_start < idx {
                    let sep = escape_range(expression, lit_start, idx);
                    pieces.push(FormatPiece::Separator(sep));
                    proof {
                        assert(pieces.deep_view() =~= flush(acc0, lit));
                    }
                } else {
                    proof {
                        assert(lit =~= Seq::<char>::empty());
                        assert(pieces.deep_view() =~= flush(acc0, lit));
                    }
                }
                let ghost t = p.deep_view();
                let ghost flushed = pieces.deep_view();
                pieces.push(p);
                proof {
                    assert(pieces.deep_view() =~= flushed.push(t));
                    assert(flushed =~= flush(acc0, lit));
                }
                idx = idx + k;
                lit_start = idx;
                proof {
                    assert(expression@.subrange(lit_start as int, idx as int) =~= Seq::<
                        char,
                    >::empty());
                }
            },
            None => {
                idx = idx + 1;
                proof {
                    assert(expression@.subrange(lit_start as int, idx as int) =~= lit.push(
                        expression@[idx - 1]));
                }
            },
        }
    }
    if lit_start < n {
        let ghost acc0 = pieces.deep_view();
        let ghost lit = expression@.subrange(lit_start as int, n as int);
        let sep = escape_range(expression, lit_start, n);
        pieces.push(FormatPiece::Separator(sep));
        proof {
            assert(pieces.deep_view() =~= flush(acc0, lit));
        }
    } else {
        proof {
            assert(expression@.subrange(lit_start as int, n as int) =~= Seq::<char>::empty());
        }
    }
    proof {
        assert(!(expression@.len() > 0 && all_fraction_chars(expression@)));
        assert(spec_tokens(expression@) == pieces.deep_view());
    }

    // The expression is rejected unless some field token was produced.
    let mut found = false;
    let mut k: usize = 0;
    while k < pieces.len()
        invariant
            k <= pieces.len(),
            pieces.deep_view() == spec_tokens(expression@),
            found == (exists|j: int|
                0 <= j < k && is_field_tok(#[trigger] pieces.deep_view()[j])),
        decreases pieces.len() - k,
    {
        match &pieces[k] {
            FormatPiece::Separator(_) => {},
            _ => {
                proof {
                    assert(is_field_tok(pieces.deep_view()[k as int]));
                }
                found = true;
            },
        }
        k = k + 1;
    }
    if found {
        Ok(pieces)
    } else {
        assert(!has_field(spec_tokens(expression@)));
        Err(FormatError::EmptyFormatError)
    }
}

} // verus!
