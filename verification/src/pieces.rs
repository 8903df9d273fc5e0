use vstd::prelude::*;

verus! {

/// One element of a parsed format expression: a field token, or a literal
/// separator holding its escaped text (whitespace runs collapsed to `\s+`,
/// metacharacters escaped).
#[derive(Debug, PartialEq, Eq)]
pub enum FormatPiece {
    Year,
    Month,
    MonthShortName,
    Day,
    Hour,
    Minute,
    Second,
    Fraction,
    TimeZone,
    Separator(String),
}

/// Mathematical form of a format piece: identical to `FormatPiece`, with the
/// separator text abstracted to its character sequence.
pub enum Tok {
    Year,
    Month,
    MonthShortName,
    Day,
    Hour,
    Minute,
    Second,
    Fraction,
    TimeZone,
    Separator(Seq<char>),
}

impl DeepView for FormatPiece {
    type V = Tok;

    open spec fn deep_view(&self) -> Tok {
        match self {
            FormatPiece::Year => Tok::Year,
            FormatPiece::Month => Tok::Month,
            FormatPiece::MonthShortName => Tok::MonthShortName,
            FormatPiece::Day => Tok::Day,
            FormatPiece::Hour => Tok::Hour,
            FormatPiece::Minute => Tok::Minute,
            FormatPiece::Second => Tok::Second,
            FormatPiece::Fraction => Tok::Fraction,
            FormatPiece::TimeZone => Tok::TimeZone,
            FormatPiece::Separator(s) => Tok::Separator(s@),
        }
    }
}

/// A field token is any token other than a separator.
pub open spec fn is_field_tok(t: Tok) -> bool {
    !(t is Separator)
}

/// The token sequence contains at least one field token.
pub open spec fn has_field(ts: Seq<Tok>) -> bool {
    exists|i: int| 0 <= i < ts.len() && is_field_tok(#[trigger] ts[i])
}

/// Every token of the sequence is a fraction token (the raw-epoch form).
pub open spec fn all_fraction_toks(ts: Seq<Tok>) -> bool {
    forall|i: int| 0 <= i < ts.len() ==> #[trigger] ts[i] is Fraction
}

} // verus!
