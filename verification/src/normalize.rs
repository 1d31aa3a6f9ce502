//! The field normalizers: the transforms applied to both sides of a comparison
//! before the equality test.

use crate::cells::opt_text;
use crate::dates::{canonical_date, reformat_date};
use crate::text::{
    collapse_whitespace, collapsed, lemma_collapsed_idempotent, lowercase, lowercased, same_text,
    tail, tail_chars,
};
use vstd::prelude::*;

verus! {

/// How many trailing characters of a phone number are compared.
pub const PHONE_SUFFIX: usize = 9;

/// The transforms that a comparison rule can apply to a value.
#[derive(Clone, Copy, Debug, PartialEq, Eq, Structural)]
pub enum Normalizer {
    /// Lowercase, then whitespace collapsed: for names.
    Name,
    /// Lowercase: for email addresses.
    Email,
    /// The last nine characters: for phone numbers.
    Phone,
    /// An ISO calendar date (`2015-03-07`), rewritten canonically.
    ExtranetDate,
    /// A date as day, month name and year (`7 March 2015`), rewritten
    /// canonically.
    OperooDate,
}

/// The `strftime` pattern of Extranet's dates: year, month and day, as in
/// `2015-03-07`.
pub const EXTRANET_DATE_FORMAT: &'static str = "%F";

/// The `strftime` pattern of Operoo's dates: day, month name and year, as in
/// `7 March 2015`.
pub const OPEROO_DATE_FORMAT: &'static str = "%e %B %Y";

/// The `strftime` pattern of Extranet's dates.
pub open spec fn extranet_date_format() -> Seq<char> {
    EXTRANET_DATE_FORMAT@
}

/// The `strftime` pattern of Operoo's dates.
pub open spec fn operoo_date_format() -> Seq<char> {
    OPEROO_DATE_FORMAT@
}

/// A name in normal form: lowercased, its words joined by single spaces.
pub open spec fn name_normal(text: Seq<char>) -> Seq<char> {
    collapsed(lowercased(text))
}

/// An email address in normal form: lowercased.
pub open spec fn email_normal(text: Seq<char>) -> Seq<char> {
    lowercased(text)
}

/// A phone number in normal form: its last nine characters, or all of it where
/// it has fewer.
pub open spec fn phone_normal(text: Seq<char>) -> Seq<char> {
    tail(text, PHONE_SUFFIX as nat)
}

/// A date in normal form: its canonical form, or the empty text where `text`
/// spells no date under `format`. The empty text is no date's canonical form,
/// so it equals no normal form but that of another text that spells no date.
pub open spec fn date_normal(text: Seq<char>, format: Seq<char>) -> Seq<char> {
    match canonical_date(text, format) {
        Some(date) => date,
        None => Seq::empty(),
    }
}

/// What a normalizer makes of a text.
pub open spec fn normal_form(rule: Normalizer, text: Seq<char>) -> Seq<char> {
    match rule {
        Normalizer::Name => name_normal(text),
        Normalizer::Email => email_normal(text),
        Normalizer::Phone => phone_normal(text),
        Normalizer::ExtranetDate => date_normal(text, extranet_date_format()),
        Normalizer::OperooDate => date_normal(text, operoo_date_format()),
    }
}

/// What a normalizer makes of an optional value: a missing value stays missing.
pub open spec fn normal_form_opt(rule: Normalizer, value: Option<Seq<char>>) -> Option<Seq<char>> {
    match value {
        Some(text) => Some(normal_form(rule, text)),
        None => None,
    }
}

/// Normalizes a name for comparison.
pub fn name_normalize(text: &str) -> (out: String)
    ensures
        out@ == name_normal(text@),
{
    let lower = lowercase(text);
    collapse_whitespace(lower.as_str())
}

/// Normalizes an email address for comparison.
pub fn email_normalize(text: &str) -> (out: String)
    ensures
        out@ == email_normal(text@),
{
    lowercase(text)
}

/// Normalizes a phone number for comparison. A number of fewer than nine
/// characters is kept whole.
pub fn phone_normalize(text: &str) -> (out: String)
    ensures
        out@ == phone_normal(text@),
{
    tail_chars(text, PHONE_SUFFIX)
}

/// Normalizes one of Extranet's dates. A text that is no ISO date becomes the
/// empty text, which no date is written as.
pub fn extranet_date_normalize(text: &str) -> (out: String)
    ensures
        out@ == date_normal(text@, extranet_date_format()),
{
    match reformat_date(text, EXTRANET_DATE_FORMAT) {
        Some(date) => date,
        None => String::new(),
    }
}

/// Normalizes one of Operoo's dates. A text that is no date of the form
/// `7 March 2015` becomes the empty text, which no date is written as.
pub fn operoo_date_normalize(text: &str) -> (out: String)
    ensures
        out@ == date_normal(text@, operoo_date_format()),
{
    match reformat_date(text, OPEROO_DATE_FORMAT) {
        Some(date) => date,
        None => String::new(),
    }
}

impl Normalizer {
    /// Applies the normalizer to a text.
    pub fn apply(&self, text: &str) -> (out: String)
        ensures
            out@ == normal_form(*self, text@),
    {
        match self {
            Normalizer::Name => name_normalize(text),
            Normalizer::Email => email_normalize(text),
            Normalizer::Phone => phone_normalize(text),
            Normalizer::ExtranetDate => extranet_date_normalize(text),
            Normalizer::OperooDate => operoo_date_normalize(text),
        }
    }

    /// Applies the normalizer to an optional value: a missing value stays
    /// missing.
    pub fn apply_opt(&self, value: &Option<String>) -> (out: Option<String>)
        ensures
            opt_text(out) == normal_form_opt(*self, opt_text(*value)),
    {
        match value {
            Some(text) => Some(self.apply(text.as_str())),
            None => None,
        }
    }
}

/// Two normalized dates are equal exactly when the dates are: both texts spell
/// the same date, or neither spells a date.
pub proof fn lemma_date_normal_equal(
    ours: Seq<char>,
    our_format: Seq<char>,
    theirs: Seq<char>,
    their_format: Seq<char>,
)
    ensures
        date_normal(ours, our_format) == date_normal(theirs, their_format) <==> canonical_date(
            ours,
            our_format,
        ) == canonical_date(theirs, their_format),
{
}

/// Whether lowercasing leaves a name's normal form as it is.
pub open spec fn is_stable_name(text: Seq<char>) -> bool {
    lowercased(name_normal(text)) == name_normal(text)
}

/// Normalizing a name twice gives what normalizing it once gives, for every
/// name whose normal form lowercasing leaves as it is.
pub proof fn lemma_name_normal_idempotent(text: Seq<char>)
    requires
        is_stable_name(text),
    ensures
        name_normal(name_normal(text)) == name_normal(text),
{
    lemma_collapsed_idempotent(lowercased(text));
}

/// Tests whether lowercasing leaves a name's normal form as it is. Where it
/// does, normalizing the name twice gives what normalizing it once gives.
pub fn name_is_stable(text: &str) -> (stable: bool)
    ensures
        stable == is_stable_name(text@),
        stable ==> name_normal(name_normal(text@)) == name_normal(text@),
{
    let normal = name_normalize(text);
    let lower = lowercase(normal.as_str());
    let stable = same_text(lower.as_str(), normal.as_str());
    proof {
        if stable {
            lemma_name_normal_idempotent(text@);
        }
    }
    stable
}

} // verus!
