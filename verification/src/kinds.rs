//! The closed sets that the reconciliation speaks of: the two sources, the five
//! comparison rules, and the seven discrepancy tables with their names.

use vstd::prelude::*;

verus! {

/// One of the two systems of record.
#[derive(Clone, Copy, Debug, PartialEq, Eq, Structural)]
pub enum Source {
    /// The delimited-text export.
    Extranet,
    /// The spreadsheet export.
    Operoo,
}

/// The comparisons made on records that both sources hold.
#[derive(Clone, Copy, Debug, PartialEq, Eq, Structural)]
pub enum MatchRule {
    /// `FullName` against `Person Name`.
    Names,
    /// The primary contact's first name and surname against
    /// `Profile Owner's Name `.
    ContactNames,
    /// `Primary Contact Email` against `Profile Owner's Email`.
    ContactEmails,
    /// `Primary Contact Mobile` against `Profile Owner's Mobile Phone`.
    ContactMobiles,
    /// `DOB` against `Person Birth Date`.
    BirthDates,
}

/// The discrepancy tables, in the order of their names.
#[derive(Clone, Copy, Debug, PartialEq, Eq, Structural)]
pub enum TableKind {
    DifferentDateOfBirth,
    DifferentNames,
    DifferentPrimaryContactEmails,
    DifferentPrimaryContactMobileNumbers,
    DifferentPrimaryContactNames,
    MissingFromExtranet,
    MissingFromOperoo,
}

/// The table that lists the records which `source` lacks.
pub open spec fn missing_kind(source: Source) -> TableKind {
    match source {
        Source::Extranet => TableKind::MissingFromExtranet,
        Source::Operoo => TableKind::MissingFromOperoo,
    }
}

/// The table that a comparison rule fills.
pub open spec fn rule_kind(rule: MatchRule) -> TableKind {
    match rule {
        MatchRule::Names => TableKind::DifferentNames,
        MatchRule::ContactNames => TableKind::DifferentPrimaryContactNames,
        MatchRule::ContactEmails => TableKind::DifferentPrimaryContactEmails,
        MatchRule::ContactMobiles => TableKind::DifferentPrimaryContactMobileNumbers,
        MatchRule::BirthDates => TableKind::DifferentDateOfBirth,
    }
}

/// Whether a table lists the records that one source lacks, and so has the
/// columns `RegID` and `Name`; the others have `RegID`, `Extranet` and
/// `Operoo`.
pub open spec fn lists_missing(kind: TableKind) -> bool {
    kind is MissingFromExtranet || kind is MissingFromOperoo
}

/// The name under which a table is reported.
pub open spec fn kind_name(kind: TableKind) -> Seq<char> {
    match kind {
        TableKind::DifferentDateOfBirth => "Different Date of Birth"@,
        TableKind::DifferentNames => "Different Names"@,
        TableKind::DifferentPrimaryContactEmails => "Different Primary Contact Emails"@,
        TableKind::DifferentPrimaryContactMobileNumbers => "Different Primary Contact Mobile Numbers"@,
        TableKind::DifferentPrimaryContactNames => "Different Primary Contact Names"@,
        TableKind::MissingFromExtranet => "Missing from Extranet"@,
        TableKind::MissingFromOperoo => "Missing from Operoo"@,
    }
}

/// The place of a table among the seven, counted from zero in the order of
/// their names.
pub open spec fn kind_rank(kind: TableKind) -> nat {
    match kind {
        TableKind::DifferentDateOfBirth => 0,
        TableKind::DifferentNames => 1,
        TableKind::DifferentPrimaryContactEmails => 2,
        TableKind::DifferentPrimaryContactMobileNumbers => 3,
        TableKind::DifferentPrimaryContactNames => 4,
        TableKind::MissingFromExtranet => 5,
        TableKind::MissingFromOperoo => 6,
    }
}

/// The seven tables in the order of their names.
pub open spec fn all_kinds() -> Seq<TableKind> {
    seq![
        TableKind::DifferentDateOfBirth,
        TableKind::DifferentNames,
        TableKind::DifferentPrimaryContactEmails,
        TableKind::DifferentPrimaryContactMobileNumbers,
        TableKind::DifferentPrimaryContactNames,
        TableKind::MissingFromExtranet,
        TableKind::MissingFromOperoo,
    ]
}

/// Whether `a` comes before `b` in the lexicographic order of texts: at the
/// first place where they differ `a` has the smaller character, or `a` ends
/// first.
pub open spec fn text_before(a: Seq<char>, b: Seq<char>) -> bool
    decreases a.len(),
{
    if b.len() == 0 {
        false
    } else if a.len() == 0 {
        true
    } else if a[0] != b[0] {
        (a[0] as u32) < (b[0] as u32)
    } else {
        text_before(a.drop_first(), b.drop_first())
    }
}

/// Two texts that agree on their first `n` characters, and of which `a` has
/// the smaller character next, are in order.
pub proof fn lemma_text_before_at(a: Seq<char>, b: Seq<char>, n: nat)
    requires
        n < a.len(),
        n < b.len(),
        forall|i: int| 0 <= i < n ==> a[i] == b[i],
        (a[n as int] as u32) < (b[n as int] as u32),
    ensures
        text_before(a, b),
    decreases n,
{
    if n > 0 {
        let ra = a.drop_first();
        let rb = b.drop_first();
        assert forall|i: int| 0 <= i < n - 1 implies ra[i] == rb[i] by {
            assert(ra[i] == a[i + 1]);
            assert(rb[i] == b[i + 1]);
        }
        assert(ra[n - 1] == a[n as int]);
        assert(rb[n - 1] == b[n as int]);
        assert(a[0] == b[0]);
        lemma_text_before_at(ra, rb, (n - 1) as nat);
    }
}

/// The lexicographic order of texts is transitive.
pub proof fn lemma_text_before_transitive(a: Seq<char>, b: Seq<char>, c: Seq<char>)
    requires
        text_before(a, b),
        text_before(b, c),
    ensures
        text_before(a, c),
    decreases a.len(),
{
    if a.len() > 0 && b.len() > 0 && c.len() > 0 && a[0] == b[0] && b[0] == c[0] {
        lemma_text_before_transitive(a.drop_first(), b.drop_first(), c.drop_first());
    }
}

impl Source {
    /// The table that lists the records which this source lacks.
    pub fn missing_table(&self) -> (kind: TableKind)
        ensures
            kind == missing_kind(*self),
    {
        match self {
            Source::Extranet => TableKind::MissingFromExtranet,
            Source::Operoo => TableKind::MissingFromOperoo,
        }
    }
}

impl MatchRule {
    /// The table that this rule fills.
    pub fn table(&self) -> (kind: TableKind)
        ensures
            kind == rule_kind(*self),
    {
        match self {
            MatchRule::Names => TableKind::DifferentNames,
            MatchRule::ContactNames => TableKind::DifferentPrimaryContactNames,
            MatchRule::ContactEmails => TableKind::DifferentPrimaryContactEmails,
            MatchRule::ContactMobiles => TableKind::DifferentPrimaryContactMobileNumbers,
            MatchRule::BirthDates => TableKind::DifferentDateOfBirth,
        }
    }
}

impl TableKind {
    /// The name under which the table is reported.
    pub fn name(&self) -> (name: &'static str)
        ensures
            name@ == kind_name(*self),
    {
        match self {
            TableKind::DifferentDateOfBirth => "Different Date of Birth",
            TableKind::DifferentNames => "Different Names",
            TableKind::DifferentPrimaryContactEmails => "Different Primary Contact Emails",
            TableKind::DifferentPrimaryContactMobileNumbers => "Different Primary Contact Mobile Numbers",
            TableKind::DifferentPrimaryContactNames => "Different Primary Contact Names",
            TableKind::MissingFromExtranet => "Missing from Extranet",
            TableKind::MissingFromOperoo => "Missing from Operoo",
        }
    }

    /// The place of the table among the seven, counted from zero in the order
    /// of their names.
    pub fn rank(&self) -> (rank: usize)
        ensures
            rank == kind_rank(*self),
    {
        match self {
            TableKind::DifferentDateOfBirth => 0,
            TableKind::DifferentNames => 1,
            TableKind::DifferentPrimaryContactEmails => 2,
            TableKind::DifferentPrimaryContactMobileNumbers => 3,
            TableKind::DifferentPrimaryContactNames => 4,
            TableKind::MissingFromExtranet => 5,
            TableKind::MissingFromOperoo => 6,
        }
    }
}

/// A table's name comes before the name of the table that follows it.
proof fn lemma_next_name(rank: nat)
    requires
        rank < 6,
    ensures
        text_before(kind_name(all_kinds()[rank as int]), kind_name(all_kinds()[rank as int + 1])),
{
    reveal_strlit("Different Date of Birth");
    reveal_strlit("Different Names");
    reveal_strlit("Different Primary Contact Emails");
    reveal_strlit("Different Primary Contact Mobile Numbers");
    reveal_strlit("Different Primary Contact Names");
    reveal_strlit("Missing from Extranet");
    reveal_strlit("Missing from Operoo");
    let a = kind_name(all_kinds()[rank as int]);
    let b = kind_name(all_kinds()[rank as int + 1]);
    if rank == 0 {
        lemma_text_before_at(a, b, 10);
    } else if rank == 1 {
        lemma_text_before_at(a, b, 10);
    } else if rank == 2 {
        lemma_text_before_at(a, b, 26);
    } else if rank == 3 {
        lemma_text_before_at(a, b, 26);
    } else if rank == 4 {
        lemma_text_before_at(a, b, 0);
    } else {
        lemma_text_before_at(a, b, 13);
    }
}

/// The order of the tables is the lexicographic order of their names.
pub proof fn lemma_kinds_ordered_by_name(a: TableKind, b: TableKind)
    requires
        kind_rank(a) < kind_rank(b),
    ensures
        text_before(kind_name(a), kind_name(b)),
    decreases kind_rank(b),
{
    let before = all_kinds()[kind_rank(b) - 1];
    assert(all_kinds()[kind_rank(b) as int] == b);
    lemma_next_name((kind_rank(b) - 1) as nat);
    if kind_rank(a) < kind_rank(b) - 1 {
        assert(kind_rank(before) == kind_rank(b) - 1);
        lemma_kinds_ordered_by_name(a, before);
        lemma_text_before_transitive(kind_name(a), kind_name(before), kind_name(b));
    } else {
        assert(all_kinds()[kind_rank(a) as int] == a);
    }
}

} // verus!
