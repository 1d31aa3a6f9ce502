//! The result collection: the discrepancy tables that have rows, each under
//! its kind.

use crate::kinds::{
    kind_name, kind_rank, lemma_kinds_ordered_by_name, lists_missing, missing_kind, rule_kind,
    text_before, MatchRule, Source, TableKind,
};
use crate::cells::opt_text;
use vstd::prelude::*;

verus! {

/// A record that one source holds and the other lacks: the columns `RegID`
/// and `Name`.
#[derive(Clone, Debug, PartialEq, Eq)]
pub struct MissingRow {
    pub reg_id: Option<i64>,
    pub name: Option<String>,
}

/// What a `MissingRow` holds.
pub struct MissingEntry {
    pub reg_id: Option<i64>,
    pub name: Option<Seq<char>>,
}

impl View for MissingRow {
    type V = MissingEntry;

    open spec fn view(&self) -> MissingEntry {
        MissingEntry { reg_id: self.reg_id, name: opt_text(self.name) }
    }
}

/// A record on which the two sources disagree: the columns `RegID`,
/// `Extranet` and `Operoo`.
#[derive(Clone, Debug, PartialEq, Eq)]
pub struct MismatchRow {
    pub reg_id: i64,
    pub extranet: String,
    pub operoo: String,
}

/// What a `MismatchRow` holds.
pub struct Mismatch {
    pub reg_id: i64,
    pub extranet: Seq<char>,
    pub operoo: Seq<char>,
}

impl View for MismatchRow {
    type V = Mismatch;

    open spec fn view(&self) -> Mismatch {
        Mismatch { reg_id: self.reg_id, extranet: self.extranet@, operoo: self.operoo@ }
    }
}

/// The rows of one discrepancy table.
pub enum Discrepancies {
    /// The rows of a table of missing records.
    Missing(Seq<MissingEntry>),
    /// The rows of a table of disagreeing records.
    Mismatch(Seq<Mismatch>),
}

impl Discrepancies {
    /// The number of rows.
    pub open spec fn len(self) -> nat {
        match self {
            Discrepancies::Missing(rows) => rows.len(),
            Discrepancies::Mismatch(rows) => rows.len(),
        }
    }
}

/// What a list of missing-record rows holds.
pub open spec fn missing_entries(rows: Seq<MissingRow>) -> Seq<MissingEntry> {
    Seq::new(rows.len(), |i: int| rows[i]@)
}

/// What a list of disagreeing-record rows holds.
pub open spec fn mismatch_entries(rows: Seq<MismatchRow>) -> Seq<Mismatch> {
    Seq::new(rows.len(), |i: int| rows[i]@)
}

/// The collection with `table` under `kind` if the table has rows, and
/// unchanged if it has none.
pub open spec fn with_table(
    tables: Map<TableKind, Discrepancies>,
    kind: TableKind,
    table: Discrepancies,
) -> Map<TableKind, Discrepancies> {
    if table.len() > 0 {
        tables.insert(kind, table)
    } else {
        tables
    }
}

/// The result of a reconciliation: a mapping from the kinds of discrepancy to
/// their tables. A kind without discrepancies is absent.
#[derive(Debug)]
pub struct Report {
    different_date_of_birth: Option<Vec<MismatchRow>>,
    different_names: Option<Vec<MismatchRow>>,
    different_primary_contact_emails: Option<Vec<MismatchRow>>,
    different_primary_contact_mobile_numbers: Option<Vec<MismatchRow>>,
    different_primary_contact_names: Option<Vec<MismatchRow>>,
    missing_from_extranet: Option<Vec<MissingRow>>,
    missing_from_operoo: Option<Vec<MissingRow>>,
}

impl Report {
    spec fn slot(&self, kind: TableKind) -> Option<Discrepancies> {
        match kind {
            TableKind::DifferentDateOfBirth => Self::mismatch_view(self.different_date_of_birth),
            TableKind::DifferentNames => Self::mismatch_view(self.different_names),
            TableKind::DifferentPrimaryContactEmails => Self::mismatch_view(
                self.different_primary_contact_emails,
            ),
            TableKind::DifferentPrimaryContactMobileNumbers => Self::mismatch_view(
                self.different_primary_contact_mobile_numbers,
            ),
            TableKind::DifferentPrimaryContactNames => Self::mismatch_view(
                self.different_primary_contact_names,
            ),
            TableKind::MissingFromExtranet => Self::missing_view(self.missing_from_extranet),
            TableKind::MissingFromOperoo => Self::missing_view(self.missing_from_operoo),
        }
    }

    spec fn mismatch_view(slot: Option<Vec<MismatchRow>>) -> Option<Discrepancies> {
        match slot {
            Some(rows) => Some(Discrepancies::Mismatch(mismatch_entries(rows@))),
            None => None,
        }
    }

    spec fn missing_view(slot: Option<Vec<MissingRow>>) -> Option<Discrepancies> {
        match slot {
            Some(rows) => Some(Discrepancies::Missing(missing_entries(rows@))),
            None => None,
        }
    }

    /// Every table that the collection holds has rows.
    #[verifier::type_invariant]
    spec fn well_formed(&self) -> bool {
        &&& self.different_date_of_birth matches Some(rows) ==> rows.len() > 0
        &&& self.different_names matches Some(rows) ==> rows.len() > 0
        &&& self.different_primary_contact_emails matches Some(rows) ==> rows.len() > 0
        &&& self.different_primary_contact_mobile_numbers matches Some(rows) ==> rows.len() > 0
        &&& self.different_primary_contact_names matches Some(rows) ==> rows.len() > 0
        &&& self.missing_from_extranet matches Some(rows) ==> rows.len() > 0
        &&& self.missing_from_operoo matches Some(rows) ==> rows.len() > 0
    }

    proof fn lemma_view_wf(&self)
        requires
            self.well_formed(),
        ensures
            report_wf(self@),
    {
        assert forall|kind: TableKind| #[trigger] self@.contains_key(kind) implies {
            &&& self@[kind].len() > 0
            &&& self@[kind] is Missing <==> lists_missing(kind)
        } by {
            assert(self.slot(kind) is Some);
        }
    }
}

impl View for Report {
    type V = Map<TableKind, Discrepancies>;

    closed spec fn view(&self) -> Map<TableKind, Discrepancies> {
        Map::new(|kind: TableKind| self.slot(kind) is Some, |kind: TableKind| self.slot(kind)->0)
    }
}

/// Whether a collection of tables is one that a `Report` can hold: each table
/// has rows, and has the columns of its kind.
pub open spec fn report_wf(tables: Map<TableKind, Discrepancies>) -> bool {
    forall|kind: TableKind| #[trigger]
        tables.contains_key(kind) ==> {
            &&& tables[kind].len() > 0
            &&& tables[kind] is Missing <==> lists_missing(kind)
        }
}

impl Report {
    /// The empty collection.
    pub fn new() -> (report: Report)
        ensures
            report@ == Map::<TableKind, Discrepancies>::empty(),
            report_wf(report@),
    {
        let report = Report {
            different_date_of_birth: None,
            different_names: None,
            different_primary_contact_emails: None,
            different_primary_contact_mobile_numbers: None,
            different_primary_contact_names: None,
            missing_from_extranet: None,
            missing_from_operoo: None,
        };
        proof {
            assert(report@ =~= Map::<TableKind, Discrepancies>::empty());
            report.lemma_view_wf();
        }
        report
    }

    /// Puts the table of records that `source` lacks into the collection, if
    /// the table has rows. A table without rows leaves the collection as it
    /// was.
    pub fn insert_missing(&mut self, source: Source, rows: Vec<MissingRow>)
        ensures
            final(self)@ == with_table(
                old(self)@,
                missing_kind(source),
                Discrepancies::Missing(missing_entries(rows@)),
            ),
            report_wf(final(self)@),
    {
        proof {
            use_type_invariant(&*self);
            self.lemma_view_wf();
        }
        let ghost before = *self;
        if rows.len() > 0 {
            match source {
                Source::Extranet => {
                    self.missing_from_extranet = Some(rows);
                },
                Source::Operoo => {
                    self.missing_from_operoo = Some(rows);
                },
            }
            proof {
                self.lemma_view_wf();
                assert(self@ =~= before@.insert(
                    missing_kind(source),
                    Discrepancies::Missing(missing_entries(rows@)),
                ));
            }
        }
    }

    /// Puts the table of a comparison rule into the collection, if the table
    /// has rows. A table without rows leaves the collection as it was.
    pub fn insert_mismatches(&mut self, rule: MatchRule, rows: Vec<MismatchRow>)
        ensures
            final(self)@ == with_table(
                old(self)@,
                rule_kind(rule),
                Discrepancies::Mismatch(mismatch_entries(rows@)),
            ),
            report_wf(final(self)@),
    {
        proof {
            use_type_invariant(&*self);
            self.lemma_view_wf();
        }
        let ghost before = *self;
        if rows.len() > 0 {
            match rule {
                MatchRule::Names => {
                    self.different_names = Some(rows);
                },
                MatchRule::ContactNames => {
                    self.different_primary_contact_names = Some(rows);
                },
                MatchRule::ContactEmails => {
                    self.different_primary_contact_emails = Some(rows);
                },
                MatchRule::ContactMobiles => {
                    self.different_primary_contact_mobile_numbers = Some(rows);
                },
                MatchRule::BirthDates => {
                    self.different_date_of_birth = Some(rows);
                },
            }
            proof {
                self.lemma_view_wf();
                assert(self@ =~= before@.insert(
                    rule_kind(rule),
                    Discrepancies::Mismatch(mismatch_entries(rows@)),
                ));
            }
        }
    }

    /// The table of records that `source` lacks, if there are any.
    pub fn missing(&self, source: Source) -> (rows: Option<&Vec<MissingRow>>)
        ensures
            match rows {
                Some(rows) => self@.contains_key(missing_kind(source)) && self@[missing_kind(
                    source,
                )] == Discrepancies::Missing(missing_entries(rows@)) && rows.len() > 0,
                None => !self@.contains_key(missing_kind(source)),
            },
    {
        proof {
            use_type_invariant(self);
        }
        match source {
            Source::Extranet => self.missing_from_extranet.as_ref(),
            Source::Operoo => self.missing_from_operoo.as_ref(),
        }
    }

    /// The table of a comparison rule, if the rule found anything.
    pub fn mismatches(&self, rule: MatchRule) -> (rows: Option<&Vec<MismatchRow>>)
        ensures
            match rows {
                Some(rows) => self@.contains_key(rule_kind(rule)) && self@[rule_kind(rule)]
                    == Discrepancies::Mismatch(mismatch_entries(rows@)) && rows.len() > 0,
                None => !self@.contains_key(rule_kind(rule)),
            },
    {
        proof {
            use_type_invariant(self);
        }
        match rule {
            MatchRule::Names => self.different_names.as_ref(),
            MatchRule::ContactNames => self.different_primary_contact_names.as_ref(),
            MatchRule::ContactEmails => self.different_primary_contact_emails.as_ref(),
            MatchRule::ContactMobiles => self.different_primary_contact_mobile_numbers.as_ref(),
            MatchRule::BirthDates => self.different_date_of_birth.as_ref(),
        }
    }

    /// Whether the collection holds a table of the given kind.
    pub fn contains(&self, kind: TableKind) -> (present: bool)
        ensures
            present == self@.contains_key(kind),
    {
        match kind {
            TableKind::DifferentDateOfBirth => self.different_date_of_birth.is_some(),
            TableKind::DifferentNames => self.different_names.is_some(),
            TableKind::DifferentPrimaryContactEmails => self.different_primary_contact_emails.is_some(),
            TableKind::DifferentPrimaryContactMobileNumbers => self.different_primary_contact_mobile_numbers.is_some(),
            TableKind::DifferentPrimaryContactNames => self.different_primary_contact_names.is_some(),
            TableKind::MissingFromExtranet => self.missing_from_extranet.is_some(),
            TableKind::MissingFromOperoo => self.missing_from_operoo.is_some(),
        }
    }

    /// The kinds of the tables that the collection holds, in the lexicographic
    /// order of their names.
    pub fn kinds(&self) -> (kinds: Vec<TableKind>)
        ensures
            forall|kind: TableKind| kinds@.contains(kind) <==> self@.contains_key(kind),
            forall|a: int, b: int|
                0 <= a < b < kinds.len() ==> kind_rank(#[trigger] kinds@[a]) < kind_rank(
                    #[trigger] kinds@[b],
                ),
            forall|a: int, b: int|
                0 <= a < b < kinds.len() ==> text_before(
                    kind_name(#[trigger] kinds@[a]),
                    kind_name(#[trigger] kinds@[b]),
                ),
    {
        let all: [TableKind; 7] = [
            TableKind::DifferentDateOfBirth,
            TableKind::DifferentNames,
            TableKind::DifferentPrimaryContactEmails,
            TableKind::DifferentPrimaryContactMobileNumbers,
            TableKind::DifferentPrimaryContactNames,
            TableKind::MissingFromExtranet,
            TableKind::MissingFromOperoo,
        ];
        let mut kinds: Vec<TableKind> = Vec::new();
        let mut i: usize = 0;
        while i < 7
            invariant
                i <= 7,
                all@.len() == 7,
                forall|k: int| 0 <= k < 7 ==> kind_rank(#[trigger] all@[k]) == k,
                forall|k: int| 0 <= k < kinds.len() ==> kind_rank(#[trigger] kinds@[k]) < i,
                forall|k: int|
                    0 <= k < kinds.len() ==> self@.contains_key(#[trigger] kinds@[k]),
                forall|kind: TableKind|
                    kind_rank(kind) < i && self@.contains_key(kind) ==> kinds@.contains(kind),
                forall|a: int, b: int|
                    0 <= a < b < kinds.len() ==> kind_rank(#[trigger] kinds@[a]) < kind_rank(
                        #[trigger] kinds@[b],
                    ),
            decreases 7 - i,
        {
            let kind = all[i];
            let ghost before = kinds@;
            if self.contains(kind) {
                kinds.push(kind);
                proof {
                    assert(kinds@[kinds.len() - 1] == kind);
                    assert forall|other: TableKind|
                        kind_rank(other) < i + 1 && self@.contains_key(
                            other,
                        ) implies kinds@.contains(other) by {
                        if kind_rank(other) < i {
                            assert(before.contains(other));
                            let k = choose|k: int| 0 <= k < before.len() && before[k] == other;
                            assert(kinds@[k] == other);
                        } else {
                            assert(other == kind);
                        }
                    }
                }
            } else {
                proof {
                    assert forall|other: TableKind|
                        kind_rank(other) < i + 1 && self@.contains_key(
                            other,
                        ) implies kinds@.contains(other) by {
                        if kind_rank(other) == i {
                            assert(other == kind);
                        }
                    }
                }
            }
            i += 1;
        }
        proof {
            assert forall|a: int, b: int| 0 <= a < b < kinds.len() implies text_before(
                kind_name(#[trigger] kinds@[a]),
                kind_name(#[trigger] kinds@[b]),
            ) by {
                lemma_kinds_ordered_by_name(kinds@[a], kinds@[b]);
            }
        }
        kinds
    }

    /// The number of tables that the collection holds.
    pub fn len(&self) -> (n: usize)
        ensures
            self@.dom().finite(),
            n == self@.dom().len(),
            n <= 7,
    {
        let kinds = self.kinds();
        proof {
            assert forall|i: int, j: int|
                0 <= i < kinds.len() && 0 <= j < kinds.len() && i != j implies kinds@[i]
                != kinds@[j] by {
                if i < j {
                    assert(kind_rank(kinds@[i]) < kind_rank(kinds@[j]));
                } else {
                    assert(kind_rank(kinds@[j]) < kind_rank(kinds@[i]));
                }
            }
            kinds@.unique_seq_to_set();
            assert(kinds@.to_set() =~= self@.dom());
            if kinds.len() > 7 {
                assert(kind_rank(kinds@[0]) < kind_rank(kinds@[1]));
                assert(kind_rank(kinds@[1]) < kind_rank(kinds@[2]));
                assert(kind_rank(kinds@[2]) < kind_rank(kinds@[3]));
                assert(kind_rank(kinds@[3]) < kind_rank(kinds@[4]));
                assert(kind_rank(kinds@[4]) < kind_rank(kinds@[5]));
                assert(kind_rank(kinds@[5]) < kind_rank(kinds@[6]));
                assert(kind_rank(kinds@[6]) < kind_rank(kinds@[7]));
            }
        }
        kinds.len()
    }
}

} // verus!
