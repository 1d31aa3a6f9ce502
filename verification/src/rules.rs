//! The comparison rules: what each discrepancy table holds, and the
//! reconciliation that fills the report.

use crate::join::{
    anti_join, anti_join_rows, inner_join, inner_join_rows, lemma_inner_join_sound,
    lemma_unmatched_below, row_number_pairs, row_numbers,
};
use crate::kinds::{MatchRule, Source, TableKind};
use crate::normalize::{normal_form, Normalizer};
use crate::report::{
    mismatch_entries, missing_entries, report_wf, Discrepancies, Mismatch, MismatchRow,
    MissingEntry, MissingRow, Report,
};
use crate::cells::{clone_cell, opt_text};
use crate::tables::{
    extranet_keys, operoo_keys, ExtranetEntry, ExtranetRow, ExtranetTable, OperooEntry, OperooRow,
    OperooTable,
};
use crate::text::same_text;
use vstd::prelude::*;
use vstd::string::StringExecFns;

verus! {

/// Whether a `ClassID` is one of the sections whose primary contacts are
/// compared.
pub open spec fn is_member_class(class_id: Option<Seq<char>>) -> bool {
    class_id matches Some(c) && (c == "JOEY"@ || c == "CUB"@ || c == "SCOUT"@ || c == "VENT"@)
}

/// Whether a rule looks only at the records of those sections.
pub open spec fn is_class_filtered(rule: MatchRule) -> bool {
    rule is ContactNames || rule is ContactEmails || rule is ContactMobiles
}

/// Whether a rule reports the normalized values in place of the values as
/// read.
pub open spec fn shows_normal_form(rule: MatchRule) -> bool {
    rule is BirthDates
}

/// A first name and a surname as one name, missing where either is.
pub open spec fn contact_name(first: Option<Seq<char>>, surname: Option<Seq<char>>) -> Option<
    Seq<char>,
> {
    match (first, surname) {
        (Some(f), Some(s)) => Some(f + seq![' '] + s),
        _ => None,
    }
}

/// The value of an Extranet record that a rule compares.
pub open spec fn extranet_value(rule: MatchRule, row: ExtranetEntry) -> Option<Seq<char>> {
    match rule {
        MatchRule::Names => row.full_name,
        MatchRule::ContactNames => contact_name(row.contact_first_name, row.contact_surname),
        MatchRule::ContactEmails => row.contact_email,
        MatchRule::ContactMobiles => row.contact_mobile,
        MatchRule::BirthDates => row.dob,
    }
}

/// The value of an Operoo record that a rule compares.
pub open spec fn operoo_value(rule: MatchRule, row: OperooEntry) -> Option<Seq<char>> {
    match rule {
        MatchRule::Names => row.person_name,
        MatchRule::ContactNames => row.owner_name,
        MatchRule::ContactEmails => row.owner_email,
        MatchRule::ContactMobiles => row.owner_mobile,
        MatchRule::BirthDates => row.birth_date,
    }
}

/// The normalizer that a rule applies to Extranet's value.
pub open spec fn extranet_normalizer(rule: MatchRule) -> Normalizer {
    match rule {
        MatchRule::Names => Normalizer::Name,
        MatchRule::ContactNames => Normalizer::Name,
        MatchRule::ContactEmails => Normalizer::Email,
        MatchRule::ContactMobiles => Normalizer::Phone,
        MatchRule::BirthDates => Normalizer::ExtranetDate,
    }
}

/// The normalizer that a rule applies to Operoo's value.
pub open spec fn operoo_normalizer(rule: MatchRule) -> Normalizer {
    match rule {
        MatchRule::Names => Normalizer::Name,
        MatchRule::ContactNames => Normalizer::Name,
        MatchRule::ContactEmails => Normalizer::Email,
        MatchRule::ContactMobiles => Normalizer::Phone,
        MatchRule::BirthDates => Normalizer::OperooDate,
    }
}

/// Whether a rule applies to a pair of records with the same key: the Extranet
/// record passes the rule's filter, and both compared values are present.
pub open spec fn is_comparable(rule: MatchRule, extranet: ExtranetEntry, operoo: OperooEntry) -> bool {
    &&& is_class_filtered(rule) ==> is_member_class(extranet.class_id)
    &&& extranet.reg_id is Some
    &&& extranet_value(rule, extranet) is Some
    &&& operoo_value(rule, operoo) is Some
}

/// What a rule reports of a pair of records with the same key: nothing where
/// the rule does not apply or the normalized values are equal, else the key
/// and the two values.
pub open spec fn finding(rule: MatchRule, extranet: ExtranetEntry, operoo: OperooEntry) -> Option<
    Mismatch,
> {
    let ours = extranet_value(rule, extranet)->0;
    let theirs = operoo_value(rule, operoo)->0;
    let our_form = normal_form(extranet_normalizer(rule), ours);
    let their_form = normal_form(operoo_normalizer(rule), theirs);
    if is_comparable(rule, extranet, operoo) && our_form != their_form {
        Some(
            Mismatch {
                reg_id: extranet.reg_id->0,
                extranet: if shows_normal_form(rule) {
                    our_form
                } else {
                    ours
                },
                operoo: if shows_normal_form(rule) {
                    their_form
                } else {
                    theirs
                },
            },
        )
    } else {
        None
    }
}

/// What a rule reports of a list of pairs of records, in the list's order.
pub open spec fn findings(
    rule: MatchRule,
    extranet: Seq<ExtranetEntry>,
    operoo: Seq<OperooEntry>,
    pairs: Seq<(int, int)>,
) -> Seq<Mismatch>
    decreases pairs.len(),
{
    if pairs.len() == 0 {
        Seq::empty()
    } else {
        let before = findings(rule, extranet, operoo, pairs.drop_last());
        let pair = pairs.last();
        match finding(rule, extranet[pair.0], operoo[pair.1]) {
            Some(found) => before.push(found),
            None => before,
        }
    }
}

/// The table of a comparison rule: what the rule reports of the inner join of
/// the two rosters on `RegID` and `Profile Id`.
pub open spec fn mismatch_table(
    rule: MatchRule,
    extranet: Seq<ExtranetEntry>,
    operoo: Seq<OperooEntry>,
) -> Seq<Mismatch> {
    findings(
        rule,
        extranet,
        operoo,
        inner_join(extranet_keys(extranet), operoo_keys(operoo)),
    )
}

/// An Extranet record as a row of a table of missing records.
pub open spec fn extranet_missing_entry(row: ExtranetEntry) -> MissingEntry {
    MissingEntry { reg_id: row.reg_id, name: row.full_name }
}

/// An Operoo record as a row of a table of missing records.
pub open spec fn operoo_missing_entry(row: OperooEntry) -> MissingEntry {
    MissingEntry { reg_id: row.profile_id, name: row.person_name }
}

/// The given Extranet records as rows of a table of missing records.
pub open spec fn extranet_selection(extranet: Seq<ExtranetEntry>, rows: Seq<int>) -> Seq<
    MissingEntry,
> {
    Seq::new(rows.len(), |k: int| extranet_missing_entry(extranet[rows[k]]))
}

/// The given Operoo records as rows of a table of missing records.
pub open spec fn operoo_selection(operoo: Seq<OperooEntry>, rows: Seq<int>) -> Seq<MissingEntry> {
    Seq::new(rows.len(), |k: int| operoo_missing_entry(operoo[rows[k]]))
}

/// The table `Missing from Operoo`: the Extranet records whose `RegID` is no
/// `Profile Id`.
pub open spec fn missing_from_operoo(
    extranet: Seq<ExtranetEntry>,
    operoo: Seq<OperooEntry>,
) -> Seq<MissingEntry> {
    extranet_selection(extranet, anti_join(extranet_keys(extranet), operoo_keys(operoo)))
}

/// The table `Missing from Extranet`: the Operoo records whose `Profile Id` is
/// no `RegID`.
pub open spec fn missing_from_extranet(
    extranet: Seq<ExtranetEntry>,
    operoo: Seq<OperooEntry>,
) -> Seq<MissingEntry> {
    operoo_selection(operoo, anti_join(operoo_keys(operoo), extranet_keys(extranet)))
}

/// The rows of the table of a kind, for two rosters.
pub open spec fn table_of(
    kind: TableKind,
    extranet: Seq<ExtranetEntry>,
    operoo: Seq<OperooEntry>,
) -> Discrepancies {
    match kind {
        TableKind::DifferentDateOfBirth => Discrepancies::Mismatch(
            mismatch_table(MatchRule::BirthDates, extranet, operoo),
        ),
        TableKind::DifferentNames => Discrepancies::Mismatch(
            mismatch_table(MatchRule::Names, extranet, operoo),
        ),
        TableKind::DifferentPrimaryContactEmails => Discrepancies::Mismatch(
            mismatch_table(MatchRule::ContactEmails, extranet, operoo),
        ),
        TableKind::DifferentPrimaryContactMobileNumbers => Discrepancies::Mismatch(
            mismatch_table(MatchRule::ContactMobiles, extranet, operoo),
        ),
        TableKind::DifferentPrimaryContactNames => Discrepancies::Mismatch(
            mismatch_table(MatchRule::ContactNames, extranet, operoo),
        ),
        TableKind::MissingFromExtranet => Discrepancies::Missing(
            missing_from_extranet(extranet, operoo),
        ),
        TableKind::MissingFromOperoo => Discrepancies::Missing(
            missing_from_operoo(extranet, operoo),
        ),
    }
}

/// The report on two rosters: each kind of discrepancy whose table has rows,
/// with that table.
pub open spec fn report_of(extranet: Seq<ExtranetEntry>, operoo: Seq<OperooEntry>) -> Map<
    TableKind,
    Discrepancies,
> {
    Map::new(
        |kind: TableKind| table_of(kind, extranet, operoo).len() > 0,
        |kind: TableKind| table_of(kind, extranet, operoo),
    )
}

/// What a found mismatch holds.
pub open spec fn opt_mismatch(found: Option<MismatchRow>) -> Option<Mismatch> {
    match found {
        Some(row) => Some(row@),
        None => None,
    }
}

/// Tests a `ClassID` for the sections whose primary contacts are compared.
pub fn class_is_member(class_id: &Option<String>) -> (member: bool)
    ensures
        member == is_member_class(opt_text(*class_id)),
{
    match class_id {
        Some(c) => same_text(c.as_str(), "JOEY") || same_text(c.as_str(), "CUB") || same_text(
            c.as_str(),
            "SCOUT",
        ) || same_text(c.as_str(), "VENT"),
        None => false,
    }
}

impl MatchRule {
    /// Whether the rule looks only at the records of the compared sections.
    pub fn is_filtered(&self) -> (filtered: bool)
        ensures
            filtered == is_class_filtered(*self),
    {
        match self {
            MatchRule::ContactNames => true,
            MatchRule::ContactEmails => true,
            MatchRule::ContactMobiles => true,
            _ => false,
        }
    }

    /// The normalizer applied to Extranet's value.
    pub fn normalizer_for_extranet(&self) -> (rule: Normalizer)
        ensures
            rule == extranet_normalizer(*self),
    {
        match self {
            MatchRule::Names => Normalizer::Name,
            MatchRule::ContactNames => Normalizer::Name,
            MatchRule::ContactEmails => Normalizer::Email,
            MatchRule::ContactMobiles => Normalizer::Phone,
            MatchRule::BirthDates => Normalizer::ExtranetDate,
        }
    }

    /// The normalizer applied to Operoo's value.
    pub fn normalizer_for_operoo(&self) -> (rule: Normalizer)
        ensures
            rule == operoo_normalizer(*self),
    {
        match self {
            MatchRule::Names => Normalizer::Name,
            MatchRule::ContactNames => Normalizer::Name,
            MatchRule::ContactEmails => Normalizer::Email,
            MatchRule::ContactMobiles => Normalizer::Phone,
            MatchRule::BirthDates => Normalizer::OperooDate,
        }
    }

    /// The value of an Extranet record that the rule compares.
    pub fn value_in_extranet(&self, row: &ExtranetRow) -> (value: Option<String>)
        ensures
            opt_text(value) == extranet_value(*self, row@),
    {
        match self {
            MatchRule::Names => clone_cell(&row.full_name),
            MatchRule::ContactNames => match (&row.contact_first_name, &row.contact_surname) {
                (Some(first), Some(surname)) => {
                    let mut name = first.clone();
                    name.append(" ");
                    name.append(surname.as_str());
                    proof {
                        reveal_strlit(" ");
                        assert(" "@ =~= seq![' ']);
                    }
                    Some(name)
                },
                _ => None,
            },
            MatchRule::ContactEmails => clone_cell(&row.contact_email),
            MatchRule::ContactMobiles => clone_cell(&row.contact_mobile),
            MatchRule::BirthDates => clone_cell(&row.dob),
        }
    }

    /// The value of an Operoo record that the rule compares.
    pub fn value_in_operoo(&self, row: &OperooRow) -> (value: Option<String>)
        ensures
            opt_text(value) == operoo_value(*self, row@),
    {
        match self {
            MatchRule::Names => clone_cell(&row.person_name),
            MatchRule::ContactNames => clone_cell(&row.owner_name),
            MatchRule::ContactEmails => clone_cell(&row.owner_email),
            MatchRule::ContactMobiles => clone_cell(&row.owner_mobile),
            MatchRule::BirthDates => clone_cell(&row.birth_date),
        }
    }

    /// Compares a pair of records with the same key. A pair is reported when
    /// the rule applies to it and the normalized values differ.
    pub fn compare(&self, extranet: &ExtranetRow, operoo: &OperooRow) -> (found: Option<
        MismatchRow,
    >)
        ensures
            opt_mismatch(found) == finding(*self, extranet@, operoo@),
    {
        if self.is_filtered() && !class_is_member(&extranet.class_id) {
            return None;
        }
        let reg_id = match extranet.reg_id {
            Some(reg_id) => reg_id,
            None => {
                return None;
            },
        };
        let ours = match self.value_in_extranet(extranet) {
            Some(ours) => ours,
            None => {
                return None;
            },
        };
        let theirs = match self.value_in_operoo(operoo) {
            Some(theirs) => theirs,
            None => {
                return None;
            },
        };
        let our_form = self.normalizer_for_extranet().apply(ours.as_str());
        let their_form = self.normalizer_for_operoo().apply(theirs.as_str());
        if our_form == their_form {
            None
        } else {
            match self {
                MatchRule::BirthDates => Some(
                    MismatchRow { reg_id, extranet: our_form, operoo: their_form },
                ),
                _ => Some(MismatchRow { reg_id, extranet: ours, operoo: theirs }),
            }
        }
    }
}

/// Applies a rule to a list of pairs of records, given by their row numbers.
fn compare_pairs(
    rule: MatchRule,
    extranet: &ExtranetTable,
    operoo: &OperooTable,
    pairs: &Vec<(usize, usize)>,
) -> (rows: Vec<MismatchRow>)
    requires
        forall|k: int|
            0 <= k < pairs.len() ==> (#[trigger] pairs@[k]).0 < extranet@.len() && pairs@[k].1
                < operoo@.len(),
    ensures
        mismatch_entries(rows@) == findings(rule, extranet@, operoo@, row_number_pairs(pairs@)),
{
    let mut rows: Vec<MismatchRow> = Vec::new();
    let mut k: usize = 0;
    let ghost all = row_number_pairs(pairs@);
    proof {
        assert(all.take(0) =~= Seq::<(int, int)>::empty());
        assert(mismatch_entries(rows@) =~= findings(rule, extranet@, operoo@, all.take(0)));
    }
    while k < pairs.len()
        invariant
            k <= pairs.len(),
            all == row_number_pairs(pairs@),
            forall|n: int|
                0 <= n < pairs.len() ==> (#[trigger] pairs@[n]).0 < extranet@.len() && pairs@[n].1
                    < operoo@.len(),
            mismatch_entries(rows@) == findings(rule, extranet@, operoo@, all.take(k as int)),
        decreases pairs.len() - k,
    {
        let (i, j) = pairs[k];
        let ghost before = mismatch_entries(rows@);
        proof {
            assert(all.take(k + 1).drop_last() =~= all.take(k as int));
            assert(all.take(k + 1).last() == (i as int, j as int));
            assert(extranet@[i as int] == extranet.rows@[i as int]@);
            assert(operoo@[j as int] == operoo.rows@[j as int]@);
        }
        match rule.compare(&extranet.rows[i], &operoo.rows[j]) {
            Some(found) => {
                rows.push(found);
                proof {
                    assert(mismatch_entries(rows@) =~= before.push(found@));
                }
            },
            None => {},
        }
        k += 1;
    }
    proof {
        assert(all.take(pairs.len() as int) =~= all);
    }
    rows
}

/// The table of a comparison rule for two rosters.
pub fn mismatch_rows(rule: MatchRule, extranet: &ExtranetTable, operoo: &OperooTable) -> (rows: Vec<
    MismatchRow,
>)
    ensures
        mismatch_entries(rows@) == mismatch_table(rule, extranet@, operoo@),
{
    let left = extranet.keys();
    let right = operoo.keys();
    let pairs = inner_join_rows(&left, &right);
    proof {
        lemma_pairs_in_range(extranet@, operoo@, pairs@);
    }
    compare_pairs(rule, extranet, operoo, &pairs)
}

/// The pairs of an inner join are pairs of row numbers of the two rosters.
proof fn lemma_pairs_in_range(
    extranet: Seq<ExtranetEntry>,
    operoo: Seq<OperooEntry>,
    pairs: Seq<(usize, usize)>,
)
    requires
        row_number_pairs(pairs) == inner_join(extranet_keys(extranet), operoo_keys(operoo)),
    ensures
        forall|k: int|
            0 <= k < pairs.len() ==> (#[trigger] pairs[k]).0 < extranet.len() && pairs[k].1
                < operoo.len(),
{
    assert forall|k: int| 0 <= k < pairs.len() implies (#[trigger] pairs[k]).0 < extranet.len()
        && pairs[k].1 < operoo.len() by {
        lemma_inner_join_sound(extranet_keys(extranet), operoo_keys(operoo), k);
        assert(row_number_pairs(pairs)[k] == (pairs[k].0 as int, pairs[k].1 as int));
    }
}

/// The table `Missing from Operoo` for two rosters.
pub fn missing_from_operoo_rows(extranet: &ExtranetTable, operoo: &OperooTable) -> (rows: Vec<
    MissingRow,
>)
    ensures
        missing_entries(rows@) == missing_from_operoo(extranet@, operoo@),
{
    let left = extranet.keys();
    let right = operoo.keys();
    let lonely = anti_join_rows(&left, &right);
    let mut rows: Vec<MissingRow> = Vec::new();
    let mut k: usize = 0;
    proof {
        lemma_unmatched_below(left@, right@, left@.len() as int);
    }
    while k < lonely.len()
        invariant
            k <= lonely.len(),
            rows.len() == k,
            left@ == extranet_keys(extranet@),
            row_numbers(lonely@) == anti_join(left@, right@),
            forall|n: int|
                0 <= n < anti_join(left@, right@).len() ==> 0 <= #[trigger] anti_join(
                    left@,
                    right@,
                )[n] < left@.len(),
            forall|n: int|
                0 <= n < k ==> (#[trigger] rows@[n])@ == extranet_missing_entry(
                    extranet@[lonely@[n] as int],
                ),
        decreases lonely.len() - k,
    {
        let i = lonely[k];
        proof {
            assert(row_numbers(lonely@)[k as int] == i as int);
            assert(0 <= anti_join(left@, right@)[k as int] < left@.len());
            assert(extranet@[i as int] == extranet.rows@[i as int]@);
        }
        let row = &extranet.rows[i];
        rows.push(MissingRow { reg_id: row.reg_id, name: clone_cell(&row.full_name) });
        k += 1;
    }
    proof {
        assert forall|n: int| 0 <= n < rows.len() implies missing_entries(rows@)[n]
            == missing_from_operoo(extranet@, operoo@)[n] by {
            assert(row_numbers(lonely@)[n] == lonely@[n] as int);
        }
        assert(missing_entries(rows@) =~= missing_from_operoo(extranet@, operoo@));
    }
    rows
}

/// The table `Missing from Extranet` for two rosters.
pub fn missing_from_extranet_rows(extranet: &ExtranetTable, operoo: &OperooTable) -> (rows: Vec<
    MissingRow,
>)
    ensures
        missing_entries(rows@) == missing_from_extranet(extranet@, operoo@),
{
    let left = operoo.keys();
    let right = extranet.keys();
    let lonely = anti_join_rows(&left, &right);
    let mut rows: Vec<MissingRow> = Vec::new();
    let mut k: usize = 0;
    proof {
        lemma_unmatched_below(left@, right@, left@.len() as int);
    }
    while k < lonely.len()
        invariant
            k <= lonely.len(),
            rows.len() == k,
            left@ == operoo_keys(operoo@),
            row_numbers(lonely@) == anti_join(left@, right@),
            forall|n: int|
                0 <= n < anti_join(left@, right@).len() ==> 0 <= #[trigger] anti_join(
                    left@,
                    right@,
                )[n] < left@.len(),
            forall|n: int|
                0 <= n < k ==> (#[trigger] rows@[n])@ == operoo_missing_entry(
                    operoo@[lonely@[n] as int],
                ),
        decreases lonely.len() - k,
    {
        let j = lonely[k];
        proof {
            assert(row_numbers(lonely@)[k as int] == j as int);
            assert(0 <= anti_join(left@, right@)[k as int] < left@.len());
            assert(operoo@[j as int] == operoo.rows@[j as int]@);
        }
        let row = &operoo.rows[j];
        rows.push(MissingRow { reg_id: row.profile_id, name: clone_cell(&row.person_name) });
        k += 1;
    }
    proof {
        assert forall|n: int| 0 <= n < rows.len() implies missing_entries(rows@)[n]
            == missing_from_extranet(extranet@, operoo@)[n] by {
            assert(row_numbers(lonely@)[n] == lonely@[n] as int);
        }
        assert(missing_entries(rows@) =~= missing_from_extranet(extranet@, operoo@));
    }
    rows
}

/// Reconciles two rosters: applies the seven rules and collects the tables
/// that have rows. A rule that finds nothing leaves no table.
pub fn reconcile(extranet: &ExtranetTable, operoo: &OperooTable) -> (report: Report)
    ensures
        report@ == report_of(extranet@, operoo@),
        report_wf(report@),
{
    let mut report = Report::new();
    report.insert_missing(Source::Operoo, missing_from_operoo_rows(extranet, operoo));
    report.insert_missing(Source::Extranet, missing_from_extranet_rows(extranet, operoo));
    let left = extranet.keys();
    let right = operoo.keys();
    let pairs = inner_join_rows(&left, &right);
    proof {
        lemma_pairs_in_range(extranet@, operoo@, pairs@);
    }
    report.insert_mismatches(
        MatchRule::Names,
        compare_pairs(MatchRule::Names, extranet, operoo, &pairs),
    );
    report.insert_mismatches(
        MatchRule::ContactNames,
        compare_pairs(MatchRule::ContactNames, extranet, operoo, &pairs),
    );
    report.insert_mismatches(
        MatchRule::ContactEmails,
        compare_pairs(MatchRule::ContactEmails, extranet, operoo, &pairs),
    );
    report.insert_mismatches(
        MatchRule::ContactMobiles,
        compare_pairs(MatchRule::ContactMobiles, extranet, operoo, &pairs),
    );
    report.insert_mismatches(
        MatchRule::BirthDates,
        compare_pairs(MatchRule::BirthDates, extranet, operoo, &pairs),
    );
    proof {
        assert(report@ =~= report_of(extranet@, operoo@));
    }
    report
}

} // verus!
