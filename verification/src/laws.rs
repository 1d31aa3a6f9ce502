//! What holds of every reconciliation, stated over the tables' definitions.

use crate::dates::canonical_date;
use crate::join::{
    anti_join, has_match, inner_join, keys_match, lemma_anti_join_of_disjoint,
    lemma_inner_join_of_disjoint, lemma_inner_join_sound, lemma_unmatched_below,
};
use crate::kinds::{MatchRule, TableKind};
use crate::normalize::{
    extranet_date_format, is_stable_name, lemma_name_normal_idempotent, name_normal,
    operoo_date_format,
};
use crate::report::{report_wf, Mismatch};
use crate::rules::{
    extranet_missing_entry, finding, findings, is_comparable, mismatch_table,
    missing_from_extranet, missing_from_operoo, operoo_missing_entry, report_of, table_of,
};
use crate::tables::{extranet_keys, operoo_keys, ExtranetEntry, OperooEntry};
use vstd::prelude::*;

verus! {

/// Whether two rosters have no key in common.
pub open spec fn rosters_disjoint(extranet: Seq<ExtranetEntry>, operoo: Seq<OperooEntry>) -> bool {
    forall|i: int, j: int| !keys_match(extranet_keys(extranet), operoo_keys(operoo), i, j)
}

/// Every row that a rule reports of a list of pairs comes from one of the
/// pairs.
pub proof fn lemma_findings_source(
    rule: MatchRule,
    extranet: Seq<ExtranetEntry>,
    operoo: Seq<OperooEntry>,
    pairs: Seq<(int, int)>,
    n: int,
) -> (k: int)
    requires
        0 <= n < findings(rule, extranet, operoo, pairs).len(),
    ensures
        0 <= k < pairs.len(),
        finding(rule, extranet[pairs[k].0], operoo[pairs[k].1]) == Some(
            findings(rule, extranet, operoo, pairs)[n],
        ),
    decreases pairs.len(),
{
    let before = findings(rule, extranet, operoo, pairs.drop_last());
    if n < before.len() {
        let k = lemma_findings_source(rule, extranet, operoo, pairs.drop_last(), n);
        assert(pairs.drop_last()[k] == pairs[k]);
        k
    } else {
        pairs.len() - 1
    }
}

/// Where the two rosters have no key in common, no comparison rule reports
/// anything, every Extranet record is listed as missing from Operoo and every
/// Operoo record as missing from Extranet, and no key is listed in both.
pub proof fn lemma_disjoint_rosters(extranet: Seq<ExtranetEntry>, operoo: Seq<OperooEntry>)
    requires
        rosters_disjoint(extranet, operoo),
    ensures
        forall|rule: MatchRule| #[trigger]
            mismatch_table(rule, extranet, operoo) == Seq::<Mismatch>::empty(),
        missing_from_operoo(extranet, operoo) == Seq::new(
            extranet.len(),
            |i: int| extranet_missing_entry(extranet[i]),
        ),
        missing_from_extranet(extranet, operoo) == Seq::new(
            operoo.len(),
            |j: int| operoo_missing_entry(operoo[j]),
        ),
        forall|kind: TableKind| #[trigger]
            report_of(extranet, operoo).contains_key(kind) ==> kind == TableKind::MissingFromOperoo
                || kind == TableKind::MissingFromExtranet,
        forall|a: int, b: int|
            0 <= a < extranet.len() && 0 <= b < operoo.len() && extranet[a].reg_id is Some ==> (
            #[trigger] missing_from_operoo(extranet, operoo)[a]).reg_id != (
            #[trigger] missing_from_extranet(extranet, operoo)[b]).reg_id,
{
    let ours = extranet_keys(extranet);
    let theirs = operoo_keys(operoo);
    lemma_inner_join_of_disjoint(ours, theirs);
    lemma_anti_join_of_disjoint(ours, theirs);
    assert forall|j: int, i: int| !keys_match(theirs, ours, j, i) by {
        if keys_match(theirs, ours, j, i) {
            assert(keys_match(ours, theirs, i, j));
        }
    }
    lemma_anti_join_of_disjoint(theirs, ours);
    assert(missing_from_operoo(extranet, operoo) =~= Seq::new(
        extranet.len(),
        |i: int| extranet_missing_entry(extranet[i]),
    ));
    assert(missing_from_extranet(extranet, operoo) =~= Seq::new(
        operoo.len(),
        |j: int| operoo_missing_entry(operoo[j]),
    ));
    assert forall|a: int, b: int|
        0 <= a < extranet.len() && 0 <= b < operoo.len() && extranet[a].reg_id is Some implies (
    #[trigger] missing_from_operoo(extranet, operoo)[a]).reg_id != (
    #[trigger] missing_from_extranet(extranet, operoo)[b]).reg_id by {
        assert(!keys_match(ours, theirs, a, b));
    }
}

/// A record that is listed as missing from Operoo is compared by no rule: no
/// row of a comparison table carries its key.
pub proof fn lemma_missing_from_operoo_not_compared(
    rule: MatchRule,
    extranet: Seq<ExtranetEntry>,
    operoo: Seq<OperooEntry>,
    a: int,
    b: int,
)
    requires
        0 <= a < missing_from_operoo(extranet, operoo).len(),
        0 <= b < mismatch_table(rule, extranet, operoo).len(),
    ensures
        missing_from_operoo(extranet, operoo)[a].reg_id != Some(
            mismatch_table(rule, extranet, operoo)[b].reg_id,
        ),
{
    let ours = extranet_keys(extranet);
    let theirs = operoo_keys(operoo);
    let pairs = inner_join(ours, theirs);
    let k = lemma_findings_source(rule, extranet, operoo, pairs, b);
    lemma_inner_join_sound(ours, theirs, k);
    lemma_unmatched_below(ours, theirs, ours.len() as int);
    let lonely = anti_join(ours, theirs)[a];
    assert(!has_match(ours, theirs, lonely));
    if extranet[lonely].reg_id == Some(mismatch_table(rule, extranet, operoo)[b].reg_id) {
        assert(keys_match(ours, theirs, lonely, pairs[k].1));
    }
}

/// A record that is listed as missing from Extranet is compared by no rule:
/// no row of a comparison table carries its key.
pub proof fn lemma_missing_from_extranet_not_compared(
    rule: MatchRule,
    extranet: Seq<ExtranetEntry>,
    operoo: Seq<OperooEntry>,
    a: int,
    b: int,
)
    requires
        0 <= a < missing_from_extranet(extranet, operoo).len(),
        0 <= b < mismatch_table(rule, extranet, operoo).len(),
    ensures
        missing_from_extranet(extranet, operoo)[a].reg_id != Some(
            mismatch_table(rule, extranet, operoo)[b].reg_id,
        ),
{
    let ours = extranet_keys(extranet);
    let theirs = operoo_keys(operoo);
    let pairs = inner_join(ours, theirs);
    let k = lemma_findings_source(rule, extranet, operoo, pairs, b);
    lemma_inner_join_sound(ours, theirs, k);
    lemma_unmatched_below(theirs, ours, theirs.len() as int);
    let lonely = anti_join(theirs, ours)[a];
    assert(!has_match(theirs, ours, lonely));
    if operoo[lonely].profile_id == Some(mismatch_table(rule, extranet, operoo)[b].reg_id) {
        assert(keys_match(theirs, ours, lonely, pairs[k].0));
    }
}

/// A report holds no table without rows: a kind of discrepancy is in the report
/// exactly when its table has rows, and then the report holds that table.
pub proof fn lemma_no_empty_table(extranet: Seq<ExtranetEntry>, operoo: Seq<OperooEntry>)
    ensures
        report_wf(report_of(extranet, operoo)),
        forall|kind: TableKind| #[trigger]
            report_of(extranet, operoo).contains_key(kind) <==> table_of(
                kind,
                extranet,
                operoo,
            ).len() > 0,
        forall|kind: TableKind| #[trigger]
            report_of(extranet, operoo).contains_key(kind) ==> report_of(extranet, operoo)[kind]
                == table_of(kind, extranet, operoo),
{
}

/// The rule for birth dates reports a pair of records to which it applies
/// exactly when the two texts do not spell the same date. So a text that is no
/// date is reported against every date, and two texts of which neither is a
/// date are not reported.
pub proof fn lemma_birth_dates_reported(extranet: ExtranetEntry, operoo: OperooEntry)
    requires
        is_comparable(MatchRule::BirthDates, extranet, operoo),
    ensures
        finding(MatchRule::BirthDates, extranet, operoo) is None <==> canonical_date(
            extranet.dob->0,
            extranet_date_format(),
        ) == canonical_date(operoo.birth_date->0, operoo_date_format()),
        canonical_date(extranet.dob->0, extranet_date_format()) is Some && canonical_date(
            operoo.birth_date->0,
            operoo_date_format(),
        ) is None ==> finding(MatchRule::BirthDates, extranet, operoo) is Some,
        canonical_date(extranet.dob->0, extranet_date_format()) is None && canonical_date(
            operoo.birth_date->0,
            operoo_date_format(),
        ) is None ==> finding(MatchRule::BirthDates, extranet, operoo) is None,
{
}

/// The rule for names does not report a pair of records of which one holds
/// the other's name in normal form, where lowercasing leaves that normal form
/// as it is.
pub proof fn lemma_normal_name_not_reported(extranet: ExtranetEntry, operoo: OperooEntry)
    requires
        extranet.full_name matches Some(ours) && operoo.person_name matches Some(theirs) && ((
        theirs == name_normal(ours) && is_stable_name(ours)) || (ours == name_normal(theirs)
            && is_stable_name(theirs))),
    ensures
        finding(MatchRule::Names, extranet, operoo) is None,
{
    let ours = extranet.full_name->0;
    let theirs = operoo.person_name->0;
    if theirs == name_normal(ours) && is_stable_name(ours) {
        lemma_name_normal_idempotent(ours);
    } else {
        lemma_name_normal_idempotent(theirs);
    }
}

} // verus!
