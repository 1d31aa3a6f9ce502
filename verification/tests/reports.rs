use roster_diff::error::DiffError;
use roster_diff::kinds::{MatchRule, Source, TableKind};
use roster_diff::report::{MismatchRow, MissingRow, Report};

fn missing(reg_id: i64) -> MissingRow {
    MissingRow { reg_id: Some(reg_id), name: Some("Jane Doe".to_string()) }
}

fn mismatch(reg_id: i64) -> MismatchRow {
    MismatchRow { reg_id, extranet: "a".to_string(), operoo: "b".to_string() }
}

#[test]
fn new_report_is_empty() {
    let report = Report::new();
    assert_eq!(report.len(), 0);
    assert_eq!(report.kinds(), Vec::new());
    assert_eq!(report.missing(Source::Operoo), None);
    assert_eq!(report.mismatches(MatchRule::Names), None);
}

#[test]
fn empty_table_is_absent_from_the_report() {
    let mut report = Report::new();
    report.insert_missing(Source::Operoo, Vec::new());
    report.insert_mismatches(MatchRule::Names, Vec::new());
    assert_eq!(report.len(), 0);
    assert!(!report.contains(TableKind::MissingFromOperoo));
    assert!(!report.contains(TableKind::DifferentNames));
    assert_eq!(report.missing(Source::Operoo), None);
    assert_eq!(report.mismatches(MatchRule::Names), None);
    report.insert_missing(Source::Operoo, vec![missing(1)]);
    report.insert_missing(Source::Operoo, Vec::new());
    assert_eq!(report.missing(Source::Operoo), Some(&vec![missing(1)]));
}

#[test]
fn tables_are_listed_in_the_order_of_their_names() {
    let mut report = Report::new();
    report.insert_missing(Source::Operoo, vec![missing(1)]);
    report.insert_missing(Source::Extranet, vec![missing(2)]);
    report.insert_mismatches(MatchRule::Names, vec![mismatch(3)]);
    report.insert_mismatches(MatchRule::ContactNames, vec![mismatch(4)]);
    report.insert_mismatches(MatchRule::ContactEmails, vec![mismatch(5)]);
    report.insert_mismatches(MatchRule::ContactMobiles, vec![mismatch(6)]);
    report.insert_mismatches(MatchRule::BirthDates, vec![mismatch(7)]);
    let kinds = report.kinds();
    assert_eq!(report.len(), 7);
    let names: Vec<&str> = kinds.iter().map(|kind| kind.name()).collect();
    assert_eq!(
        names,
        vec![
            "Different Date of Birth",
            "Different Names",
            "Different Primary Contact Emails",
            "Different Primary Contact Mobile Numbers",
            "Different Primary Contact Names",
            "Missing from Extranet",
            "Missing from Operoo",
        ]
    );
    let mut sorted = names.clone();
    sorted.sort();
    assert_eq!(names, sorted);
    let ranks: Vec<usize> = kinds.iter().map(|kind| kind.rank()).collect();
    assert_eq!(ranks, vec![0, 1, 2, 3, 4, 5, 6]);
    assert_eq!(report.mismatches(MatchRule::ContactMobiles), Some(&vec![mismatch(6)]));
    assert_eq!(report.missing(Source::Extranet), Some(&vec![missing(2)]));
}

#[test]
fn rules_and_sources_name_their_tables() {
    assert_eq!(Source::Operoo.missing_table(), TableKind::MissingFromOperoo);
    assert_eq!(Source::Extranet.missing_table(), TableKind::MissingFromExtranet);
    assert_eq!(MatchRule::Names.table(), TableKind::DifferentNames);
    assert_eq!(MatchRule::ContactNames.table(), TableKind::DifferentPrimaryContactNames);
    assert_eq!(MatchRule::ContactEmails.table(), TableKind::DifferentPrimaryContactEmails);
    assert_eq!(MatchRule::ContactMobiles.table(), TableKind::DifferentPrimaryContactMobileNumbers);
    assert_eq!(MatchRule::BirthDates.table(), TableKind::DifferentDateOfBirth);
    assert!(MatchRule::ContactEmails.is_filtered());
    assert!(!MatchRule::BirthDates.is_filtered());
}

#[test]
fn a_later_table_replaces_an_earlier_one_of_its_kind() {
    let mut report = Report::new();
    report.insert_mismatches(MatchRule::Names, vec![mismatch(1)]);
    report.insert_mismatches(MatchRule::Names, vec![mismatch(2), mismatch(3)]);
    assert_eq!(report.len(), 1);
    assert_eq!(report.mismatches(MatchRule::Names), Some(&vec![mismatch(2), mismatch(3)]));
}

#[test]
fn failures_are_reported_in_sentences() {
    assert_eq!(
        DiffError::InvalidFormat { source: Source::Extranet }.message(),
        "The provided Extranet report appears to be invalid."
    );
    assert_eq!(
        DiffError::InvalidFormat { source: Source::Operoo }.message(),
        "The provided Operoo report appears to be invalid."
    );
    assert_eq!(
        DiffError::Parse { source: Source::Extranet, detail: "bad".to_string() }.message(),
        "Error while reading extranet data: bad"
    );
    assert_eq!(
        DiffError::Parse { source: Source::Operoo, detail: "worse".to_string() }.message(),
        "Error while reading operoo data: worse"
    );
    assert_eq!(
        DiffError::Processing { detail: "not found: x".to_string() }.message(),
        "Error while processing data: not found: x"
    );
}
