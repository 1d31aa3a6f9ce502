use roster_diff::kinds::{MatchRule, Source, TableKind};
use roster_diff::report::{MismatchRow, MissingRow};
use roster_diff::rules::{
    class_is_member, mismatch_rows, missing_from_extranet_rows, missing_from_operoo_rows,
    reconcile,
};
use roster_diff::tables::{ExtranetRow, ExtranetTable, OperooRow, OperooTable};

fn text(value: &str) -> Option<String> {
    Some(value.to_string())
}

fn member(reg_id: i64, name: &str, class_id: &str) -> ExtranetRow {
    ExtranetRow {
        reg_id: Some(reg_id),
        full_name: text(name),
        class_id: text(class_id),
        contact_first_name: text("Mary"),
        contact_surname: text("Doe"),
        contact_email: text("parent@example.com"),
        contact_mobile: text("412345678"),
        dob: text("2015-03-07"),
    }
}

fn profile(profile_id: i64, name: &str) -> OperooRow {
    OperooRow {
        profile_id: Some(profile_id),
        person_name: text(name),
        owner_name: text("Mary Doe"),
        owner_email: text("parent@example.com"),
        owner_mobile: text("+61412345678"),
        birth_date: text("7 March 2015"),
    }
}

fn extranet(rows: Vec<ExtranetRow>) -> ExtranetTable {
    ExtranetTable { rows }
}

fn operoo(rows: Vec<OperooRow>) -> OperooTable {
    OperooTable { rows }
}

fn mismatch(reg_id: i64, ours: &str, theirs: &str) -> MismatchRow {
    MismatchRow { reg_id, extranet: ours.to_string(), operoo: theirs.to_string() }
}

#[test]
fn agreeing_rosters_give_an_empty_report() {
    let ours = extranet(vec![member(1, "Jane Doe", "JOEY"), member(2, "John Roe", "CUB")]);
    let theirs = operoo(vec![profile(2, "john  ROE"), profile(1, "JANE DOE")]);
    let report = reconcile(&ours, &theirs);
    assert_eq!(report.len(), 0);
    assert_eq!(report.kinds(), Vec::new());
    for kind in [
        TableKind::DifferentDateOfBirth,
        TableKind::DifferentNames,
        TableKind::DifferentPrimaryContactEmails,
        TableKind::DifferentPrimaryContactMobileNumbers,
        TableKind::DifferentPrimaryContactNames,
        TableKind::MissingFromExtranet,
        TableKind::MissingFromOperoo,
    ] {
        assert!(!report.contains(kind));
    }
}

#[test]
fn disjoint_rosters_are_all_missing_and_nothing_else() {
    let ours = extranet(vec![member(1, "Jane Doe", "JOEY"), member(2, "John Roe", "CUB")]);
    let theirs = operoo(vec![profile(3, "Someone Else")]);
    let report = reconcile(&ours, &theirs);
    assert_eq!(report.kinds(), vec![TableKind::MissingFromExtranet, TableKind::MissingFromOperoo]);
    assert_eq!(
        report.missing(Source::Operoo),
        Some(&vec![
            MissingRow { reg_id: Some(1), name: text("Jane Doe") },
            MissingRow { reg_id: Some(2), name: text("John Roe") },
        ])
    );
    assert_eq!(
        report.missing(Source::Extranet),
        Some(&vec![MissingRow { reg_id: Some(3), name: text("Someone Else") }])
    );
    for rule in [
        MatchRule::Names,
        MatchRule::ContactNames,
        MatchRule::ContactEmails,
        MatchRule::ContactMobiles,
        MatchRule::BirthDates,
    ] {
        assert_eq!(report.mismatches(rule), None);
        assert_eq!(mismatch_rows(rule, &ours, &theirs), Vec::new());
    }
}

#[test]
fn record_only_in_extranet_is_missing_from_operoo_and_not_compared() {
    let ours = extranet(vec![member(1001, "Jane Doe", "JOEY"), member(1002, "John Roe", "CUB")]);
    let theirs = operoo(vec![profile(1002, "Johnny Roe")]);
    let report = reconcile(&ours, &theirs);
    assert_eq!(
        report.missing(Source::Operoo),
        Some(&vec![MissingRow { reg_id: Some(1001), name: text("Jane Doe") }])
    );
    assert_eq!(report.missing(Source::Extranet), None);
    let names = report.mismatches(MatchRule::Names).expect("a name differs");
    assert_eq!(names, &vec![mismatch(1002, "John Roe", "Johnny Roe")]);
    assert!(names.iter().all(|row| row.reg_id != 1001));
    assert_eq!(report.kinds(), vec![TableKind::DifferentNames, TableKind::MissingFromOperoo]);
}

#[test]
fn emails_of_member_classes_compare_without_case() {
    let mut same = member(1, "Jane Doe", "JOEY");
    same.contact_email = text("Parent@Example.com");
    let ours = extranet(vec![same, member(2, "John Roe", "JOEY")]);
    let mut other = profile(2, "John Roe");
    other.owner_email = text("other@example.com");
    let theirs = operoo(vec![profile(1, "Jane Doe"), other]);
    let report = reconcile(&ours, &theirs);
    assert_eq!(
        report.mismatches(MatchRule::ContactEmails),
        Some(&vec![mismatch(2, "parent@example.com", "other@example.com")])
    );
    assert_eq!(report.kinds(), vec![TableKind::DifferentPrimaryContactEmails]);
}

#[test]
fn contact_rules_look_only_at_member_classes() {
    let mut leader = member(1, "Jane Doe", "LEADER");
    leader.contact_email = text("someone@example.com");
    leader.contact_mobile = text("400000000");
    leader.contact_surname = text("Different");
    let ours = extranet(vec![leader]);
    let theirs = operoo(vec![profile(1, "Jane Doe")]);
    let report = reconcile(&ours, &theirs);
    assert_eq!(report.len(), 0);
    for class_id in ["JOEY", "CUB", "SCOUT", "VENT"] {
        assert!(class_is_member(&text(class_id)));
    }
    for class_id in ["joey", "ROVER", "", "JOEY "] {
        assert!(!class_is_member(&text(class_id)));
    }
    assert!(!class_is_member(&None));
}

#[test]
fn contact_names_join_first_name_and_surname() {
    let mut row = member(1, "Jane Doe", "SCOUT");
    row.contact_first_name = text("MARY");
    row.contact_surname = text("doe");
    let mut odd = member(2, "John Roe", "VENT");
    odd.contact_first_name = text("Ann");
    odd.contact_surname = text("Roe");
    let ours = extranet(vec![row, odd]);
    let theirs = operoo(vec![profile(1, "Jane Doe"), profile(2, "John Roe")]);
    assert_eq!(
        mismatch_rows(MatchRule::ContactNames, &ours, &theirs),
        vec![mismatch(2, "Ann Roe", "Mary Doe")]
    );
}

#[test]
fn mobiles_compare_by_suffix_and_show_what_was_read() {
    let mut row = member(1, "Jane Doe", "CUB");
    row.contact_mobile = text("0498765432");
    let ours = extranet(vec![row, member(2, "John Roe", "CUB")]);
    let theirs = operoo(vec![profile(1, "Jane Doe"), profile(2, "John Roe")]);
    assert_eq!(
        mismatch_rows(MatchRule::ContactMobiles, &ours, &theirs),
        vec![mismatch(1, "0498765432", "+61412345678")]
    );
}

#[test]
fn birth_dates_show_the_canonical_form() {
    let mut row = member(1, "Jane Doe", "LEADER");
    row.dob = text("2015-03-08");
    let ours = extranet(vec![row, member(2, "John Roe", "LEADER")]);
    let theirs = operoo(vec![profile(1, "Jane Doe"), profile(2, "John Roe")]);
    let report = reconcile(&ours, &theirs);
    assert_eq!(
        report.mismatches(MatchRule::BirthDates),
        Some(&vec![mismatch(1, "2015-03-08", "2015-03-07")])
    );
    assert_eq!(report.kinds(), vec![TableKind::DifferentDateOfBirth]);
}

#[test]
fn malformed_date_differs_from_a_date_but_not_from_another_malformed_one() {
    let mut both = member(2, "John Roe", "CUB");
    both.dob = text("rubbish");
    let ours = extranet(vec![member(1, "Jane Doe", "CUB"), both]);
    let mut garbage = profile(1, "Jane Doe");
    garbage.birth_date = text("garbage");
    let mut garbage_too = profile(2, "John Roe");
    garbage_too.birth_date = text("garbage");
    let theirs = operoo(vec![garbage, garbage_too]);
    assert_eq!(
        mismatch_rows(MatchRule::BirthDates, &ours, &theirs),
        vec![mismatch(1, "2015-03-07", "")]
    );
}

#[test]
fn missing_values_are_not_reported_as_different() {
    let mut blank = member(1, "Jane Doe", "JOEY");
    blank.full_name = None;
    blank.contact_email = None;
    blank.contact_first_name = None;
    blank.dob = None;
    let ours = extranet(vec![blank]);
    let mut other = profile(1, "Jane Doe");
    other.owner_mobile = None;
    let theirs = operoo(vec![other]);
    let report = reconcile(&ours, &theirs);
    assert_eq!(report.len(), 0);
}

#[test]
fn rows_without_key_are_missing_on_their_side() {
    let mut keyless = member(0, "No Key", "JOEY");
    keyless.reg_id = None;
    let ours = extranet(vec![keyless]);
    let mut other = profile(0, "Also None");
    other.profile_id = None;
    let theirs = operoo(vec![other]);
    assert_eq!(
        missing_from_operoo_rows(&ours, &theirs),
        vec![MissingRow { reg_id: None, name: text("No Key") }]
    );
    assert_eq!(
        missing_from_extranet_rows(&ours, &theirs),
        vec![MissingRow { reg_id: None, name: text("Also None") }]
    );
    assert_eq!(mismatch_rows(MatchRule::Names, &ours, &theirs), Vec::new());
}

#[test]
fn duplicate_keys_are_compared_pair_by_pair() {
    let ours = extranet(vec![member(1, "Jane Doe", "JOEY"), member(1, "Jane D", "JOEY")]);
    let theirs = operoo(vec![profile(1, "Jane Doe"), profile(1, "J Doe")]);
    assert_eq!(
        mismatch_rows(MatchRule::Names, &ours, &theirs),
        vec![
            mismatch(1, "Jane Doe", "J Doe"),
            mismatch(1, "Jane D", "Jane Doe"),
            mismatch(1, "Jane D", "J Doe"),
        ]
    );
}

#[test]
fn rules_compare_one_pair_of_records() {
    let ours = extranet(vec![member(1, "A", "JOEY"), member(2, "B", "JOEY")]);
    let theirs = operoo(vec![profile(1, "a"), profile(2, "c")]);
    assert_eq!(MatchRule::Names.compare(&ours.rows[0], &theirs.rows[0]), None);
    assert_eq!(
        MatchRule::Names.compare(&ours.rows[1], &theirs.rows[1]),
        Some(mismatch(2, "B", "c"))
    );
    assert_eq!(
        MatchRule::Names.compare(&ours.rows[0], &theirs.rows[1]),
        Some(mismatch(1, "A", "c"))
    );
    assert_eq!(MatchRule::Names.value_in_extranet(&ours.rows[0]), text("A"));
    assert_eq!(MatchRule::ContactNames.value_in_extranet(&ours.rows[0]), text("Mary Doe"));
    assert_eq!(MatchRule::ContactNames.value_in_operoo(&theirs.rows[0]), text("Mary Doe"));
    assert_eq!(MatchRule::BirthDates.value_in_operoo(&theirs.rows[0]), text("7 March 2015"));
}

#[test]
fn tables_grow_by_push() {
    let mut ours = ExtranetTable::new();
    assert_eq!(ours.len(), 0);
    ours.push(member(5, "Jane Doe", "JOEY"));
    ours.push(member(6, "John Roe", "CUB"));
    assert_eq!(ours.len(), 2);
    assert_eq!(ours.keys(), vec![Some(5), Some(6)]);
    let mut theirs = OperooTable::new();
    theirs.push(profile(6, "John Roe"));
    assert_eq!(theirs.len(), 1);
    assert_eq!(theirs.keys(), vec![Some(6)]);
    assert_eq!(reconcile(&ours, &theirs).kinds(), vec![TableKind::MissingFromOperoo]);
}

#[test]
fn tables_are_made_from_columns_of_one_length() {
    let ids = vec![Some(1), None];
    let a = vec![text("a"), None];
    let short = vec![text("a")];
    let made = ExtranetTable::from_columns(&ids, &a, &a, &a, &a, &a, &a, &a).expect("one length");
    assert_eq!(made.rows.len(), 2);
    assert_eq!(made.rows[0].full_name, text("a"));
    assert_eq!(made.rows[1].reg_id, None);
    assert!(ExtranetTable::from_columns(&ids, &a, &a, &short, &a, &a, &a, &a).is_none());
    let made = OperooTable::from_columns(&ids, &a, &a, &a, &a, &a).expect("one length");
    assert_eq!(made.rows[0].profile_id, Some(1));
    assert_eq!(made.rows[1].birth_date, None);
    assert!(OperooTable::from_columns(&ids, &a, &a, &a, &a, &short).is_none());
}
