use roster_diff::{diff, diff_read};
use roster_diff::error::DiffError;
use roster_diff::extranet::{extranet_after_read, read_extranet};
use roster_diff::guard::{check_report_types, starts_with};
use roster_diff::kinds::{MatchRule, Source, TableKind};
use roster_diff::operoo::{column_path_text, is_needed_name, operoo_table, read_operoo};
use roster_diff::report::{MismatchRow, MissingRow};
use roster_diff::sheet::{Column, Table};

const EXTRANET: &str = "RegionID,RegID,FullName,ClassID,Primary Contact Firstname,Primary Contact Surname,Primary Contact Email,Primary Contact Mobile,DOB\n\
9,1001,Jane Doe,JOEY,Mary,Doe,Parent@Example.com,0412345678,2015-03-07\n\
9,1002,John Roe,CUB,Ann,Roe,ann@example.com,0498765432,2013-11-30\n\
9,1003,Sam Poe,SCOUT,Pat,Poe,pat@example.com,0400000000,2011-01-02\n\
9,1004,Lee Low,LEADER,,,,,1980-05-06\n";

fn cell(value: Option<&str>) -> String {
    match value {
        Some(text) => format!("<Cell><Data ss:Type=\"String\">{text}</Data></Cell>"),
        None => "<Cell><Data ss:Type=\"String\"></Data></Cell>".to_string(),
    }
}

fn workbook(rows: &[Vec<Option<&str>>]) -> Vec<u8> {
    let mut xml = String::from("  <?xml version=\"1.0\" encoding=\"UTF-8\"?>\n");
    xml.push_str("<Workbook xmlns=\"urn:schemas-microsoft-com:office:spreadsheet\" ");
    xml.push_str("xmlns:ss=\"urn:schemas-microsoft-com:office:spreadsheet\">\n");
    xml.push_str("<Worksheet ss:Name=\"Profiles\"><Table>\n");
    for row in rows {
        xml.push_str("<Row>");
        for value in row {
            xml.push_str(&cell(*value));
        }
        xml.push_str("</Row>\n");
    }
    xml.push_str("</Table></Worksheet></Workbook>\n");
    xml.into_bytes()
}

fn operoo_export() -> Vec<u8> {
    workbook(&[
        vec![
            Some("Person Name"),
            Some("Group"),
            Some("Profile Id"),
            Some("Profile Owner's Name "),
            Some("Profile Owner's Email"),
            Some("Profile Owner's Mobile Phone"),
            Some("Person Birth Date"),
        ],
        vec![
            Some("jane  doe"),
            Some("Joeys"),
            Some("1001"),
            Some("Mary Doe"),
            Some("parent@example.com"),
            Some("+61412345678"),
            Some("7 March 2015"),
        ],
        vec![
            Some("Johnny Roe"),
            Some("Cubs"),
            Some("1002"),
            Some("Ann Roe"),
            Some("other@example.com"),
            Some("0498 765 432"),
            Some("garbage"),
        ],
        vec![
            Some("New Kid"),
            Some("Cubs"),
            Some("2001"),
            Some("A Parent"),
            Some("a@example.com"),
            Some("0411111111"),
            Some("1 January 2014"),
        ],
        vec![
            Some("Lee Low"),
            Some("Leaders"),
            Some("1004"),
            Some("Lee Low"),
            Some("lee@example.com"),
            Some("0422222222"),
            Some("6 May 1980"),
        ],
    ])
}

fn text(value: &str) -> Option<String> {
    Some(value.to_string())
}

fn mismatch(reg_id: i64, ours: &str, theirs: &str) -> MismatchRow {
    MismatchRow { reg_id, extranet: ours.to_string(), operoo: theirs.to_string() }
}

#[test]
fn format_guard_names_the_wrong_input() {
    let operoo = operoo_export();
    assert!(check_report_types(EXTRANET.as_bytes(), &operoo).is_ok());
    assert!(matches!(
        check_report_types(b"RegID,FullName\n", &operoo),
        Err(DiffError::InvalidFormat { source: Source::Extranet })
    ));
    assert!(matches!(
        check_report_types(EXTRANET.as_bytes(), b"<?xml version=\"1.0\"?>"),
        Err(DiffError::InvalidFormat { source: Source::Operoo })
    ));
    assert!(matches!(
        check_report_types(b"", b""),
        Err(DiffError::InvalidFormat { source: Source::Extranet })
    ));
    assert!(check_report_types(b"RegionID,", b"  <?xml").is_ok());
    assert!(matches!(
        check_report_types(b"RegionID", b"  <?xml"),
        Err(DiffError::InvalidFormat { source: Source::Extranet })
    ));
}

#[test]
fn prefixes_are_compared_byte_by_byte() {
    assert!(starts_with(b"abc", b""));
    assert!(starts_with(b"abc", b"ab"));
    assert!(starts_with(b"abc", b"abc"));
    assert!(!starts_with(b"abc", b"abcd"));
    assert!(!starts_with(b"abc", b"b"));
    assert!(starts_with(b"", b""));
}

#[test]
fn extranet_is_read_into_typed_records() {
    let roster = read_extranet(EXTRANET.as_bytes()).expect("a roster");
    assert_eq!(roster.rows.len(), 4);
    let first = &roster.rows[0];
    assert_eq!(first.reg_id, Some(1001));
    assert_eq!(first.full_name, text("Jane Doe"));
    assert_eq!(first.class_id, text("JOEY"));
    assert_eq!(first.contact_first_name, text("Mary"));
    assert_eq!(first.contact_surname, text("Doe"));
    assert_eq!(first.contact_email, text("Parent@Example.com"));
    assert_eq!(first.contact_mobile, text("412345678"));
    assert_eq!(first.dob, text("2015-03-07"));
    let last = &roster.rows[3];
    assert_eq!(last.reg_id, Some(1004));
    assert_eq!(last.contact_first_name, None);
    assert_eq!(last.contact_email, None);
    assert_eq!(last.contact_mobile, None);
}

#[test]
fn unparseable_cells_become_missing_values() {
    let mut csv = String::from("RegionID,RegID,FullName,ClassID,Primary Contact Firstname,Primary Contact Surname,Primary Contact Email,Primary Contact Mobile,DOB\n");
    for n in 0..150 {
        csv.push_str(&format!("9,{},Name {n},JOEY,A,B,a@b.c,0412345678,2015-03-07\n", 1000 + n));
    }
    csv.push_str("9,not a number,Odd One,JOEY,A,B,a@b.c,0412345678,2015-03-07\n");
    let roster = read_extranet(csv.as_bytes()).expect("a roster");
    assert_eq!(roster.rows.len(), 151);
    assert_eq!(roster.rows[149].reg_id, Some(1149));
    assert_eq!(roster.rows[150].reg_id, None);
    assert_eq!(roster.rows[150].full_name, text("Odd One"));
}

#[test]
fn extranet_without_a_needed_column_is_a_processing_failure() {
    let csv = "RegionID,RegID,FullName\n9,1001,Jane Doe\n";
    assert!(matches!(read_extranet(csv.as_bytes()), Err(DiffError::Processing { .. })));
    let csv = "RegionID,RegID,FullName,ClassID,Primary Contact Firstname,Primary Contact Surname,Primary Contact Email,Primary Contact Mobile,DOB\n\
9,abc,Jane Doe,JOEY,Mary,Doe,p@example.com,0412345678,2015-03-07\n";
    assert!(matches!(read_extranet(csv.as_bytes()), Err(DiffError::Processing { .. })));
}

#[test]
fn extranet_that_is_no_text_is_a_parse_failure() {
    let bytes = b"RegionID,RegID\n\xff\xfe,\"unterminated";
    let result = diff(bytes, &operoo_export());
    assert!(matches!(result, Err(DiffError::Parse { source: Source::Extranet, .. })), "{result:?}");
}

#[test]
fn operoo_keeps_the_needed_columns_in_header_order() {
    let table = read_operoo(&operoo_export()).expect("a table");
    assert_eq!(table.width(), 6);
    assert_eq!(table.height(), 4);
    assert_eq!(
        table.names(),
        vec![
            "Person Name",
            "Profile Id",
            "Profile Owner's Name ",
            "Profile Owner's Email",
            "Profile Owner's Mobile Phone",
            "Person Birth Date",
        ]
    );
    assert_eq!(
        table.cells("Profile Id"),
        Some(vec![text("1001"), text("1002"), text("2001"), text("1004")])
    );
    assert_eq!(
        table.cells("Person Name"),
        Some(vec![text("jane  doe"), text("Johnny Roe"), text("New Kid"), text("Lee Low")])
    );
    assert_eq!(table.cells("Group"), None);
}

#[test]
fn ragged_columns_are_filled_or_cut_to_the_first() {
    let bytes = workbook(&[
        vec![Some("Profile Id"), Some("Person Name"), Some("Person Birth Date")],
        vec![Some("1"), Some("A"), Some("1 May 2010")],
        vec![Some("2"), Some("B")],
        vec![Some("3"), None, Some("3 May 2010")],
    ]);
    let table = read_operoo(&bytes).expect("a table");
    assert_eq!(table.height(), 3);
    assert_eq!(table.cells("Profile Id"), Some(vec![text("1"), text("2"), text("3")]));
    assert_eq!(table.cells("Person Name"), Some(vec![text("A"), text("B"), None]));
    assert_eq!(
        table.cells("Person Birth Date"),
        Some(vec![text("1 May 2010"), text("3 May 2010"), None])
    );
    let bytes = workbook(&[
        vec![Some("Person Name"), Some("Profile Id")],
        vec![None, Some("1")],
        vec![Some("B"), Some("2")],
    ]);
    let table = read_operoo(&bytes).expect("a table");
    assert_eq!(table.height(), 2);
    assert_eq!(table.cells("Person Name"), Some(vec![None, text("B")]));
    let bytes = workbook(&[
        vec![Some("Person Name"), Some("Profile Id")],
        vec![Some("A")],
        vec![Some("B"), Some("2")],
        vec![Some("C"), Some("3")],
    ]);
    let table = read_operoo(&bytes).expect("a table");
    assert_eq!(table.cells("Profile Id"), Some(vec![text("2"), text("3"), None]));
}

#[test]
fn operoo_without_needed_headers_is_an_empty_table() {
    let bytes = workbook(&[vec![Some("Group"), Some("Other")], vec![Some("a"), Some("b")]]);
    let table = read_operoo(&bytes).expect("a table");
    assert_eq!(table.width(), 0);
    assert_eq!(table.height(), 0);
    assert!(matches!(operoo_table(&table), Err(DiffError::Processing { .. })));
}

#[test]
fn operoo_that_is_no_xml_is_a_parse_failure() {
    for bytes in [
        &b"  <?xml version=\"1.0\"?><Workbook>"[..],
        &b"  not xml at all"[..],
        &b"  \xff\xfe"[..],
        &b"  "[..],
    ] {
        let result = read_operoo(bytes);
        assert!(matches!(result, Err(DiffError::Parse { source: Source::Operoo, .. })), "{result:?}");
    }
}

#[test]
fn operoo_with_a_repeated_needed_header_is_a_parse_failure() {
    let bytes = workbook(&[
        vec![Some("Profile Id"), Some("Person Name"), Some("Person Name")],
        vec![Some("1"), Some("A"), Some("B")],
    ]);
    assert!(matches!(read_operoo(&bytes), Err(DiffError::Parse { source: Source::Operoo, .. })));
}

#[test]
fn profile_ids_are_cast_to_integers() {
    let table = Table::new(vec![
        Column { name: "Profile Id".to_string(), cells: vec![text("12"), text("x"), None, text("-3")] },
        Column { name: "Person Name".to_string(), cells: vec![text("a"), text("b"), text("c"), None] },
        Column { name: "Profile Owner's Name ".to_string(), cells: vec![None, None, None, None] },
        Column { name: "Profile Owner's Email".to_string(), cells: vec![None, None, None, None] },
        Column { name: "Profile Owner's Mobile Phone".to_string(), cells: vec![None, None, None, None] },
        Column { name: "Person Birth Date".to_string(), cells: vec![None, None, None, None] },
    ])
    .expect("a table");
    let roster = operoo_table(&table).expect("a roster");
    let keys: Vec<Option<i64>> = roster.rows.iter().map(|row| row.profile_id).collect();
    assert_eq!(keys, vec![Some(12), None, None, Some(-3)]);
    assert_eq!(roster.rows[1].person_name, text("b"));
}

#[test]
fn tables_need_one_height_and_distinct_names() {
    let column = |name: &str, n: usize| Column { name: name.to_string(), cells: vec![None; n] };
    assert!(Table::new(Vec::new()).is_some());
    assert!(Table::new(vec![column("a", 2), column("b", 2)]).is_some());
    assert!(Table::new(vec![column("a", 2), column("b", 3)]).is_none());
    assert!(Table::new(vec![column("a", 2), column("a", 2)]).is_none());
}

#[test]
fn needed_headers_and_column_queries() {
    assert!(is_needed_name("Profile Id"));
    assert!(is_needed_name("Profile Owner's Name "));
    assert!(!is_needed_name("Profile Owner's Name"));
    assert!(!is_needed_name("profile id"));
    assert_eq!(
        column_path_text(12),
        "doc:Workbook/doc:Worksheet/doc:Table/doc:Row[position()>1]/doc:Cell[12]/doc:Data"
    );
}

#[test]
fn diff_reports_every_kind_of_discrepancy() {
    let report = diff(EXTRANET.as_bytes(), &operoo_export()).expect("a report");
    assert_eq!(
        report.kinds(),
        vec![
            TableKind::DifferentDateOfBirth,
            TableKind::DifferentNames,
            TableKind::DifferentPrimaryContactEmails,
            TableKind::DifferentPrimaryContactMobileNumbers,
            TableKind::MissingFromExtranet,
            TableKind::MissingFromOperoo,
        ]
    );
    assert_eq!(
        report.missing(Source::Operoo),
        Some(&vec![MissingRow { reg_id: Some(1003), name: text("Sam Poe") }])
    );
    assert_eq!(
        report.missing(Source::Extranet),
        Some(&vec![MissingRow { reg_id: Some(2001), name: text("New Kid") }])
    );
    assert_eq!(
        report.mismatches(MatchRule::Names),
        Some(&vec![mismatch(1002, "John Roe", "Johnny Roe")])
    );
    assert_eq!(report.mismatches(MatchRule::ContactNames), None);
    assert_eq!(
        report.mismatches(MatchRule::ContactEmails),
        Some(&vec![mismatch(1002, "ann@example.com", "other@example.com")])
    );
    assert_eq!(
        report.mismatches(MatchRule::ContactMobiles),
        Some(&vec![mismatch(1002, "498765432", "0498 765 432")])
    );
    assert_eq!(
        report.mismatches(MatchRule::BirthDates),
        Some(&vec![mismatch(1002, "2013-11-30", "")])
    );
}

#[test]
fn diff_gives_the_same_report_twice() {
    let operoo = operoo_export();
    let first = diff(EXTRANET.as_bytes(), &operoo).expect("a report");
    let second = diff(EXTRANET.as_bytes(), &operoo).expect("a report");
    assert_eq!(first.kinds(), second.kinds());
    assert_eq!(first.missing(Source::Operoo), second.missing(Source::Operoo));
    assert_eq!(first.missing(Source::Extranet), second.missing(Source::Extranet));
    for rule in [
        MatchRule::Names,
        MatchRule::ContactNames,
        MatchRule::ContactEmails,
        MatchRule::ContactMobiles,
        MatchRule::BirthDates,
    ] {
        assert_eq!(first.mismatches(rule), second.mismatches(rule));
    }
}

#[test]
fn diff_fails_as_a_whole() {
    let operoo = operoo_export();
    assert!(matches!(
        diff(b"nothing", &operoo),
        Err(DiffError::InvalidFormat { source: Source::Extranet })
    ));
    assert!(matches!(
        diff(EXTRANET.as_bytes(), b"<Workbook/>"),
        Err(DiffError::InvalidFormat { source: Source::Operoo })
    ));
    assert!(matches!(
        diff(EXTRANET.as_bytes(), b"  <?xml version=\"1.0\"?><Workbook>"),
        Err(DiffError::Parse { source: Source::Operoo, .. })
    ));
    assert!(matches!(
        diff(b"RegionID,RegID\n9,1\n", &operoo),
        Err(DiffError::Processing { .. })
    ));
    let headless = workbook(&[vec![Some("Person Name")], vec![Some("A")]]);
    assert!(matches!(diff(EXTRANET.as_bytes(), &headless), Err(DiffError::Processing { .. })));
}

#[test]
fn diff_handles_a_roster_of_a_thousand_members() {
    let mut csv = String::from("RegionID,RegID,FullName,ClassID,Primary Contact Firstname,Primary Contact Surname,Primary Contact Email,Primary Contact Mobile,DOB\n");
    let mut rows: Vec<Vec<String>> = Vec::new();
    for n in 0..1000 {
        csv.push_str(&format!(
            "9,{},Member {n},CUB,Pat,Parent{n},p{n}@example.com,04{:08},2012-01-{:02}\n",
            5000 + n,
            n,
            1 + n % 28
        ));
        let birth = if n % 100 == 0 { "unknown".to_string() } else { format!("{} January 2012", 1 + n % 28) };
        rows.push(vec![
            format!("{}", 5000 + n + n / 500),
            format!("MEMBER   {n}"),
            format!("pat parent{n}"),
            format!("P{n}@Example.com"),
            format!("+614{:08}", n),
            birth,
        ]);
    }
    let mut table: Vec<Vec<Option<&str>>> = vec![vec![
        Some("Profile Id"),
        Some("Person Name"),
        Some("Profile Owner's Name "),
        Some("Profile Owner's Email"),
        Some("Profile Owner's Mobile Phone"),
        Some("Person Birth Date"),
    ]];
    for row in &rows {
        table.push(row.iter().map(|value| Some(value.as_str())).collect());
    }
    let report = diff(csv.as_bytes(), &workbook(&table)).expect("a report");
    assert_eq!(
        report.kinds(),
        vec![
            TableKind::DifferentDateOfBirth,
            TableKind::DifferentNames,
            TableKind::DifferentPrimaryContactEmails,
            TableKind::DifferentPrimaryContactMobileNumbers,
            TableKind::DifferentPrimaryContactNames,
            TableKind::MissingFromExtranet,
            TableKind::MissingFromOperoo,
        ]
    );
    assert_eq!(
        report.missing(Source::Operoo),
        Some(&vec![MissingRow { reg_id: Some(5500), name: text("Member 500") }])
    );
    assert_eq!(
        report.missing(Source::Extranet),
        Some(&vec![MissingRow { reg_id: Some(6000), name: text("MEMBER   999") }])
    );
    assert_eq!(report.mismatches(MatchRule::Names).map(|rows| rows.len()), Some(499));
    assert_eq!(report.mismatches(MatchRule::ContactNames).map(|rows| rows.len()), Some(499));
    assert_eq!(report.mismatches(MatchRule::ContactEmails).map(|rows| rows.len()), Some(499));
    assert_eq!(report.mismatches(MatchRule::ContactMobiles).map(|rows| rows.len()), Some(499));
    let dates = report.mismatches(MatchRule::BirthDates).expect("dates differ");
    assert_eq!(dates[0], MismatchRow { reg_id: 5000, extranet: "2012-01-01".to_string(), operoo: String::new() });
}

#[test]
fn operoo_failures_say_what_went_wrong() {
    let message = |bytes: &[u8]| read_operoo(bytes).map(|table| table.width()).map_err(|e| e.message());
    assert_eq!(
        message(b" "),
        Err("Error while reading operoo data: The export is shorter than its prefix".to_string())
    );
    assert_eq!(
        message(b""),
        Err("Error while reading operoo data: The export is shorter than its prefix".to_string())
    );
    let repeated = workbook(&[
        vec![Some("Profile Id"), Some("Person Name"), Some("Person Name")],
        vec![Some("1"), Some("A"), Some("B")],
    ]);
    assert_eq!(
        message(&repeated),
        Err("Error while reading operoo data: Two columns have the same name".to_string())
    );
}

#[test]
fn operoo_failures_carry_the_decoder_and_the_parser_message() {
    let bad_text: &[u8] = b"  <a>\xff</a>";
    let expected = std::str::from_utf8(&bad_text[2..]).expect_err("no text").to_string();
    match read_operoo(bad_text) {
        Err(DiffError::Parse { source: Source::Operoo, detail }) => assert_eq!(detail, expected),
        other => panic!("{other:?}"),
    }
    let bad_xml = "  <?xml version=\"1.0\"?><Workbook><Row></Workbook>";
    let expected = sxd_document::parser::parse(&bad_xml[2..]).expect_err("no document").to_string();
    match read_operoo(bad_xml.as_bytes()) {
        Err(DiffError::Parse { source: Source::Operoo, detail }) => assert_eq!(detail, expected),
        other => panic!("{other:?}"),
    }
    assert_eq!(
        diff(EXTRANET.as_bytes(), bad_xml.as_bytes()).map(|report| report.len()).map_err(|e| e.message()),
        Err(format!("Error while reading operoo data: {expected}"))
    );
}

#[test]
fn absent_operoo_columns_are_named_in_the_order_of_the_rules() {
    let message = |rows: &[Vec<Option<&str>>]| {
        let table = read_operoo(&workbook(rows)).expect("a table");
        operoo_table(&table).map(|roster| roster.rows.len()).map_err(|e| e.message())
    };
    assert_eq!(
        message(&[vec![Some("Group")], vec![Some("a")]]),
        Err("Error while processing data: not found: Profile Id".to_string())
    );
    assert_eq!(
        message(&[vec![Some("Person Birth Date"), Some("Profile Id")], vec![Some("x"), Some("1")]]),
        Err("Error while processing data: not found: Person Name".to_string())
    );
    assert_eq!(
        message(&[
            vec![
                Some("Profile Id"),
                Some("Person Name"),
                Some("Profile Owner's Name "),
                Some("Profile Owner's Email"),
                Some("Person Birth Date"),
            ],
            vec![Some("1"), Some("a"), Some("b"), Some("c"), Some("d")],
        ]),
        Err("Error while processing data: not found: Profile Owner's Mobile Phone".to_string())
    );
    let headless = workbook(&[vec![Some("Person Name")], vec![Some("A")]]);
    assert_eq!(
        diff(EXTRANET.as_bytes(), &headless).map(|report| report.len()).map_err(|e| e.message()),
        Err("Error while processing data: not found: Profile Id".to_string())
    );
}

#[test]
fn a_cell_is_the_text_of_its_first_child_only() {
    let mut xml = String::from("  <?xml version=\"1.0\"?>\n");
    xml.push_str("<Workbook xmlns=\"urn:schemas-microsoft-com:office:spreadsheet\"><Worksheet><Table>");
    xml.push_str("<Row><Cell><Data>Profile Id</Data></Cell><Cell><Data>Person Name</Data></Cell></Row>");
    xml.push_str("<Row><Cell><Data>1</Data></Cell><Cell><Data><!-- note -->Ann</Data></Cell></Row>");
    xml.push_str("<Row><Cell><Data>2</Data></Cell><Cell><Data>Bob<b/>by</Data></Cell></Row>");
    xml.push_str("<Row><Cell><Data>3</Data></Cell><Cell><Data><b>Cy</b></Data></Cell></Row>");
    xml.push_str("<Row><Cell><Data>4</Data></Cell><Cell><Data/></Cell></Row>");
    xml.push_str("</Table></Worksheet></Workbook>");
    let table = read_operoo(xml.as_bytes()).expect("a table");
    assert_eq!(table.cells("Profile Id"), Some(vec![text("1"), text("2"), text("3"), text("4")]));
    assert_eq!(table.cells("Person Name"), Some(vec![None, text("Bob"), None, None]));
}

#[test]
fn a_failed_read_is_a_parse_failure_with_the_reader_message() {
    let result = diff_read(Err("no rows".to_string()), &operoo_export());
    assert_eq!(
        result.map(|report| report.len()).map_err(|e| e.message()),
        Err("Error while reading extranet data: no rows".to_string())
    );
    let result = diff_read(Err("no rows".to_string()), b"");
    assert!(matches!(result, Err(DiffError::Parse { source: Source::Extranet, .. })));
    let roster = extranet_after_read(Err("cut short".to_string()));
    assert_eq!(
        roster.map(|roster| roster.rows.len()).map_err(|e| e.message()),
        Err("Error while reading extranet data: cut short".to_string())
    );
}
