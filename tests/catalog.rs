use set_evals::catalog::{
    course_selector, courses_from_items, int_to_string, search_form, unique_courses, units_from_items,
};
use set_evals::ingest::{Evaluation, IngestTally, ReportFailure};
use set_evals::crawl::FetchError;
use set_evals::model::{Course, Unit};
use set_evals::parser::{ParseError, ParseField, RawEvaluation};
use set_evals::session::cookie_header;
use set_evals::settings::settings;
use set_evals::stats::HoursCounts;

fn pair(a: &str, b: &str) -> (String, String) {
    (a.to_string(), b.to_string())
}

#[test]
fn units_skip_non_numeric_values() {
    let items = vec![
        pair("Arts", "12"),
        pair("Select", ""),
        pair("Biology", "7"),
        pair("Minus", "-1"),
        pair("Plus", "+3"),
        pair("Big", "2147483648"),
        pair("Least", "-2147483648"),
        pair("Dash", "-"),
    ];
    assert_eq!(
        units_from_items(&items),
        vec![
            Unit { id: 12, name: "Arts".to_string() },
            Unit { id: 7, name: "Biology".to_string() },
            Unit { id: -1, name: "Minus".to_string() },
            Unit { id: 3, name: "Plus".to_string() },
            Unit { id: i32::MIN, name: "Least".to_string() },
        ]
    );
}

#[test]
fn courses_take_code_from_value() {
    let items = vec![pair("CSE 100 - Data", "CSE100")];
    assert_eq!(
        courses_from_items(4, &items),
        vec![Course { code: "CSE100".to_string(), name: "CSE 100 - Data".to_string(), unit_id: 4 }]
    );
}

#[test]
fn duplicate_course_codes_are_dropped() {
    let c = |code: &str, unit: i32| Course { code: code.to_string(), name: code.to_lowercase(), unit_id: unit };
    let out = unique_courses(&vec![c("B", 1), c("A", 1), c("B", 2), c("A", 3), c("C", 1)]);
    assert_eq!(out, vec![c("B", 1), c("A", 1), c("C", 1)]);
}

#[test]
fn search_form_fields() {
    let course = Course { code: "CSE100".to_string(), name: "CSE 100 - Data Structures".to_string(), unit_id: 42 };
    assert_eq!(course_selector(&course), "CSE100:::CSE+100+-+Data+Structures");
    let form = search_form(&course);
    assert_eq!(form.len(), 4);
    assert_eq!(form[0], pair("__EVENTTARGET", ""));
    assert_eq!(form[1], pair("ctl00$ctl00$ContentPlaceHolder1$EvalsContentPlaceHolder$ddlUnit", "42"));
    assert_eq!(form[2].1, "CSE100:::CSE+100+-+Data+Structures");
    assert_eq!(form[3].1, "Search");
}

#[test]
fn integers_spelled_in_decimal() {
    assert_eq!(int_to_string(0), "0");
    assert_eq!(int_to_string(1209), "1209");
    assert_eq!(int_to_string(-35), "-35");
    assert_eq!(int_to_string(i32::MIN), "-2147483648");
    assert_eq!(int_to_string(i32::MAX), "2147483647");
}

#[test]
fn cookie_header_joins_pairs() {
    assert_eq!(cookie_header(&vec![pair("a", "1"), pair("sess", "xyz")]), "a=1;sess=xyz;");
    assert_eq!(cookie_header(&vec![]), "");
}

#[test]
fn settings_build_addresses() {
    let s = settings(
        "https://example.edu".to_string(),
        "http://svc".to_string(),
        Some("u".to_string()),
        None,
        "SECRET-REDACTED".to_string(),
        "postgres://db".to_string(),
    );
    assert_eq!(s.search_url(), "https://example.edu/Modules/Evals/SET/Reports/Search.aspx");
    assert_eq!(s.report_url(31), "https://example.edu/Modules/Evals/SET/Reports/SETSummary.aspx?sid=31");
    assert_eq!(s.cookies_url(), "http://svc/cookies");
    assert_eq!(s.proxy_address(), "http://svc:5000");
    assert_eq!(s.proxy_credentials(), None);
    let mut s2 = s.clone();
    s2.proxy_password = Some("p".to_string());
    assert_eq!(s2.proxy_credentials(), Some(pair("u", "p")));
}

fn raw() -> RawEvaluation {
    RawEvaluation {
        sid: 9,
        section_name: "A00".to_string(),
        course_code: "CSE100".to_string(),
        term: "Fall 2023".to_string(),
        instructor: "Smith, John".to_string(),
        enrollment: 40,
        responses: 12,
        class_helped_understanding: vec![1; 6],
        assignments_helped_understanding: vec![2; 6],
        fair_exams: vec![3; 6],
        timely_feedback: vec![4; 6],
        developed_understanding: vec![5; 6],
        engaging: vec![6; 6],
        communication: vec![7; 6],
        help_opportunities: vec![8; 6],
        effective_methods: vec![9; 6],
        timeliness: vec![10; 6],
        welcoming: vec![11; 6],
        materials: vec![1, 2, 3, 4, 5],
        hours: HoursCounts::Short(vec![1, 2, 3, 4]),
        expected_grades: vec![0; 7],
        actual_grades: vec![1, 0, 0, 0, 0, 0, 0],
    }
}

#[test]
fn row_from_parsed_report() {
    let e = Evaluation::from_raw(raw(), 3, 5);
    assert_eq!(e.sid, 9);
    assert_eq!(e.term_id, 3);
    assert_eq!(e.instructor_id, 5);
    assert_eq!(e.hours, vec![1, 2, 3, 4]);
    assert_eq!(e.welcoming, vec![11; 6]);
    assert_eq!(e.actual_grades, vec![1, 0, 0, 0, 0, 0, 0]);
}

#[test]
fn tally_counts_rows_and_failures() {
    let mut t = IngestTally::new();
    assert!(t.is_clean());
    t.record_saved(1);
    t.record_saved(1);
    assert_eq!(t.saved(), 2);
    t.record_failure(4, ReportFailure::Fetch(FetchError::AuthExpired));
    t.record_failure(5, ReportFailure::Parse(ParseError { sid: 5, field: ParseField::Title }));
    assert!(!t.is_clean());
    assert_eq!(t.failures().len(), 2);
    t.record_saved(u64::MAX);
    assert_eq!(t.saved(), u64::MAX);
}
