use set_evals::model::Course;
use set_evals::page::{choice_selector, read_page_text, ReportPage};
use set_evals::parser::{
    detect_layout, parse_report, parse_report_html, LayoutKind, ParseError, ParseField,
};
use set_evals::pattern::section_code;
use set_evals::stats::HoursCounts;
use set_evals::text::{parse_count, parse_instructor, parse_int, parse_stat, split_term, trim};

fn course() -> Course {
    Course { code: "CSE100".to_string(), name: "CSE 100 - Data Structures".to_string(), unit_id: 7 }
}

fn choice(q: usize, i: usize, n: u32) -> String {
    format!(
        "<span id=\"ContentPlaceHolder1_EvalsContentPlaceHolder_rptQuestionnaire_rptChoices_{q}_rbSelect_{i}\">{n}<b>label</b></span>"
    )
}

fn question(q: usize, counts: &[u32]) -> String {
    counts.iter().enumerate().map(|(i, n)| choice(q, i, *n)).collect()
}

fn header(with_expected: bool) -> String {
    let mut s = String::new();
    s.push_str("<div id=\"ContentPlaceHolder1_EvalsContentPlaceHolder_lblSummaryTitle\">");
    s.push_str("<p>Smith, John, CSE 100, Data Structures<br>Fall 2023, Section ID 123456 (A00)</p>");
    s.push_str("<p>Responses: 12<br>Enrollment: 40</p>");
    s.push_str("</div>");
    if with_expected {
        s.push_str("<table id=\"ContentPlaceHolder1_EvalsContentPlaceHolder_tblExpectedGrades\"><tbody><tr>");
        for n in [5, 4, 2, 1, 0, 0, 0] {
            s.push_str(&format!("<td> {n} </td>"));
        }
        s.push_str("</tr></tbody></table>");
    }
    s.push_str("<table id=\"ContentPlaceHolder1_EvalsContentPlaceHolder_tblGradesReceived\"><tbody><tr>");
    for n in [6, 3, 2, 0, 1, 0, 0] {
        s.push_str(&format!("<td>{n}</td>"));
    }
    s.push_str("</tr></tbody></table>");
    s
}

fn long_page(hours_at: usize) -> String {
    let mut s = format!("<html><body>{}", header(true));
    for q in 0..11 {
        s.push_str(&question(q, &[q as u32, 1, 2, 3, 4, 5]));
    }
    s.push_str(&question(hours_at - 1, &[1, 2, 3, 4, 5]));
    s.push_str(&question(hours_at, &[0, 1, 2, 3, 0, 0, 0, 0, 0, 0, 6]));
    s.push_str("</body></html>");
    s
}

fn short_page(with_hours: bool) -> String {
    let mut s = format!("<html><body>{}", header(false));
    s.push_str(&question(1, &[2, 2, 2, 2, 2]));
    if with_hours {
        s.push_str(&question(2, &[3, 4, 5, 0]));
    }
    for q in 4..15 {
        s.push_str(&question(q, &[1, 1, 1, 1, 1, q as u32]));
    }
    s.push_str("</body></html>");
    s
}

#[test]
fn parses_long_form_page() {
    let e = parse_report_html(&long_page(16), 987, &course()).unwrap();
    assert_eq!(e.sid, 987);
    assert_eq!(e.course_code, "CSE100");
    assert_eq!(e.instructor, "Smith, John");
    assert_eq!(e.term, "Fall 2023");
    assert_eq!(e.section_name, "A00");
    assert_eq!(e.responses, 12);
    assert_eq!(e.enrollment, 40);
    assert_eq!(e.expected_grades, vec![5, 4, 2, 1, 0, 0, 0]);
    assert_eq!(e.actual_grades, vec![6, 3, 2, 0, 1, 0, 0]);
    assert_eq!(e.hours, HoursCounts::Long(vec![0, 1, 2, 3, 0, 0, 0, 0, 0, 0, 6]));
    assert_eq!(e.materials, vec![1, 2, 3, 4, 5]);
    assert_eq!(e.class_helped_understanding, vec![0, 1, 2, 3, 4, 5]);
    assert_eq!(e.welcoming, vec![10, 1, 2, 3, 4, 5]);
}

#[test]
fn long_form_layout_offset_is_detected() {
    let page = read_page_text(&long_page(19));
    assert_eq!(detect_layout(&page), LayoutKind::Long { offset: 19 });
}

#[test]
fn falls_back_to_short_form() {
    let page = read_page_text(&short_page(true));
    assert_eq!(detect_layout(&page), LayoutKind::Short);
    let e = parse_report(&page, 5, &course()).unwrap();
    assert_eq!(e.hours, HoursCounts::Short(vec![3, 4, 5, 0]));
    assert_eq!(e.materials, vec![2, 2, 2, 2, 2]);
    assert_eq!(e.class_helped_understanding, vec![1, 1, 1, 1, 1, 4]);
    assert_eq!(e.welcoming, vec![1, 1, 1, 1, 1, 14]);
    // An absent expected grades table reads as seven zero buckets.
    assert_eq!(e.expected_grades, vec![0; 7]);
}

#[test]
fn neither_layout_names_missing_question() {
    let r = parse_report_html(&short_page(false), 77, &course());
    assert_eq!(r.unwrap_err(), ParseError { sid: 77, field: ParseField::Question { index: 2, choice: 0 } });
}

#[test]
fn missing_title_is_a_typed_failure() {
    let r = parse_report_html("<html><body><p>nothing</p></body></html>", 3, &course());
    assert_eq!(r.unwrap_err(), ParseError { sid: 3, field: ParseField::Title });
}

#[test]
fn missing_received_grades_fails() {
    let page = long_page(14).replace("tblGradesReceived", "tblOther");
    let r = parse_report_html(&page, 4, &course());
    assert_eq!(r.unwrap_err(), ParseError { sid: 4, field: ParseField::ActualGrades });
}

#[test]
fn missing_scale_choice_fails() {
    let page = long_page(14).replace("rptChoices_7_rbSelect_5", "gone");
    let r = parse_report_html(&page, 8, &course());
    assert_eq!(r.unwrap_err(), ParseError { sid: 8, field: ParseField::Question { index: 7, choice: 5 } });
}

#[test]
fn report_page_without_questions() {
    let page = ReportPage {
        title_lines: Some(vec!["Course, Doe, Jane".to_string(), "Spring 2020, Section ID 1 (B01)".to_string()]),
        stat_lines: Some(vec!["Responses: 3".to_string()]),
        expected_cells: None,
        actual_cells: Some(vec!["1".to_string()]),
        choices: vec![vec![]; 21],
    };
    let r = parse_report(&page, 1, &course());
    assert_eq!(r.unwrap_err(), ParseError { sid: 1, field: ParseField::EnrollmentCount });
}

#[test]
fn instructor_precedes_second_comma_from_right() {
    assert_eq!(parse_instructor("Smith, John, CSE 100, Data").as_deref(), Some("Smith, John"));
    assert_eq!(parse_instructor("Only, one"), None);
    assert_eq!(parse_instructor("a,b,  c "), Some("a".to_string()));
    assert_eq!(parse_instructor(" Doe, Jane , X, Y"), Some("Doe, Jane".to_string()));
}

#[test]
fn received_grades_need_seven_cells() {
    let page = long_page(14).replace("<td>0</td></tr>", "</tr>");
    let r = parse_report_html(&page, 6, &course());
    assert_eq!(r.unwrap_err(), ParseError { sid: 6, field: ParseField::ActualGrades });
}

#[test]
fn expected_grades_of_wrong_length_read_as_zeros() {
    let page = long_page(14).replace("<td> 5 </td>", "");
    let e = parse_report_html(&page, 6, &course()).unwrap();
    assert_eq!(e.expected_grades, vec![0; 7]);
}

#[test]
fn term_split_at_first_comma() {
    assert_eq!(
        split_term(" Fall 2023 , Section ID 9 (C02), x"),
        Some(("Fall 2023".to_string(), " Section ID 9 (C02), x".to_string()))
    );
    assert_eq!(split_term("no comma"), None);
}

#[test]
fn section_code_from_pattern() {
    assert_eq!(section_code(" Section ID 123456 (A00)").as_deref(), Some("A00"));
    assert_eq!(section_code("Section 123456 (A00)"), None);
}

#[test]
fn counts_and_stat_lines() {
    assert_eq!(parse_count("42"), Some(42));
    assert_eq!(parse_count("+7"), Some(7));
    assert_eq!(parse_count("2147483647"), Some(2147483647));
    assert_eq!(parse_count("2147483648"), None);
    assert_eq!(parse_count(""), None);
    assert_eq!(parse_count("-1"), None);
    assert_eq!(parse_count("4a"), None);
    assert_eq!(parse_stat("Responses: 12 "), Some(12));
    assert_eq!(parse_stat("Responses:12"), None);
}

#[test]
fn choice_selector_spelling() {
    assert_eq!(
        choice_selector(14, 10),
        "#ContentPlaceHolder1_EvalsContentPlaceHolder_rptQuestionnaire_rptChoices_14_rbSelect_10"
    );
}

#[test]
fn signed_integers() {
    assert_eq!(parse_int("-1"), Some(-1));
    assert_eq!(parse_int("+12"), Some(12));
    assert_eq!(parse_int("2147483647"), Some(i32::MAX));
    assert_eq!(parse_int("-2147483648"), Some(i32::MIN));
    assert_eq!(parse_int("-2147483649"), None);
    assert_eq!(parse_int("--1"), None);
    assert_eq!(parse_int("-"), None);
    assert_eq!(parse_int(""), None);
}

#[test]
fn trim_removes_unicode_whitespace() {
    assert_eq!(trim(" \t 25 \n"), "25");
    assert_eq!(trim("\u{a0}\u{3000}a b\u{2009}"), "a b");
    assert_eq!(trim("   "), "");
    assert_eq!(trim(""), "");
    assert_eq!(trim("\u{200b}x"), "\u{200b}x");
}

#[test]
fn short_form_materials_names_bad_choice() {
    let page = short_page(true).replace("rptChoices_1_rbSelect_3\">2", "rptChoices_1_rbSelect_3\">x");
    let r = parse_report_html(&page, 9, &course());
    assert_eq!(r.unwrap_err(), ParseError { sid: 9, field: ParseField::Question { index: 1, choice: 3 } });
}
