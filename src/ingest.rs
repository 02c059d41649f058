use vstd::prelude::*;
use crate::crawl::FetchError;
use crate::model::Course;
use crate::page::ReportPage;
use crate::parser::{lemma_report_is_determined, report_matches, ParseError, RawEvaluation};
use crate::stats::HoursCounts;

verus! {

/// A stored evaluation row: a parsed report with its term and instructor resolved to ids.
#[derive(Clone, Debug)]
pub struct Evaluation {
    pub sid: i32,
    pub section_name: String,
    pub course_code: String,
    pub term_id: i32,
    pub instructor_id: i32,
    pub enrollment: u32,
    pub responses: u32,
    pub class_helped_understanding: Vec<u32>,
    pub assignments_helped_understanding: Vec<u32>,
    pub fair_exams: Vec<u32>,
    pub timely_feedback: Vec<u32>,
    pub developed_understanding: Vec<u32>,
    pub engaging: Vec<u32>,
    pub communication: Vec<u32>,
    pub help_opportunities: Vec<u32>,
    pub effective_methods: Vec<u32>,
    pub timeliness: Vec<u32>,
    pub welcoming: Vec<u32>,
    pub materials: Vec<u32>,
    pub hours: Vec<u32>,
    pub expected_grades: Vec<u32>,
    pub actual_grades: Vec<u32>,
}

/// `row` is the row of `raw` with its term and instructor resolved to the given ids.
pub open spec fn row_of(raw: RawEvaluation, term_id: i32, instructor_id: i32, row: Evaluation) -> bool {
    &&& row.sid == raw.sid
    &&& row.section_name@ == raw.section_name@
    &&& row.course_code@ == raw.course_code@
    &&& row.term_id == term_id
    &&& row.instructor_id == instructor_id
    &&& row.enrollment == raw.enrollment
    &&& row.responses == raw.responses
    &&& row.class_helped_understanding@ == raw.class_helped_understanding@
    &&& row.assignments_helped_understanding@ == raw.assignments_helped_understanding@
    &&& row.fair_exams@ == raw.fair_exams@
    &&& row.timely_feedback@ == raw.timely_feedback@
    &&& row.developed_understanding@ == raw.developed_understanding@
    &&& row.engaging@ == raw.engaging@
    &&& row.communication@ == raw.communication@
    &&& row.help_opportunities@ == raw.help_opportunities@
    &&& row.effective_methods@ == raw.effective_methods@
    &&& row.timeliness@ == raw.timeliness@
    &&& row.welcoming@ == raw.welcoming@
    &&& row.materials@ == raw.materials@
    &&& row.hours@ == raw.hours.counts_spec()
    &&& row.expected_grades@ == raw.expected_grades@
    &&& row.actual_grades@ == raw.actual_grades@
}

/// Two rows hold the same values in every column.
pub open spec fn same_values(a: Evaluation, b: Evaluation) -> bool {
    &&& a.sid == b.sid
    &&& a.section_name@ == b.section_name@
    &&& a.course_code@ == b.course_code@
    &&& a.term_id == b.term_id
    &&& a.instructor_id == b.instructor_id
    &&& a.enrollment == b.enrollment
    &&& a.responses == b.responses
    &&& a.class_helped_understanding@ == b.class_helped_understanding@
    &&& a.assignments_helped_understanding@ == b.assignments_helped_understanding@
    &&& a.fair_exams@ == b.fair_exams@
    &&& a.timely_feedback@ == b.timely_feedback@
    &&& a.developed_understanding@ == b.developed_understanding@
    &&& a.engaging@ == b.engaging@
    &&& a.communication@ == b.communication@
    &&& a.help_opportunities@ == b.help_opportunities@
    &&& a.effective_methods@ == b.effective_methods@
    &&& a.timeliness@ == b.timeliness@
    &&& a.welcoming@ == b.welcoming@
    &&& a.materials@ == b.materials@
    &&& a.hours@ == b.hours@
    &&& a.expected_grades@ == b.expected_grades@
    &&& a.actual_grades@ == b.actual_grades@
}

impl Evaluation {
    /// The row of a parsed report, given the ids its term and instructor resolved to.
    /// The hours keep their bucket counts; their number of buckets tells the scale apart.
    pub fn from_raw(raw: RawEvaluation, term_id: i32, instructor_id: i32) -> (r: Evaluation)
        ensures
            row_of(raw, term_id, instructor_id, r),
    {
        let hours = match raw.hours {
            HoursCounts::Short(v) => v,
            HoursCounts::Long(v) => v,
        };
        Evaluation {
            sid: raw.sid,
            section_name: raw.section_name,
            course_code: raw.course_code,
            term_id,
            instructor_id,
            enrollment: raw.enrollment,
            responses: raw.responses,
            class_helped_understanding: raw.class_helped_understanding,
            assignments_helped_understanding: raw.assignments_helped_understanding,
            fair_exams: raw.fair_exams,
            timely_feedback: raw.timely_feedback,
            developed_understanding: raw.developed_understanding,
            engaging: raw.engaging,
            communication: raw.communication,
            help_opportunities: raw.help_opportunities,
            effective_methods: raw.effective_methods,
            timeliness: raw.timeliness,
            welcoming: raw.welcoming,
            materials: raw.materials,
            hours,
            expected_grades: raw.expected_grades,
            actual_grades: raw.actual_grades,
        }
    }
}

/// Ingesting the same report page again, for the same report and course and with its term
/// and instructor resolved to the same ids, yields a row with the same value in every
/// column as the first time.
pub proof fn lemma_reingest_same_values(
    page: ReportPage,
    sid: i32,
    course: Course,
    first: RawEvaluation,
    again: RawEvaluation,
    term_id: i32,
    instructor_id: i32,
    first_row: Evaluation,
    again_row: Evaluation,
)
    requires
        report_matches(page, sid, course, first),
        report_matches(page, sid, course, again),
        row_of(first, term_id, instructor_id, first_row),
        row_of(again, term_id, instructor_id, again_row),
    ensures
        same_values(first_row, again_row),
{
    lemma_report_is_determined(page, sid, course, first, again);
}

/// Why one report of a batch was not stored.
#[derive(Clone, Copy, Debug, PartialEq, Eq)]
pub enum ReportFailure {
    /// The page could not be fetched.
    Fetch(FetchError),
    /// The page was fetched but did not read.
    Parse(ParseError),
}

/// The outcome of storing a batch of reports: rows written, and each report that failed.
pub struct IngestTally {
    saved: u64,
    failures: Vec<(i32, ReportFailure)>,
}

impl IngestTally {
    pub closed spec fn saved_view(&self) -> nat {
        self.saved as nat
    }

    pub closed spec fn failures_view(&self) -> Seq<(i32, ReportFailure)> {
        self.failures@
    }

    pub fn new() -> (r: IngestTally)
        ensures
            r.saved_view() == 0,
            r.failures_view() == Seq::<(i32, ReportFailure)>::empty(),
    {
        IngestTally { saved: 0, failures: Vec::new() }
    }

    /// Adds the rows a store call reported as written (saturating at `u64::MAX`).
    pub fn record_saved(&mut self, rows: u64)
        ensures
            final(self).saved_view() as int == if old(self).saved_view() + rows > u64::MAX {
                u64::MAX as int
            } else {
                old(self).saved_view() + rows
            },
            final(self).failures_view() == old(self).failures_view(),
    {
        self.saved = self.saved.saturating_add(rows);
    }

    /// Records that report `sid` failed.
    pub fn record_failure(&mut self, sid: i32, failure: ReportFailure)
        ensures
            final(self).saved_view() == old(self).saved_view(),
            final(self).failures_view() == old(self).failures_view().push((sid, failure)),
    {
        self.failures.push((sid, failure));
    }

    pub fn saved(&self) -> (r: u64)
        ensures
            r as nat == self.saved_view(),
    {
        self.saved
    }

    pub fn failures(&self) -> (r: &Vec<(i32, ReportFailure)>)
        ensures
            r@ == self.failures_view(),
    {
        &self.failures
    }

    /// The batch had no failure; otherwise the caller renews the session before the next one.
    pub fn is_clean(&self) -> (r: bool)
        ensures
            r == (self.failures_view().len() == 0),
    {
        self.failures.len() == 0
    }
}

} // verus!
