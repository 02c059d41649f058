use vstd::prelude::*;
use crate::page::{opt_lines, read_from, read_page_text, ReportPage};
use crate::stats::HoursCounts;
use crate::model::Course;
use crate::pattern::{first_capture_of, section_code, SECTION_PATTERN};
use crate::text::{
    count_value, instructor_of, parse_count, parse_instructor, parse_stats, split_term, stat_values,
    term_split_of, trim, trimmed, views,
};

verus! {

/// First question index tried for the eleven-bucket hours question.
pub const LONG_FIRST: u32 = 14;

/// Last question index tried for the eleven-bucket hours question.
pub const LONG_LAST: u32 = 20;

/// Question index of the four-bucket hours question on short-form pages.
pub const SHORT_HOURS: u32 = 2;

/// Question index of the materials question on short-form pages.
pub const SHORT_MATERIALS: u32 = 1;

/// Question index of the first Likert scale on short-form pages.
pub const SHORT_SCALES_START: u32 = 4;

pub const LONG_HOURS_CHOICES: usize = 11;

pub const SHORT_HOURS_CHOICES: usize = 4;

pub const MATERIAL_CHOICES: usize = 5;

pub const SCALE_CHOICES: usize = 6;

pub const SCALES: u32 = 11;

/// Where the hours question sits on a report page.
#[derive(Clone, Copy, Debug, PartialEq, Eq)]
pub enum LayoutKind {
    /// Four-bucket hours at a fixed position.
    Short,
    /// Eleven-bucket hours at question `offset`, materials just before it.
    Long { offset: u32 },
}

impl LayoutKind {
    pub open spec fn wf(self) -> bool {
        match self {
            LayoutKind::Short => true,
            LayoutKind::Long { offset } => LONG_FIRST <= offset <= LONG_LAST,
        }
    }

    pub open spec fn hours_question(self) -> int {
        match self {
            LayoutKind::Short => SHORT_HOURS as int,
            LayoutKind::Long { offset } => offset as int,
        }
    }

    pub open spec fn hours_choices(self) -> int {
        match self {
            LayoutKind::Short => SHORT_HOURS_CHOICES as int,
            LayoutKind::Long { .. } => LONG_HOURS_CHOICES as int,
        }
    }

    pub open spec fn materials_question(self) -> int {
        match self {
            LayoutKind::Short => SHORT_MATERIALS as int,
            LayoutKind::Long { offset } => offset - 1,
        }
    }

    pub open spec fn scales_start(self) -> int {
        match self {
            LayoutKind::Short => SHORT_SCALES_START as int,
            LayoutKind::Long { .. } => 0,
        }
    }
}

/// The counts of the first `n` choices of question `q`: each choice must be present and
/// its leading text a count.
pub open spec fn question_spec(ch: Seq<Seq<Seq<char>>>, q: int, n: int) -> Option<Seq<u32>> {
    if 0 <= q < ch.len() && 0 <= n <= ch[q].len() && (forall|i: int|
        0 <= i < n ==> #[trigger] count_value(ch[q][i]) is Some) {
        Some(Seq::new(n as nat, |i: int| count_value(ch[q][i])->Some_0))
    } else {
        None
    }
}

/// Reads the first `n` choices of question `q` (see `question_spec`).
pub fn read_question(page: &ReportPage, q: u32, n: usize) -> (r: Option<Vec<u32>>)
    ensures
        match question_spec(page.choice_views(), q as int, n as int) {
            Some(s) => r is Some && r->Some_0@ == s,
            None => r is None,
        },
{
    let ghost ch = page.choice_views();
    if q as usize >= page.choices.len() {
        return None;
    }
    let choices = &page.choices[q as usize];
    proof {
        assert(ch[q as int] == views(choices@));
    }
    if n > choices.len() {
        return None;
    }
    let mut out: Vec<u32> = Vec::new();
    let mut i: usize = 0;
    while i < n
        invariant
            i <= n <= choices@.len(),
            ch == page.choice_views(),
            q < ch.len(),
            ch[q as int] == views(choices@),
            out@.len() == i,
            forall|k: int| 0 <= k < i ==> count_value(#[trigger] ch[q as int][k]) == Some(out@[k]),
        decreases n - i,
    {
        proof {
            assert(ch[q as int][i as int] == choices@[i as int]@);
        }
        match parse_count(choices[i].as_str()) {
            Some(v) => out.push(v),
            None => return None,
        }
        i = i + 1;
    }
    proof {
        assert(out@ =~= Seq::new(n as nat, |k: int| count_value(ch[q as int][k])->Some_0));
    }
    Some(out)
}

/// The first question at or after `o` (up to `LONG_LAST`) that reads as an eleven-bucket
/// hours question.
pub open spec fn long_offset_from(ch: Seq<Seq<Seq<char>>>, o: int) -> Option<int>
    decreases LONG_LAST + 1 - o,
{
    if o > LONG_LAST {
        None
    } else if question_spec(ch, o, LONG_HOURS_CHOICES as int) is Some {
        Some(o)
    } else {
        long_offset_from(ch, o + 1)
    }
}

/// The layout of a page: long form at the first candidate offset that holds a complete
/// eleven-bucket hours question, short form when none does.
pub open spec fn layout_of(ch: Seq<Seq<Seq<char>>>) -> LayoutKind {
    match long_offset_from(ch, LONG_FIRST as int) {
        Some(o) => LayoutKind::Long { offset: o as u32 },
        None => LayoutKind::Short,
    }
}

proof fn lemma_long_offset_range(ch: Seq<Seq<Seq<char>>>, o: int)
    ensures
        long_offset_from(ch, o) matches Some(k) ==> o <= k <= LONG_LAST && question_spec(
            ch,
            k,
            LONG_HOURS_CHOICES as int,
        ) is Some,
    decreases LONG_LAST + 1 - o,
{
    if o <= LONG_LAST {
        lemma_long_offset_range(ch, o + 1);
    }
}

/// Decides the layout of a page (see `layout_of`).
pub fn detect_layout(page: &ReportPage) -> (r: LayoutKind)
    ensures
        r == layout_of(page.choice_views()),
        r.wf(),
{
    let ghost ch = page.choice_views();
    proof {
        lemma_long_offset_range(ch, LONG_FIRST as int);
    }
    let mut o: u32 = LONG_FIRST;
    while o <= LONG_LAST
        invariant
            LONG_FIRST <= o <= LONG_LAST + 1,
            ch == page.choice_views(),
            long_offset_from(ch, LONG_FIRST as int) == long_offset_from(ch, o as int),
        decreases LONG_LAST + 1 - o,
    {
        if read_question(page, o, LONG_HOURS_CHOICES).is_some() {
            return LayoutKind::Long { offset: o };
        }
        o = o + 1;
    }
    LayoutKind::Short
}

/// Choice `i` of question `q` is present and its leading text is a count.
pub open spec fn choice_reads(ch: Seq<Seq<Seq<char>>>, q: int, i: int) -> bool {
    0 <= q < ch.len() && 0 <= i < ch[q].len() && count_value(ch[q][i]) is Some
}

/// The first of the choices `i..n` of question `q` that does not read.
pub open spec fn first_bad_choice(ch: Seq<Seq<Seq<char>>>, q: int, n: int, i: int) -> Option<int>
    decreases n - i,
{
    if i >= n {
        None
    } else if !choice_reads(ch, q, i) {
        Some(i)
    } else {
        first_bad_choice(ch, q, n, i + 1)
    }
}

/// The choice that stops question `q` when it is read with `n` choices (0 when none does).
pub open spec fn missing_choice(ch: Seq<Seq<Seq<char>>>, q: int, n: int) -> u32 {
    match first_bad_choice(ch, q, n, 0) {
        Some(i) => i as u32,
        None => 0,
    }
}

/// Finds the choice that stops question `q` (see `missing_choice`).
pub fn find_missing_choice(page: &ReportPage, q: u32, n: usize) -> (r: u32)
    requires
        n <= LONG_HOURS_CHOICES,
    ensures
        r == missing_choice(page.choice_views(), q as int, n as int),
{
    let ghost ch = page.choice_views();
    let mut i: usize = 0;
    while i < n
        invariant
            i <= n <= LONG_HOURS_CHOICES,
            ch == page.choice_views(),
            first_bad_choice(ch, q as int, n as int, 0) == first_bad_choice(
                ch,
                q as int,
                n as int,
                i as int,
            ),
        decreases n - i,
    {
        let reads = if (q as usize) < page.choices.len() && i < page.choices[q as usize].len() {
            proof {
                assert(ch[q as int][i as int] == page.choices@[q as int]@[i as int]@);
            }
            parse_count(page.choices[q as usize][i].as_str()).is_some()
        } else {
            false
        };
        if !reads {
            return i as u32;
        }
        i = i + 1;
    }
    0
}

/// The question that stops the hours and materials of a page under layout `l`, if any:
/// the hours question first, then the materials question.
pub open spec fn hours_materials_error(ch: Seq<Seq<Seq<char>>>, l: LayoutKind) -> Option<u32> {
    if question_spec(ch, l.hours_question(), l.hours_choices()) is None {
        Some(l.hours_question() as u32)
    } else if question_spec(ch, l.materials_question(), MATERIAL_CHOICES as int) is None {
        Some(l.materials_question() as u32)
    } else {
        None
    }
}

/// Reads the hours and materials questions at the places layout `l` gives them, or names
/// the question that is missing.
pub fn read_hours_materials(page: &ReportPage, l: LayoutKind) -> (r: Result<
    (HoursCounts, Vec<u32>),
    u32,
>)
    requires
        l.wf(),
    ensures
        match hours_materials_error(page.choice_views(), l) {
            Some(q) => r == Err::<(HoursCounts, Vec<u32>), u32>(q),
            None => r is Ok && r->Ok_0.0.wf() && (r->Ok_0.0 is Short <==> l is Short)
                && r->Ok_0.0.counts_spec() == question_spec(
                page.choice_views(),
                l.hours_question(),
                l.hours_choices(),
            )->Some_0 && r->Ok_0.1@ == question_spec(
                page.choice_views(),
                l.materials_question(),
                MATERIAL_CHOICES as int,
            )->Some_0,
        },
{
    let (hq, hn, mq) = match l {
        LayoutKind::Short => (SHORT_HOURS, SHORT_HOURS_CHOICES, SHORT_MATERIALS),
        LayoutKind::Long { offset } => (offset, LONG_HOURS_CHOICES, offset - 1),
    };
    let hours = match read_question(page, hq, hn) {
        Some(h) => h,
        None => return Err(hq),
    };
    let materials = match read_question(page, mq, MATERIAL_CHOICES) {
        Some(m) => m,
        None => return Err(mq),
    };
    let tagged = match l {
        LayoutKind::Short => HoursCounts::Short(hours),
        LayoutKind::Long { .. } => HoursCounts::Long(hours),
    };
    Ok((tagged, materials))
}

/// The index of the first of the Likert scales `k..SCALES` (read from question `start + k`
/// on) that does not read.
pub open spec fn first_bad_scale(ch: Seq<Seq<Seq<char>>>, start: int, k: int) -> Option<int>
    decreases SCALES - k,
{
    if k < 0 || k >= SCALES {
        None
    } else if question_spec(ch, start + k, SCALE_CHOICES as int) is None {
        Some(start + k)
    } else {
        first_bad_scale(ch, start, k + 1)
    }
}

proof fn lemma_first_bad_scale_range(ch: Seq<Seq<Seq<char>>>, start: int, k: int)
    requires
        0 <= k,
    ensures
        first_bad_scale(ch, start, k) matches Some(q) ==> start + k <= q < start + SCALES,
    decreases SCALES - k,
{
    if k < SCALES {
        lemma_first_bad_scale_range(ch, start, k + 1);
    }
}

/// Reads the eleven Likert scales that start at question `start`, or names the first
/// question that does not read.
pub fn read_scales(page: &ReportPage, start: u32) -> (r: Result<Vec<Vec<u32>>, u32>)
    requires
        start <= SHORT_SCALES_START,
    ensures
        match first_bad_scale(page.choice_views(), start as int, 0) {
            Some(q) => r == Err::<Vec<Vec<u32>>, u32>(q as u32),
            None => r is Ok && r->Ok_0@.len() == SCALES && forall|k: int|
                0 <= k < SCALES ==> question_spec(
                    page.choice_views(),
                    start + k,
                    SCALE_CHOICES as int,
                ) == Some(#[trigger] r->Ok_0@[k]@),
        },
{
    let ghost ch = page.choice_views();
    let mut out: Vec<Vec<u32>> = Vec::new();
    let mut k: u32 = 0;
    while k < SCALES
        invariant
            k <= SCALES,
            start <= SHORT_SCALES_START,
            ch == page.choice_views(),
            first_bad_scale(ch, start as int, 0) == first_bad_scale(ch, start as int, k as int),
            out@.len() == k,
            forall|j: int|
                0 <= j < k ==> question_spec(ch, start + j, SCALE_CHOICES as int) == Some(
                    #[trigger] out@[j]@,
                ),
        decreases SCALES - k,
    {
        match read_question(page, start + k, SCALE_CHOICES) {
            Some(s) => out.push(s),
            None => return Err(start + k),
        }
        k = k + 1;
    }
    Ok(out)
}

pub const GRADE_BUCKETS: usize = 7;

/// The count in one grade table cell: its trimmed text.
pub open spec fn cell_value(c: Seq<char>) -> Option<u32> {
    count_value(trimmed(c))
}

/// The counts of a grade table, when it has one cell for each of the seven grade buckets
/// and every cell holds a count.
pub open spec fn grades_of(cells: Seq<Seq<char>>) -> Option<Seq<u32>> {
    if cells.len() == GRADE_BUCKETS && forall|i: int|
        0 <= i < cells.len() ==> #[trigger] cell_value(cells[i]) is Some {
        Some(Seq::new(cells.len(), |i: int| cell_value(cells[i])->Some_0))
    } else {
        None
    }
}

/// Reads a grade table (see `grades_of`).
pub fn parse_grades(cells: &Vec<String>) -> (r: Option<Vec<u32>>)
    ensures
        match grades_of(views(cells@)) {
            Some(g) => r is Some && r->Some_0@ == g,
            None => r is None,
        },
{
    let ghost cv = views(cells@);
    if cells.len() != GRADE_BUCKETS {
        return None;
    }
    let mut out: Vec<u32> = Vec::new();
    let mut i: usize = 0;
    while i < cells.len()
        invariant
            i <= cells@.len(),
            cv == views(cells@),
            out@.len() == i,
            forall|k: int| 0 <= k < i ==> cell_value(#[trigger] cv[k]) == Some(out@[k]),
        decreases cells@.len() - i,
    {
        let t = trim(cells[i].as_str());
        match parse_count(t.as_str()) {
            Some(v) => out.push(v),
            None => {
                proof {
                    assert(cell_value(cv[i as int]) is None);
                }
                return None;
            },
        }
        i = i + 1;
    }
    proof {
        assert(out@ =~= Seq::new(cv.len(), |k: int| cell_value(cv[k])->Some_0));
    }
    Some(out)
}

/// The expected grade distribution of a page: an absent or unreadable table reads as
/// seven zero buckets.
pub open spec fn expected_grades_of(cells: Option<Seq<Seq<char>>>) -> Seq<u32> {
    match cells {
        Some(c) => match grades_of(c) {
            Some(g) => g,
            None => Seq::new(GRADE_BUCKETS as nat, |i: int| 0u32),
        },
        None => Seq::new(GRADE_BUCKETS as nat, |i: int| 0u32),
    }
}


/// Reads the expected grades of a page (see `expected_grades_of`).
pub fn parse_expected_grades(cells: &Option<Vec<String>>) -> (r: Vec<u32>)
    ensures
        r@ == expected_grades_of(opt_lines(*cells)),
{
    let parsed = match cells {
        Some(c) => parse_grades(c),
        None => None,
    };
    match parsed {
        Some(g) => g,
        None => {
            let z = vec![0u32; GRADE_BUCKETS];
            proof {
                assert(z@ =~= Seq::new(GRADE_BUCKETS as nat, |i: int| 0u32));
            }
            z
        },
    }
}

/// A part of a report page that could not be read.
#[derive(Clone, Copy, Debug, PartialEq, Eq)]
pub enum ParseField {
    Title,
    Instructor,
    Term,
    SectionCode,
    Stats,
    ResponseCount,
    EnrollmentCount,
    ActualGrades,
    /// A question that does not read, and its first choice that does not.
    Question { index: u32, choice: u32 },
}

/// Why a report could not be read: the report id and the part that failed.
#[derive(Clone, Copy, Debug, PartialEq, Eq)]
pub struct ParseError {
    pub sid: i32,
    pub field: ParseField,
}

/// The first part of the title block that does not read, if any.
pub open spec fn title_error(t: Option<Seq<Seq<char>>>) -> Option<ParseField> {
    match t {
        None => Some(ParseField::Title),
        Some(lines) => if lines.len() < 1 || instructor_of(lines[0]) is None {
            Some(ParseField::Instructor)
        } else if lines.len() < 2 || term_split_of(lines[1]) is None {
            Some(ParseField::Term)
        } else if first_capture_of(SECTION_PATTERN@, term_split_of(lines[1])->Some_0.1) is None {
            Some(ParseField::SectionCode)
        } else {
            None
        },
    }
}

/// The first part of the statistics block that does not read, if any.
pub open spec fn stats_error(s: Option<Seq<Seq<char>>>) -> Option<ParseField> {
    match s {
        None => Some(ParseField::Stats),
        Some(lines) => if stat_values(lines).len() < 1 {
            Some(ParseField::ResponseCount)
        } else if stat_values(lines).len() < 2 {
            Some(ParseField::EnrollmentCount)
        } else {
            None
        },
    }
}

/// Reads the title block: instructor, term name and section code.
pub fn parse_title(lines: &Option<Vec<String>>) -> (r: Result<(String, String, String), ParseField>)
    ensures
        match title_error(opt_lines(*lines)) {
            Some(f) => r == Err::<(String, String, String), ParseField>(f),
            None => r is Ok && {
                let ls = opt_lines(*lines)->Some_0;
                let ts = term_split_of(ls[1])->Some_0;
                &&& r->Ok_0.0@ == instructor_of(ls[0])->Some_0
                &&& r->Ok_0.1@ == ts.0
                &&& r->Ok_0.2@ == first_capture_of(SECTION_PATTERN@, ts.1)->Some_0
            },
        },
{
    let lines = match lines {
        Some(l) => l,
        None => return Err(ParseField::Title),
    };
    if lines.len() < 1 {
        return Err(ParseField::Instructor);
    }
    let instructor = match parse_instructor(lines[0].as_str()) {
        Some(i) => i,
        None => return Err(ParseField::Instructor),
    };
    if lines.len() < 2 {
        return Err(ParseField::Term);
    }
    let (term, rest) = match split_term(lines[1].as_str()) {
        Some(p) => p,
        None => return Err(ParseField::Term),
    };
    let section = match section_code(rest.as_str()) {
        Some(c) => c,
        None => return Err(ParseField::SectionCode),
    };
    Ok((instructor, term, section))
}

/// Reads the statistics block: response count, then enrollment count.
pub fn parse_stat_block(lines: &Option<Vec<String>>) -> (r: Result<(u32, u32), ParseField>)
    ensures
        match stats_error(opt_lines(*lines)) {
            Some(f) => r == Err::<(u32, u32), ParseField>(f),
            None => r == Ok::<(u32, u32), ParseField>(
                (
                    stat_values(opt_lines(*lines)->Some_0)[0],
                    stat_values(opt_lines(*lines)->Some_0)[1],
                ),
            ),
        },
{
    let lines = match lines {
        Some(l) => l,
        None => return Err(ParseField::Stats),
    };
    let values = parse_stats(lines);
    if values.len() < 1 {
        return Err(ParseField::ResponseCount);
    }
    if values.len() < 2 {
        return Err(ParseField::EnrollmentCount);
    }
    Ok((values[0], values[1]))
}

/// The grades table error of a page, if any (every report has received grades).
pub open spec fn actual_grades_error(cells: Option<Seq<Seq<char>>>) -> Option<ParseField> {
    match cells {
        None => Some(ParseField::ActualGrades),
        Some(c) => if grades_of(c) is None {
            Some(ParseField::ActualGrades)
        } else {
            None
        },
    }
}

/// The first part of a report page that does not read, in reading order: title block,
/// statistics block, received grades, hours and materials, Likert scales.
pub open spec fn report_error(page: ReportPage) -> Option<ParseField> {
    let ch = page.choice_views();
    let l = layout_of(ch);
    if title_error(opt_lines(page.title_lines)) is Some {
        title_error(opt_lines(page.title_lines))
    } else if stats_error(opt_lines(page.stat_lines)) is Some {
        stats_error(opt_lines(page.stat_lines))
    } else if actual_grades_error(opt_lines(page.actual_cells)) is Some {
        actual_grades_error(opt_lines(page.actual_cells))
    } else if hours_materials_error(ch, l) is Some {
        let q = hours_materials_error(ch, l)->Some_0;
        let n = if q == l.hours_question() {
            l.hours_choices()
        } else {
            MATERIAL_CHOICES as int
        };
        Some(ParseField::Question { index: q, choice: missing_choice(ch, q as int, n) })
    } else if first_bad_scale(ch, l.scales_start(), 0) is Some {
        let q = first_bad_scale(ch, l.scales_start(), 0)->Some_0;
        Some(
            ParseField::Question {
                index: q as u32,
                choice: missing_choice(ch, q, SCALE_CHOICES as int),
            },
        )
    } else {
        None
    }
}

/// One course section's evaluation report, as read from its page.
#[derive(Clone, Debug)]
pub struct RawEvaluation {
    pub sid: i32,
    pub section_name: String,
    pub course_code: String,
    pub term: String,
    pub instructor: String,
    pub enrollment: u32,
    pub responses: u32,
    pub class_helped_understanding: Vec<u32>,
    pub assignments_helped_understanding: Vec<u32>,
    pub fair_exams: Vec<u32>,
    pub timely_feedback: Vec<u32>,
    pub developed_understanding: Vec<u32>,
    pub engaging: Vec<u32>,
    pub communication: Vec<u32>,
    pub help_opportunities: Vec<u32>,
    pub effective_methods: Vec<u32>,
    pub timeliness: Vec<u32>,
    pub welcoming: Vec<u32>,
    pub materials: Vec<u32>,
    pub hours: HoursCounts,
    pub expected_grades: Vec<u32>,
    pub actual_grades: Vec<u32>,
}

impl RawEvaluation {
    /// The eleven Likert scales, in question order.
    pub open spec fn scales(self) -> Seq<Seq<u32>> {
        seq![
            self.class_helped_understanding@,
            self.assignments_helped_understanding@,
            self.fair_exams@,
            self.timely_feedback@,
            self.developed_understanding@,
            self.engaging@,
            self.communication@,
            self.help_opportunities@,
            self.effective_methods@,
            self.timeliness@,
            self.welcoming@,
        ]
    }
}

/// `e` is what a fully readable page gives for report `sid` of `course`.
pub open spec fn report_matches(page: ReportPage, sid: i32, course: Course, e: RawEvaluation) -> bool {
    let ch = page.choice_views();
    let l = layout_of(ch);
    let title = opt_lines(page.title_lines)->Some_0;
    let ts = term_split_of(title[1])->Some_0;
    let stats = stat_values(opt_lines(page.stat_lines)->Some_0);
    &&& e.sid == sid
    &&& e.course_code@ == course.code@
    &&& e.instructor@ == instructor_of(title[0])->Some_0
    &&& e.term@ == ts.0
    &&& e.section_name@ == first_capture_of(SECTION_PATTERN@, ts.1)->Some_0
    &&& e.responses == stats[0]
    &&& e.enrollment == stats[1]
    &&& e.expected_grades@ == expected_grades_of(opt_lines(page.expected_cells))
    &&& e.actual_grades@ == grades_of(opt_lines(page.actual_cells)->Some_0)->Some_0
    &&& e.hours.wf()
    &&& (e.hours is Short <==> l is Short)
    &&& e.hours.counts_spec() == question_spec(ch, l.hours_question(), l.hours_choices())->Some_0
    &&& e.materials@ == question_spec(ch, l.materials_question(), MATERIAL_CHOICES as int)->Some_0
    &&& forall|k: int|
        0 <= k < SCALES ==> Some(#[trigger] e.scales()[k]) == question_spec(
            ch,
            l.scales_start() + k,
            SCALE_CHOICES as int,
        )
}

/// Reads report `sid` of `course` from its page: either every field, or the first part
/// that does not read (see `report_error`); never a partial record.
pub fn parse_report(page: &ReportPage, sid: i32, course: &Course) -> (r: Result<RawEvaluation, ParseError>)
    ensures
        match report_error(*page) {
            Some(f) => r == Err::<RawEvaluation, ParseError>(ParseError { sid, field: f }),
            None => r is Ok && report_matches(*page, sid, *course, r->Ok_0),
        },
{
    let (instructor, term, section_name) = match parse_title(&page.title_lines) {
        Ok(t) => t,
        Err(field) => return Err(ParseError { sid, field }),
    };
    let (responses, enrollment) = match parse_stat_block(&page.stat_lines) {
        Ok(s) => s,
        Err(field) => return Err(ParseError { sid, field }),
    };
    let expected_grades = parse_expected_grades(&page.expected_cells);
    let actual = match &page.actual_cells {
        Some(c) => parse_grades(c),
        None => None,
    };
    let actual_grades = match actual {
        Some(g) => g,
        None => return Err(ParseError { sid, field: ParseField::ActualGrades }),
    };
    let layout = detect_layout(page);
    let (hours, materials) = match read_hours_materials(page, layout) {
        Ok(hm) => hm,
        Err(index) => {
            let (hq, hn) = match layout {
                LayoutKind::Short => (SHORT_HOURS, SHORT_HOURS_CHOICES),
                LayoutKind::Long { offset } => (offset, LONG_HOURS_CHOICES),
            };
            let n = if index == hq {
                hn
            } else {
                MATERIAL_CHOICES
            };
            let choice = find_missing_choice(page, index, n);
            return Err(ParseError { sid, field: ParseField::Question { index, choice } });
        },
    };
    let start = match layout {
        LayoutKind::Short => SHORT_SCALES_START,
        LayoutKind::Long { .. } => 0,
    };
    let mut scales = match read_scales(page, start) {
        Ok(s) => s,
        Err(index) => {
            proof {
                lemma_first_bad_scale_range(page.choice_views(), start as int, 0);
            }
            let choice = find_missing_choice(page, index, SCALE_CHOICES);
            return Err(ParseError { sid, field: ParseField::Question { index, choice } });
        },
    };
    let ghost all = scales@;
    let welcoming = scales.pop().unwrap();
    let timeliness = scales.pop().unwrap();
    let effective_methods = scales.pop().unwrap();
    let help_opportunities = scales.pop().unwrap();
    let communication = scales.pop().unwrap();
    let engaging = scales.pop().unwrap();
    let developed_understanding = scales.pop().unwrap();
    let timely_feedback = scales.pop().unwrap();
    let fair_exams = scales.pop().unwrap();
    let assignments_helped_understanding = scales.pop().unwrap();
    let class_helped_understanding = scales.pop().unwrap();
    let e = RawEvaluation {
        sid,
        section_name,
        course_code: course.code.clone(),
        term,
        instructor,
        enrollment,
        responses,
        class_helped_understanding,
        assignments_helped_understanding,
        fair_exams,
        timely_feedback,
        developed_understanding,
        engaging,
        communication,
        help_opportunities,
        effective_methods,
        timeliness,
        welcoming,
        materials,
        hours,
        expected_grades,
        actual_grades,
    };
    proof {
        assert(e.scales() =~= all.map_values(|v: Vec<u32>| v@));
    }
    Ok(e)
}

/// Two pages with the same views read alike.
proof fn lemma_same_views_read_alike(p: ReportPage, q: ReportPage, sid: i32, course: Course)
    requires
        opt_lines(p.title_lines) == opt_lines(q.title_lines),
        opt_lines(p.stat_lines) == opt_lines(q.stat_lines),
        opt_lines(p.expected_cells) == opt_lines(q.expected_cells),
        opt_lines(p.actual_cells) == opt_lines(q.actual_cells),
        p.choice_views() == q.choice_views(),
    ensures
        report_error(p) == report_error(q),
        forall|e: RawEvaluation|
            #[trigger] report_matches(p, sid, course, e) == report_matches(q, sid, course, e),
{
}

/// Reads report `sid` of `course` from the HTML text of its page: the result is what
/// `parse_report` gives on the page that the text shows (see `read_from`).
pub fn parse_report_html(text: &str, sid: i32, course: &Course) -> (r: Result<RawEvaluation, ParseError>)
    ensures
        forall|p: ReportPage|
            #[trigger] read_from(p, text@) ==> match report_error(p) {
                Some(f) => r == Err::<RawEvaluation, ParseError>(ParseError { sid, field: f }),
                None => r is Ok && report_matches(p, sid, *course, r->Ok_0),
            },
{
    let page = read_page_text(text);
    let r = parse_report(&page, sid, course);
    proof {
        assert forall|p: ReportPage| #[trigger] read_from(p, text@) implies match report_error(p) {
            Some(f) => r == Err::<RawEvaluation, ParseError>(ParseError { sid, field: f }),
            None => r is Ok && report_matches(p, sid, *course, r->Ok_0),
        } by {
            lemma_same_views_read_alike(p, page, sid, *course);
        }
    }
    r
}


proof fn lemma_no_long_offset(ch: Seq<Seq<Seq<char>>>, o: int)
    requires
        forall|k: int|
            o <= k <= LONG_LAST ==> #[trigger] question_spec(ch, k, LONG_HOURS_CHOICES as int) is None,
    ensures
        long_offset_from(ch, o) is None,
    decreases LONG_LAST + 1 - o,
{
    if o <= LONG_LAST {
        assert(question_spec(ch, o, LONG_HOURS_CHOICES as int) is None);
        lemma_no_long_offset(ch, o + 1);
    }
}

/// A page with no complete eleven-bucket hours question at any candidate offset is read
/// in the short form. If its short-form hours question is missing too, the page does not
/// read; once the title, statistics and grades have read, the failure names the short-form
/// hours question, or else the short-form materials question when that one is missing.
pub proof fn lemma_short_form_fallback(page: ReportPage)
    requires
        forall|o: int|
            LONG_FIRST <= o <= LONG_LAST ==> #[trigger] question_spec(
                page.choice_views(),
                o,
                LONG_HOURS_CHOICES as int,
            ) is None,
    ensures
        layout_of(page.choice_views()) == LayoutKind::Short,
        question_spec(page.choice_views(), SHORT_HOURS as int, SHORT_HOURS_CHOICES as int) is None
            ==> report_error(page) is Some,
        ({
            &&& title_error(opt_lines(page.title_lines)) is None
            &&& stats_error(opt_lines(page.stat_lines)) is None
            &&& actual_grades_error(opt_lines(page.actual_cells)) is None
        }) ==> {
            &&& question_spec(page.choice_views(), SHORT_HOURS as int, SHORT_HOURS_CHOICES as int)
                is None ==> report_error(page) == Some(
                ParseField::Question {
                    index: SHORT_HOURS,
                    choice: missing_choice(
                        page.choice_views(),
                        SHORT_HOURS as int,
                        SHORT_HOURS_CHOICES as int,
                    ),
                },
            )
            &&& (question_spec(page.choice_views(), SHORT_HOURS as int, SHORT_HOURS_CHOICES as int)
                is Some && question_spec(
                page.choice_views(),
                SHORT_MATERIALS as int,
                MATERIAL_CHOICES as int,
            ) is None) ==> report_error(page) == Some(
                ParseField::Question {
                    index: SHORT_MATERIALS,
                    choice: missing_choice(
                        page.choice_views(),
                        SHORT_MATERIALS as int,
                        MATERIAL_CHOICES as int,
                    ),
                },
            )
        },
{
    lemma_no_long_offset(page.choice_views(), LONG_FIRST as int);
}

/// A page determines its record: two records that the same page yields for the same report
/// and course agree in every field.
pub proof fn lemma_report_is_determined(
    page: ReportPage,
    sid: i32,
    course: Course,
    a: RawEvaluation,
    b: RawEvaluation,
)
    requires
        report_matches(page, sid, course, a),
        report_matches(page, sid, course, b),
    ensures
        a.sid == b.sid,
        a.section_name@ == b.section_name@,
        a.course_code@ == b.course_code@,
        a.term@ == b.term@,
        a.instructor@ == b.instructor@,
        a.enrollment == b.enrollment,
        a.responses == b.responses,
        a.scales() == b.scales(),
        a.materials@ == b.materials@,
        a.hours.counts_spec() == b.hours.counts_spec(),
        a.hours is Short <==> b.hours is Short,
        a.expected_grades@ == b.expected_grades@,
        a.actual_grades@ == b.actual_grades@,
{
    assert forall|k: int| 0 <= k < SCALES implies a.scales()[k] == b.scales()[k] by {
        assert(Some(a.scales()[k]) == Some(b.scales()[k]));
    }
    assert(a.scales() =~= b.scales());
}

} // verus!
