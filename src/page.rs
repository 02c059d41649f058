use vstd::prelude::*;
use crate::pattern::{opt_view, opt_views};
use crate::text::{push_char, views};

verus! {

#[verifier::external_type_specification]
#[verifier::external_body]
pub struct ExHtml(scraper::Html);

/// Relies on `scraper::Html::parse_document`: the document tree of an HTML page.
#[verifier::external_body]
fn parse_document(text: &str) -> (r: scraper::Html) {
    scraper::Html::parse_document(text)
}

/// A parsed HTML page, together with the text it was parsed from.
pub struct Document {
    html: scraper::Html,
    source: Ghost<Seq<char>>,
}

impl Document {
    /// The text the document was parsed from.
    pub closed spec fn source(&self) -> Seq<char> {
        self.source@
    }

    /// Parses the HTML text of a page.
    pub fn parse(text: &str) -> (r: Document)
        ensures
            r.source() == text@,
    {
        Document { html: parse_document(text), source: Ghost(text@) }
    }
}

/// The first text fragment inside the first element of the page `doc` that `selector`
/// picks (`None` when no element matches or the selector is not valid).
pub uninterp spec fn first_text_of(doc: Seq<char>, selector: Seq<char>) -> Option<Seq<char>>;

/// For each child node of the first element of the page `doc` that `selector` picks, its
/// text when it is a text node (`None` when no element matches or the selector is not valid).
pub uninterp spec fn child_texts_of(doc: Seq<char>, selector: Seq<char>) -> Option<
    Seq<Option<Seq<char>>>,
>;

/// The whole text of each element that `cell` picks inside the first element of the page
/// `doc` that `table` picks (`None` when no table matches or a selector is not valid).
pub uninterp spec fn cell_texts_of(doc: Seq<char>, table: Seq<char>, cell: Seq<char>) -> Option<
    Seq<Seq<char>>,
>;

/// Relies on `scraper::Selector::parse`, `Html::select` and `ElementRef::text`: the first
/// text fragment inside the first element that `selector` picks.
#[verifier::external_body]
fn first_text(doc: &Document, selector: &str) -> (r: Option<String>)
    ensures
        opt_view(r) == first_text_of(doc.source(), selector@),
{
    let sel = scraper::Selector::parse(selector).ok()?;
    let el = doc.html.select(&sel).next()?;
    Some(el.text().take(1).collect())
}

/// Relies on `scraper::Selector::parse`, `Html::select` and `ego_tree::NodeRef::children`:
/// for each child node of the first element that `selector` picks, its text if it is a
/// text node.
#[verifier::external_body]
fn child_nodes(doc: &Document, selector: &str) -> (r: Option<Vec<Option<String>>>)
    ensures
        match child_texts_of(doc.source(), selector@) {
            Some(c) => r is Some && opt_views(r->Some_0@) == c,
            None => r is None,
        },
{
    let sel = scraper::Selector::parse(selector).ok()?;
    let el = doc.html.select(&sel).next()?;
    Some(el.children().map(|c| c.value().as_text().map(|t| t.to_string())).collect())
}

/// Relies on `scraper::Selector::parse`, `Html::select`, `ElementRef::select` and
/// `ElementRef::text`: the whole text of each element that `cell` picks inside the first
/// element that `table` picks.
#[verifier::external_body]
fn cell_texts(doc: &Document, table: &str, cell: &str) -> (r: Option<Vec<String>>)
    ensures
        match cell_texts_of(doc.source(), table@, cell@) {
            Some(c) => r is Some && views(r->Some_0@) == c,
            None => r is None,
        },
{
    let table = scraper::Selector::parse(table).ok()?;
    let cell = scraper::Selector::parse(cell).ok()?;
    let el = doc.html.select(&table).next()?;
    Some(el.select(&cell).map(|c| c.text().collect::<String>()).collect())
}

pub const TITLE_SELECTOR: &'static str =
    "#ContentPlaceHolder1_EvalsContentPlaceHolder_lblSummaryTitle > p";

pub const STATS_SELECTOR: &'static str =
    "#ContentPlaceHolder1_EvalsContentPlaceHolder_lblSummaryTitle > p:nth-child(2)";

pub const EXPECTED_GRADES_SELECTOR: &'static str =
    "#ContentPlaceHolder1_EvalsContentPlaceHolder_tblExpectedGrades > tbody > tr";

pub const ACTUAL_GRADES_SELECTOR: &'static str =
    "#ContentPlaceHolder1_EvalsContentPlaceHolder_tblGradesReceived > tbody > tr";

pub const CELL_SELECTOR: &'static str = "td";

pub const CHOICE_PREFIX: &'static str =
    "#ContentPlaceHolder1_EvalsContentPlaceHolder_rptQuestionnaire_rptChoices_";

pub const CHOICE_INFIX: &'static str = "_rbSelect_";

/// Number of questions a report page is read for.
pub const QUESTIONS: u32 = 21;

/// Largest number of choices any question is read with.
pub const MAX_CHOICES: u32 = 11;

pub open spec fn digit_char(d: nat) -> char {
    ((d + 48) as u8) as char
}

/// The decimal spelling of `n`.
pub open spec fn decimal_of(n: nat) -> Seq<char>
    decreases n,
{
    if n < 10 {
        seq![digit_char(n)]
    } else {
        decimal_of(n / 10).push(digit_char(n % 10))
    }
}

/// Appends the decimal spelling of `n`.
pub fn push_decimal(s: &mut String, n: u32)
    ensures
        final(s)@ == old(s)@ + decimal_of(n as nat),
    decreases n,
{
    if n >= 10 {
        push_decimal(s, n / 10);
    }
    let d: u8 = (n % 10) as u8;
    let c: char = (d + 48) as char;
    push_char(s, c);
    proof {
        assert(final(s)@ =~= old(s)@ + decimal_of(n as nat));
    }
}

/// The selector of choice `choice` of question `question`.
pub open spec fn choice_selector_of(question: nat, choice: nat) -> Seq<char> {
    CHOICE_PREFIX@ + decimal_of(question) + CHOICE_INFIX@ + decimal_of(choice)
}

pub fn choice_selector(question: u32, choice: u32) -> (r: String)
    ensures
        r@ == choice_selector_of(question as nat, choice as nat),
{
    let mut s = String::from_str(CHOICE_PREFIX);
    push_decimal(&mut s, question);
    s.append(CHOICE_INFIX);
    push_decimal(&mut s, choice);
    s
}

/// The texts of the text nodes among `nodes`, in order.
pub open spec fn texts_of(nodes: Seq<Option<Seq<char>>>) -> Seq<Seq<char>>
    decreases nodes.len(),
{
    if nodes.len() == 0 {
        Seq::empty()
    } else {
        let p = texts_of(nodes.drop_last());
        match nodes.last() {
            Some(t) => p.push(t),
            None => p,
        }
    }
}

/// Keeps the text nodes.
pub fn text_nodes(nodes: Vec<Option<String>>) -> (r: Vec<String>)
    ensures
        views(r@) == texts_of(opt_views(nodes@)),
{
    let mut out: Vec<String> = Vec::new();
    let mut i: usize = 0;
    while i < nodes.len()
        invariant
            i <= nodes@.len(),
            views(out@) == texts_of(opt_views(nodes@.subrange(0, i as int))),
        decreases nodes@.len() - i,
    {
        let ghost next = opt_views(nodes@.subrange(0, i + 1));
        proof {
            assert(next.drop_last() =~= opt_views(nodes@.subrange(0, i as int)));
        }
        match &nodes[i] {
            Some(t) => {
                out.push(t.clone());
                proof {
                    assert(views(out@) =~= texts_of(next));
                }
            },
            None => {},
        }
        i = i + 1;
    }
    proof {
        assert(nodes@.subrange(0, nodes@.len() as int) =~= nodes@);
    }
    out
}

pub open spec fn opt_lines(o: Option<Vec<String>>) -> Option<Seq<Seq<char>>> {
    match o {
        Some(v) => Some(views(v@)),
        None => None,
    }
}

/// The text lines of the children of the element that `selector` picks.
pub open spec fn lines_of(doc: Seq<char>, selector: Seq<char>) -> Option<Seq<Seq<char>>> {
    match child_texts_of(doc, selector) {
        Some(nodes) => Some(texts_of(nodes)),
        None => None,
    }
}

/// The leading texts of the choices of `question` from choice `i` on, up to the first one
/// that is absent or to `MAX_CHOICES`.
pub open spec fn choice_run(doc: Seq<char>, question: nat, i: nat) -> Seq<Seq<char>>
    decreases MAX_CHOICES - i,
{
    if i >= MAX_CHOICES {
        Seq::empty()
    } else {
        match first_text_of(doc, choice_selector_of(question, i)) {
            None => Seq::empty(),
            Some(t) => seq![t] + choice_run(doc, question, i + 1),
        }
    }
}

/// The choices of every question of the page `doc`.
pub open spec fn choices_of(doc: Seq<char>) -> Seq<Seq<Seq<char>>> {
    Seq::new(QUESTIONS as nat, |q: int| choice_run(doc, q as nat, 0))
}

/// What the report parser reads of a page, as plain text.
pub struct ReportPage {
    /// Text nodes of the title paragraph (instructor line, then term and section line).
    pub title_lines: Option<Vec<String>>,
    /// Text nodes of the statistics paragraph (responses, then enrollment).
    pub stat_lines: Option<Vec<String>>,
    /// Cell texts of the expected grades table.
    pub expected_cells: Option<Vec<String>>,
    /// Cell texts of the received grades table.
    pub actual_cells: Option<Vec<String>>,
    /// For each question, the leading text of each of its choices, from choice 0 up to the
    /// first choice that is absent (at most `MAX_CHOICES`).
    pub choices: Vec<Vec<String>>,
}

impl ReportPage {
    pub open spec fn choice_views(&self) -> Seq<Seq<Seq<char>>> {
        self.choices@.map_values(|v: Vec<String>| views(v@))
    }

    pub open spec fn wf(&self) -> bool {
        &&& self.choices@.len() == QUESTIONS
        &&& forall|q: int| 0 <= q < QUESTIONS ==> #[trigger] self.choices@[q]@.len() <= MAX_CHOICES
    }
}

/// `page` holds what the page `doc` shows: each field is the named read of the document.
pub open spec fn read_from(page: ReportPage, doc: Seq<char>) -> bool {
    &&& opt_lines(page.title_lines) == lines_of(doc, TITLE_SELECTOR@)
    &&& opt_lines(page.stat_lines) == lines_of(doc, STATS_SELECTOR@)
    &&& opt_lines(page.expected_cells) == cell_texts_of(doc, EXPECTED_GRADES_SELECTOR@, CELL_SELECTOR@)
    &&& opt_lines(page.actual_cells) == cell_texts_of(doc, ACTUAL_GRADES_SELECTOR@, CELL_SELECTOR@)
    &&& page.choice_views() == choices_of(doc)
}

proof fn lemma_choice_run_len(doc: Seq<char>, question: nat, i: nat)
    requires
        i <= MAX_CHOICES,
    ensures
        choice_run(doc, question, i).len() <= MAX_CHOICES - i,
    decreases MAX_CHOICES - i,
{
    if i < MAX_CHOICES {
        lemma_choice_run_len(doc, question, i + 1);
    }
}

/// The choices of one question that are present, in order, from choice 0.
fn read_choices(doc: &Document, question: u32) -> (r: Vec<String>)
    ensures
        views(r@) == choice_run(doc.source(), question as nat, 0),
        r@.len() <= MAX_CHOICES,
{
    let ghost d = doc.source();
    let mut out: Vec<String> = Vec::new();
    let mut i: u32 = 0;
    while i < MAX_CHOICES
        invariant
            i <= MAX_CHOICES,
            d == doc.source(),
            out@.len() == i,
            views(out@) + choice_run(d, question as nat, i as nat) == choice_run(
                d,
                question as nat,
                0,
            ),
        decreases MAX_CHOICES - i,
    {
        let sel = choice_selector(question, i);
        match first_text(doc, sel.as_str()) {
            Some(t) => {
                let ghost before = views(out@);
                out.push(t);
                proof {
                    assert(views(out@) =~= before.push(t@));
                    assert(views(out@) + choice_run(d, question as nat, (i + 1) as nat) =~= before
                        + choice_run(d, question as nat, i as nat));
                }
            },
            None => {
                proof {
                    assert(views(out@) + choice_run(d, question as nat, i as nat) =~= views(out@));
                }
                return out;
            },
        }
        i = i + 1;
    }
    proof {
        assert(views(out@) + choice_run(d, question as nat, i as nat) =~= views(out@));
    }
    out
}

/// Reads from a parsed report page what the report parser needs.
pub fn read_page(doc: &Document) -> (r: ReportPage)
    ensures
        r.wf(),
        read_from(r, doc.source()),
{
    let title_lines = match child_nodes(doc, TITLE_SELECTOR) {
        Some(nodes) => Some(text_nodes(nodes)),
        None => None,
    };
    let stat_lines = match child_nodes(doc, STATS_SELECTOR) {
        Some(nodes) => Some(text_nodes(nodes)),
        None => None,
    };
    let expected_cells = cell_texts(doc, EXPECTED_GRADES_SELECTOR, CELL_SELECTOR);
    let actual_cells = cell_texts(doc, ACTUAL_GRADES_SELECTOR, CELL_SELECTOR);
    let ghost d = doc.source();
    let mut choices: Vec<Vec<String>> = Vec::new();
    let mut q: u32 = 0;
    while q < QUESTIONS
        invariant
            q <= QUESTIONS,
            d == doc.source(),
            choices@.len() == q,
            forall|k: int| 0 <= k < q ==> #[trigger] choices@[k]@.len() <= MAX_CHOICES,
            forall|k: int|
                0 <= k < q ==> views(#[trigger] choices@[k]@) == choice_run(d, k as nat, 0),
        decreases QUESTIONS - q,
    {
        let c = read_choices(doc, q);
        choices.push(c);
        q = q + 1;
    }
    let r = ReportPage { title_lines, stat_lines, expected_cells, actual_cells, choices };
    proof {
        assert(r.choice_views() =~= choices_of(d));
    }
    r
}

/// Reads what the report parser needs from the HTML text of a report page.
pub fn read_page_text(text: &str) -> (r: ReportPage)
    ensures
        r.wf(),
        read_from(r, text@),
{
    let doc = Document::parse(text);
    read_page(&doc)
}

} // verus!
