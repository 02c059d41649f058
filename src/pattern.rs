use vstd::prelude::*;
use crate::text::{count_value, parse_count};

verus! {

/// The report links embedded in a search result page; group 1 holds the report id.
pub const SID_PATTERN: &'static str = r#"window\.open\('SETSummary\.aspx\?sid=([0-9]*?)',"#;

/// The section code in the section part of a report title; group 1 holds the code.
pub const SECTION_PATTERN: &'static str = r"Section ID .*? \((.*?)\)";

/// Group 1 of the leftmost match of `pattern` in `text` (`None` when there is no match,
/// the group did not take part, or `pattern` is not a valid regular expression).
pub uninterp spec fn first_capture_of(pattern: Seq<char>, text: Seq<char>) -> Option<Seq<char>>;

/// Group 1 of each successive non-overlapping match of `pattern` in `text`, or `None` when
/// `pattern` is not a valid regular expression.
pub uninterp spec fn captures_of(pattern: Seq<char>, text: Seq<char>) -> Option<
    Seq<Option<Seq<char>>>,
>;

pub open spec fn opt_views(v: Seq<Option<String>>) -> Seq<Option<Seq<char>>> {
    v.map_values(|o: Option<String>| opt_view(o))
}

pub open spec fn opt_view(o: Option<String>) -> Option<Seq<char>> {
    match o {
        Some(t) => Some(t@),
        None => None,
    }
}

/// Relies on `regex::Regex::new` and `Regex::captures`: group 1 of the leftmost match.
#[verifier::external_body]
fn first_capture(pattern: &str, text: &str) -> (r: Option<String>)
    ensures
        opt_view(r) == first_capture_of(pattern@, text@),
{
    let re = regex::Regex::new(pattern).ok()?;
    re.captures(text)?.get(1).map(|m| m.as_str().to_string())
}

/// Relies on `regex::Regex::new` and `Regex::captures_iter`: group 1 of every match.
#[verifier::external_body]
fn all_captures(pattern: &str, text: &str) -> (r: Option<Vec<Option<String>>>)
    ensures
        match captures_of(pattern@, text@) {
            Some(c) => r is Some && opt_views(r->Some_0@) == c,
            None => r is None,
        },
{
    let re = regex::Regex::new(pattern).ok()?;
    Some(re.captures_iter(text).map(|c| c.get(1).map(|m| m.as_str().to_string())).collect())
}

/// The section code named in the section part of a report title.
pub fn section_code(part: &str) -> (r: Option<String>)
    ensures
        opt_view(r) == first_capture_of(SECTION_PATTERN@, part@),
{
    first_capture(SECTION_PATTERN, part)
}

/// Why the report ids of a search result page could not be read.
#[derive(Clone, Copy, Debug, PartialEq, Eq)]
pub enum MatchError {
    /// The link pattern was refused by the regular expression engine.
    BadPattern,
    /// The match at this position (counting from 0) holds no readable report id.
    BadId { index: usize },
}

/// The report id held by one captured group: decimal digits with a value that fits `i32`.
pub open spec fn sid_value(c: Option<Seq<char>>) -> Option<i32> {
    match c {
        Some(d) => match count_value(d) {
            Some(v) => Some(v as i32),
            None => None,
        },
        None => None,
    }
}

/// Index of the first capture, at or after `i`, that holds no report id.
pub open spec fn first_bad_capture(caps: Seq<Option<Seq<char>>>, i: int) -> Option<int>
    decreases caps.len() - i,
{
    if i < 0 || i >= caps.len() {
        None
    } else if sid_value(caps[i]) is None {
        Some(i)
    } else {
        first_bad_capture(caps, i + 1)
    }
}

/// The report ids of a list of captures, or the position of the first one without an id.
pub open spec fn sids_of(caps: Seq<Option<Seq<char>>>) -> Result<Seq<i32>, MatchError> {
    match first_bad_capture(caps, 0) {
        Some(i) => Err(MatchError::BadId { index: i as usize }),
        None => Ok(caps.map_values(|c: Option<Seq<char>>| sid_value(c)->Some_0)),
    }
}

/// Reads the report ids out of the captured groups of the link pattern, in order; a group
/// that is missing, empty or not a number in range fails the whole page.
pub fn sids_from_captures(caps: &Vec<Option<String>>) -> (r: Result<Vec<i32>, MatchError>)
    ensures
        match sids_of(opt_views(caps@)) {
            Ok(s) => r is Ok && r->Ok_0@ == s,
            Err(e) => r == Err::<Vec<i32>, MatchError>(e),
        },
{
    let ghost cv = opt_views(caps@);
    let mut out: Vec<i32> = Vec::new();
    let mut i: usize = 0;
    while i < caps.len()
        invariant
            i <= caps@.len(),
            cv == opt_views(caps@),
            first_bad_capture(cv, 0) == first_bad_capture(cv, i as int),
            out@.len() == i,
            forall|k: int| 0 <= k < i ==> sid_value(#[trigger] cv[k]) == Some(out@[k]),
        decreases caps@.len() - i,
    {
        let v = match &caps[i] {
            Some(d) => parse_count(d.as_str()),
            None => None,
        };
        match v {
            Some(v) => {
                out.push(v as i32);
            },
            None => {
                return Err(MatchError::BadId { index: i });
            },
        }
        i = i + 1;
    }
    proof {
        assert(out@ =~= cv.map_values(|c: Option<Seq<char>>| sid_value(c)->Some_0));
    }
    Ok(out)
}

/// The report ids linked from a search result page, in page order.
pub fn extract_sids(page: &str) -> (r: Result<Vec<i32>, MatchError>)
    ensures
        match captures_of(SID_PATTERN@, page@) {
            Some(caps) => match sids_of(caps) {
                Ok(s) => r is Ok && r->Ok_0@ == s,
                Err(e) => r == Err::<Vec<i32>, MatchError>(e),
            },
            None => r == Err::<Vec<i32>, MatchError>(MatchError::BadPattern),
        },
{
    match all_captures(SID_PATTERN, page) {
        Some(caps) => sids_from_captures(&caps),
        None => Err(MatchError::BadPattern),
    }
}

} // verus!
