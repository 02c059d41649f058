use set_evals::crawl::{
    needs_reauth, report_backoff, section_ids, status_outcome, ErrorWrapper, FetchError, RetryQueue,
};
use set_evals::model::{Course, SectionId};
use set_evals::pattern::{extract_sids, sids_from_captures, MatchError};

fn course(code: &str) -> Course {
    Course { code: code.to_string(), name: format!("{code} name"), unit_id: 1 }
}

#[test]
fn extracts_report_ids_in_page_order() {
    let page = "<a onclick=\"window.open('SETSummary.aspx?sid=123',''); \">x</a>\
                <a onclick=\"window.open('SETSummary.aspx?sid=45',''); \">y</a>\
                <a onclick=\"window.open('Other.aspx?sid=9','');\">z</a>";
    assert_eq!(extract_sids(page), Ok(vec![123, 45]));
}

#[test]
fn page_without_links_has_no_ids() {
    assert_eq!(extract_sids("<html>no results</html>"), Ok(vec![]));
}

#[test]
fn empty_id_is_a_parse_failure() {
    let page = "window.open('SETSummary.aspx?sid=1', window.open('SETSummary.aspx?sid=',";
    assert_eq!(extract_sids(page), Err(MatchError::BadId { index: 1 }));
}

#[test]
fn captures_to_ids() {
    let caps = vec![Some("7".to_string()), Some("0012".to_string())];
    assert_eq!(sids_from_captures(&caps), Ok(vec![7, 12]));
    let caps = vec![Some("7".to_string()), None, Some("x".to_string())];
    assert_eq!(sids_from_captures(&caps), Err(MatchError::BadId { index: 1 }));
    let caps = vec![Some("99999999999".to_string())];
    assert_eq!(sids_from_captures(&caps), Err(MatchError::BadId { index: 0 }));
}

#[test]
fn section_ids_pair_ids_with_course() {
    let ids = section_ids(&course("CSE100"), &vec![3, 4]);
    assert_eq!(
        ids,
        vec![
            SectionId { sid: 3, course_code: "CSE100".to_string() },
            SectionId { sid: 4, course_code: "CSE100".to_string() },
        ]
    );
}

#[test]
fn retry_queue_shrinks_and_stops() {
    let mut q = RetryQueue::from_outcomes(&vec![true, false, false, true, false]);
    assert_eq!(q.pending(), &vec![1, 2, 4]);
    assert!(!q.is_done());
    // Round one fixes course 2.
    assert_eq!(q.record_round(&vec![false, true, false]), 1);
    assert_eq!(q.pending(), &vec![1, 4]);
    assert!(!q.is_done());
    // Round two fixes nothing: the retries end.
    assert_eq!(q.record_round(&vec![false, false]), 0);
    assert_eq!(q.pending(), &vec![1, 4]);
    assert!(q.is_done());
    assert_eq!(q.rounds(), 2);
    assert!(q.rounds() <= 3);
}

#[test]
fn retry_queue_ends_when_emptied() {
    let mut q = RetryQueue::from_outcomes(&vec![false, false]);
    assert_eq!(q.record_round(&vec![true, true]), 2);
    assert!(q.pending().is_empty());
    assert!(q.is_done());
    assert_eq!(q.rounds(), 1);
}

#[test]
fn retry_rounds_never_exceed_initial_failures() {
    let mut q = RetryQueue::from_outcomes(&vec![false, false, false, false]);
    let mut rounds = 0;
    while !q.is_done() {
        let n = q.pending().len();
        let before = n;
        // Fix exactly one course per round.
        let mut ok = vec![false; n];
        ok[0] = true;
        q.record_round(&ok);
        assert!(q.pending().len() <= before);
        rounds += 1;
    }
    assert_eq!(rounds, 4);
    assert!(q.rounds() <= 4);
}

#[test]
fn nothing_to_retry_is_done() {
    let q = RetryQueue::from_outcomes(&vec![true, true]);
    assert!(q.is_done());
    assert!(q.pending().is_empty());
}

#[test]
fn reauth_only_on_expired_session() {
    assert!(!needs_reauth(&vec![FetchError::Network, FetchError::Status { code: 500 }]));
    assert!(needs_reauth(&vec![FetchError::Network, FetchError::AuthExpired]));
    assert!(!needs_reauth(&vec![]));
}

#[test]
fn transient_failures() {
    assert!(FetchError::Network.is_transient());
    assert!(FetchError::AuthExpired.is_transient());
    assert!(!FetchError::Malformed(MatchError::BadId { index: 0 }).is_transient());
}

#[test]
fn error_wrapper_keeps_value() {
    let w = ErrorWrapper::new(FetchError::Network, course("MATH20A"));
    assert_eq!(w.error(), FetchError::Network);
    assert_eq!(w.value().code, "MATH20A");
}

#[test]
fn status_codes_classified() {
    assert_eq!(status_outcome(200), Ok(()));
    assert_eq!(status_outcome(204), Ok(()));
    assert_eq!(status_outcome(401), Err(FetchError::AuthExpired));
    assert_eq!(status_outcome(403), Err(FetchError::AuthExpired));
    assert_eq!(status_outcome(302), Err(FetchError::Status { code: 302 }));
    assert_eq!(status_outcome(500), Err(FetchError::Status { code: 500 }));
}

#[test]
fn report_backoff_is_bounded() {
    assert_eq!(report_backoff(1, FetchError::Network), Some(500));
    assert_eq!(report_backoff(2, FetchError::AuthExpired), Some(1000));
    assert_eq!(report_backoff(3, FetchError::Network), None);
    assert_eq!(report_backoff(0, FetchError::Network), None);
    assert_eq!(report_backoff(1, FetchError::Malformed(MatchError::BadPattern)), None);
}
