use karukan::engine::candidates::{AnnotatedCandidate, CandidateSource};
use karukan::state::{selected_conversion_info, CandidateList, InputState, Preedit};

fn cand(text: &str, reading: Option<&str>, source: CandidateSource) -> AnnotatedCandidate {
    AnnotatedCandidate {
        text: text.to_string(),
        reading: reading.map(|r| r.to_string()),
        source,
        description: None,
    }
}

fn preedit(text: &str) -> Preedit {
    Preedit { text: text.to_string(), caret: text.chars().count() }
}

fn conversion(cands: Vec<AnnotatedCandidate>, filter: Option<CandidateSource>) -> InputState {
    InputState::Conversion {
        preedit: preedit("藍"),
        candidates: CandidateList::new(cands),
        reading: "あい".to_string(),
        filter,
    }
}

#[test]
fn a_fresh_state_is_empty() {
    let s = InputState::new();
    assert!(InputState::default().is_empty());
    assert!(s.is_empty());
    assert!(s.preedit().is_none());
    assert!(s.candidates().is_none());
    assert!(s.reading().is_none());
    assert_eq!(s.filter(), None);
}

#[test]
fn composing_has_a_preedit_only() {
    let mut s = InputState::Composing { preedit: preedit("あい") };
    assert!(!s.is_empty());
    assert_eq!(s.preedit().unwrap().text(), "あい");
    assert_eq!(s.preedit().unwrap().caret(), 2);
    assert!(s.candidates().is_none());
    assert!(s.candidates_mut().is_none());
    assert_eq!(s.filter(), None);
    s.preedit_mut().unwrap().caret = 0;
    assert_eq!(s.preedit().unwrap().caret(), 0);
}

#[test]
fn conversion_exposes_its_parts() {
    let mut s = conversion(
        vec![cand("藍", None, CandidateSource::Learning), cand("愛", None, CandidateSource::Model)],
        Some(CandidateSource::Learning),
    );
    assert_eq!(s.reading(), Some("あい"));
    assert_eq!(s.filter(), Some(CandidateSource::Learning));
    let list = s.candidates().unwrap();
    assert_eq!(list.len(), 2);
    assert_eq!(list.cursor(), 0);
    assert_eq!(list.selected_text(), Some("藍"));
    assert_eq!(list.candidates()[1].text, "愛");
    s.candidates_mut().unwrap().cursor = 1;
    assert_eq!(s.candidates().unwrap().selected_text(), Some("愛"));
    assert_eq!(s.preedit().unwrap().text(), "藍");
}

#[test]
fn commit_takes_the_selected_candidate_and_its_reading() {
    let s = conversion(
        vec![cand("挨拶", Some("あいさつ"), CandidateSource::Learning), cand("愛", None, CandidateSource::Model)],
        None,
    );
    assert_eq!(
        selected_conversion_info(&s),
        Some(("挨拶".to_string(), Some("あいさつ".to_string())))
    );
}

#[test]
fn commit_of_an_empty_view_takes_the_reading() {
    let s = conversion(vec![], Some(CandidateSource::Dictionary));
    let list = s.candidates().unwrap();
    assert!(list.is_empty());
    assert!(list.selected().is_none());
    assert_eq!(selected_conversion_info(&s), Some(("あい".to_string(), None)));
    assert_eq!(selected_conversion_info(&InputState::Empty), None);
    assert_eq!(selected_conversion_info(&InputState::Composing { preedit: preedit("あ") }), None);
}
