use canvas_tui::models::SubmitResult;
use canvas_tui::wizard::{
    OpenRefusal, SubmissionKind, SubmissionState, SubmissionWizard, WizardAction, WizardKey,
};

fn open_wizard() -> SubmissionWizard {
    let mut w = SubmissionWizard::new();
    let types = vec![
        String::from("online_text_entry"),
        String::from("online_url"),
        String::from("online_upload"),
        String::from("on_paper"),
    ];
    let r = w.open(Some((11, 22, types)));
    assert_eq!(r, Ok(()));
    w
}

#[test]
fn kinds_from_api_types() {
    assert_eq!(
        SubmissionKind::from_api_type("online_text_entry"),
        Some(SubmissionKind::TextEntry)
    );
    assert_eq!(SubmissionKind::from_api_type("online_url"), Some(SubmissionKind::Url));
    assert_eq!(
        SubmissionKind::from_api_type("online_upload"),
        Some(SubmissionKind::FileUpload)
    );
    assert_eq!(SubmissionKind::from_api_type("on_paper"), None);
    assert_eq!(SubmissionKind::from_api_type(""), None);
}

#[test]
fn kind_labels() {
    assert_eq!(SubmissionKind::TextEntry.label(), "Text Entry  (opens $EDITOR)");
    assert_eq!(SubmissionKind::Url.label(), "URL Submission");
    assert_eq!(SubmissionKind::FileUpload.label(), "File Upload");
}

#[test]
fn hidden_state_is_hidden() {
    assert!(SubmissionState::Hidden.is_hidden());
    assert!(!SubmissionState::TypePicker.is_hidden());
}

#[test]
fn open_without_resolvable_assignment_refuses() {
    let mut w = SubmissionWizard::new();
    assert_eq!(w.open(None), Err(OpenRefusal::NoAssignment));
    assert!(w.state.is_hidden());
}

#[test]
fn open_without_supported_kind_refuses() {
    let mut w = SubmissionWizard::new();
    let r = w.open(Some((1, 2, vec![String::from("on_paper")])));
    assert_eq!(r, Err(OpenRefusal::NoSupportedKind));
    assert!(w.state.is_hidden());
}

#[test]
fn open_intersects_supported_kinds_in_order() {
    let w = open_wizard();
    assert_eq!(w.state, SubmissionState::TypePicker);
    assert_eq!(w.target, Some((11, 22)));
    assert_eq!(
        w.supported_kinds,
        vec![SubmissionKind::TextEntry, SubmissionKind::Url, SubmissionKind::FileUpload]
    );
    assert_eq!(w.cursor, 0);
}

#[test]
fn picker_cursor_moves_and_clamps() {
    let mut w = open_wizard();
    w.step(WizardKey::Up);
    assert_eq!(w.cursor, 0);
    w.step(WizardKey::Down);
    assert_eq!(w.cursor, 1);
    w.step(WizardKey::Char('j'));
    assert_eq!(w.cursor, 2);
    w.step(WizardKey::Down);
    assert_eq!(w.cursor, 2);
    w.step(WizardKey::Char('k'));
    assert_eq!(w.cursor, 1);
}

#[test]
fn picker_enter_on_url_opens_url_input() {
    let mut w = open_wizard();
    w.step(WizardKey::Down);
    let act = w.step(WizardKey::Enter);
    assert_eq!(act, WizardAction::Nothing);
    assert_eq!(w.state, SubmissionState::UrlInput);
    assert_eq!(w.kind, Some(SubmissionKind::Url));
    assert_eq!(w.input, "");
}

#[test]
fn picker_enter_on_text_entry_launches_editor() {
    let mut w = open_wizard();
    let act = w.step(WizardKey::Enter);
    assert_eq!(act, WizardAction::LaunchEditor);
    assert_eq!(w.state, SubmissionState::Hidden);
    assert_eq!(w.kind, Some(SubmissionKind::TextEntry));
}

#[test]
fn picker_escape_closes() {
    let mut w = open_wizard();
    w.step(WizardKey::Esc);
    assert!(w.state.is_hidden());
}

#[test]
fn url_input_collects_and_confirms() {
    let mut w = open_wizard();
    w.step(WizardKey::Down);
    w.step(WizardKey::Enter);
    for c in "https://x".chars() {
        w.step(WizardKey::Char(c));
    }
    assert_eq!(w.input, "https://x");
    w.step(WizardKey::Backspace);
    assert_eq!(w.input, "https://");
    let act = w.step(WizardKey::Enter);
    assert_eq!(act, WizardAction::Nothing);
    assert_eq!(w.state, SubmissionState::Confirming);
}

#[test]
fn url_input_refuses_blank_confirm() {
    let mut w = open_wizard();
    w.step(WizardKey::Down);
    w.step(WizardKey::Enter);
    w.step(WizardKey::Char(' '));
    w.step(WizardKey::Enter);
    assert_eq!(w.state, SubmissionState::UrlInput);
}

#[test]
fn url_input_escape_returns_to_picker() {
    let mut w = open_wizard();
    w.step(WizardKey::Down);
    w.step(WizardKey::Enter);
    w.step(WizardKey::Esc);
    assert_eq!(w.state, SubmissionState::TypePicker);
}

#[test]
fn confirm_yes_starts_the_pipeline_once() {
    let mut w = open_wizard();
    w.step(WizardKey::Down);
    w.step(WizardKey::Enter);
    w.step(WizardKey::Char('u'));
    w.step(WizardKey::Enter);
    let act = w.step(WizardKey::Char('y'));
    assert_eq!(act, WizardAction::StartSubmission);
    assert_eq!(w.state, SubmissionState::Submitting);
    // while the call is outstanding, no key restarts a second one
    assert_eq!(w.step(WizardKey::Enter), WizardAction::Nothing);
    assert_eq!(w.state, SubmissionState::Submitting);
    assert_eq!(w.step(WizardKey::Char('y')), WizardAction::Nothing);
    assert_eq!(w.state, SubmissionState::Submitting);
}

#[test]
fn confirm_no_returns_to_picker() {
    let mut w = open_wizard();
    w.step(WizardKey::Down);
    w.step(WizardKey::Enter);
    w.step(WizardKey::Char('u'));
    w.step(WizardKey::Enter);
    w.step(WizardKey::Char('n'));
    assert_eq!(w.state, SubmissionState::TypePicker);
}

#[test]
fn submitting_escape_discards_interest() {
    let mut w = open_wizard();
    w.step(WizardKey::Down);
    w.step(WizardKey::Enter);
    w.step(WizardKey::Char('u'));
    w.step(WizardKey::Enter);
    w.step(WizardKey::Enter);
    assert_eq!(w.state, SubmissionState::Submitting);
    assert_eq!(w.step(WizardKey::Esc), WizardAction::Nothing);
    assert_eq!(w.state, SubmissionState::TypePicker);
    // a result arriving after the discard changes nothing
    let refresh = w.on_result(SubmitResult { success: true, message: String::from("done") });
    assert!(!refresh);
    assert_eq!(w.state, SubmissionState::TypePicker);
}

#[test]
fn editor_return_with_content_advances_to_preview() {
    let mut w = open_wizard();
    w.step(WizardKey::Enter);
    w.editor_returned(String::from("my essay"));
    assert_eq!(w.state, SubmissionState::TextPreview);
    assert_eq!(w.input, "my essay");
}

#[test]
fn editor_return_blank_cancels_to_picker() {
    let mut w = open_wizard();
    w.step(WizardKey::Enter);
    w.editor_returned(String::from("  \n\t"));
    assert_eq!(w.state, SubmissionState::TypePicker);
}

#[test]
fn successful_result_reaches_done_and_asks_refresh() {
    let mut w = open_wizard();
    w.step(WizardKey::Down);
    w.step(WizardKey::Enter);
    w.step(WizardKey::Char('u'));
    w.step(WizardKey::Enter);
    w.step(WizardKey::Enter);
    let refresh = w.on_result(SubmitResult { success: true, message: String::from("ok!") });
    assert!(refresh);
    assert_eq!(w.state, SubmissionState::Done { success: true, message: String::from("ok!") });
    // any key dismisses
    w.step(WizardKey::Char('x'));
    assert!(w.state.is_hidden());
}

#[test]
fn failed_result_reaches_done_without_refresh() {
    let mut w = open_wizard();
    w.step(WizardKey::Down);
    w.step(WizardKey::Enter);
    w.step(WizardKey::Char('u'));
    w.step(WizardKey::Enter);
    w.step(WizardKey::Enter);
    let refresh = w.on_result(SubmitResult { success: false, message: String::from("bad") });
    assert!(!refresh);
    assert_eq!(w.state, SubmissionState::Done { success: false, message: String::from("bad") });
}

#[test]
fn target_is_fixed_for_the_whole_flow() {
    let mut w = open_wizard();
    let t = w.target;
    w.step(WizardKey::Down);
    w.step(WizardKey::Enter);
    w.step(WizardKey::Char('u'));
    w.step(WizardKey::Enter);
    w.step(WizardKey::Enter);
    assert_eq!(w.target, t);
}
