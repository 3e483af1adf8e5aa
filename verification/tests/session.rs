use mod_cod_barras::editor::{EditableField, FieldError};
use mod_cod_barras::layout::Field;
use mod_cod_barras::session::{
    clipboard_answer, is_candidate, normalize_key, offer, parse_command, start, step, take,
    Action, ClipboardAnswer, Command, Event, State,
};

const CODE: &str = "81610000001234512342024031500012340031240456";
const RAW: &str = "81610000001-5 23451234202-7 40315000123-9 40031240456-2";

fn line(text: &str) -> Event {
    Event::Line(String::from(text))
}

fn editing() -> State {
    let (state, _) = take(RAW);
    state
}

#[test]
fn keys_are_lowered() {
    assert_eq!(normalize_key('V'), 'v');
    assert_eq!(normalize_key('A'), 'a');
    assert_eq!(normalize_key('Z'), 'z');
    assert_eq!(normalize_key('s'), 's');
    assert_eq!(normalize_key('@'), '@');
    assert_eq!(normalize_key('['), '[');
    assert_eq!(normalize_key(' '), ' ');
    assert_eq!(normalize_key('É'), 'É');
}

#[test]
fn command_keys() {
    assert_eq!(parse_command('v'), Command::Edit(EditableField::Value));
    assert_eq!(parse_command('d'), Command::Edit(EditableField::DueDate));
    assert_eq!(parse_command('g'), Command::Edit(EditableField::GuideNumber));
    assert_eq!(parse_command('p'), Command::Edit(EditableField::Installment));
    assert_eq!(parse_command('e'), Command::Edit(EditableField::FiscalYear));
    assert_eq!(parse_command('t'), Command::Edit(EditableField::TributeCode));
    assert_eq!(parse_command('s'), Command::Save);
    assert_eq!(parse_command('x'), Command::Unrecognized);
    assert_eq!(parse_command('V'), Command::Unrecognized);
    assert_eq!(parse_command(' '), Command::Unrecognized);
}

#[test]
fn clipboard_answers() {
    assert_eq!(clipboard_answer('s'), ClipboardAnswer::Accept);
    assert_eq!(clipboard_answer(' '), ClipboardAnswer::Accept);
    assert_eq!(clipboard_answer('n'), ClipboardAnswer::Decline);
    assert_eq!(clipboard_answer('x'), ClipboardAnswer::Retry);
}

#[test]
fn candidate_has_55_characters() {
    assert!(is_candidate(RAW));
    assert!(!is_candidate(CODE));
    assert!(!is_candidate(""));
    assert!(!is_candidate(&format!("{} ", RAW)));
}

#[test]
fn session_starts_with_the_clipboard_or_without() {
    let (state, action) = start(Some(String::from(RAW)));
    assert!(matches!(state, State::AskingClipboard { ref candidate } if candidate == RAW));
    assert!(matches!(action, Action::AskClipboard));
    let (state, action) = start(Some(String::from("something else")));
    assert!(matches!(state, State::AwaitingBarcode));
    assert!(matches!(action, Action::AskBarcode { retry: false }));
    let (state, action) = start(None);
    assert!(matches!(state, State::AwaitingBarcode));
    assert!(matches!(action, Action::AskBarcode { retry: false }));
}

#[test]
fn clipboard_question_is_answered_by_a_key() {
    let (state, _) = start(Some(String::from(RAW)));
    let (state, action) = step(state, Event::Key('x'));
    assert!(matches!(state, State::AskingClipboard { .. }));
    assert!(matches!(action, Action::AskClipboard));
    let (state, action) = step(state, line("what"));
    assert!(matches!(state, State::AskingClipboard { .. }));
    assert!(matches!(action, Action::AskClipboard));
    let (state, action) = step(state, Event::Key('s'));
    assert!(matches!(action, Action::ShowFields { notice: None }));
    assert_eq!(state.fields().unwrap().encode(), CODE);

    let (state, _) = start(Some(String::from(RAW)));
    let (state, action) = step(state, Event::Key(' '));
    assert!(matches!(state, State::Editing { .. }));
    assert!(matches!(action, Action::ShowFields { notice: None }));

    let (state, _) = start(Some(String::from(RAW)));
    let (state, action) = step(state, Event::Key('n'));
    assert!(matches!(state, State::AwaitingBarcode));
    assert!(matches!(action, Action::AskBarcode { retry: false }));
}

#[test]
fn clipboard_text_that_is_no_barcode_ends_the_session() {
    let bad = RAW.replace("8161", "816x");
    let (state, _) = start(Some(bad));
    let (state, action) = step(state, Event::Key('s'));
    assert!(matches!(state, State::Aborted));
    assert!(matches!(action, Action::Abort));
    assert!(state.is_over());
    assert!(state.fields().is_none());
    let (state, action) = step(state, Event::Key('s'));
    assert!(matches!(state, State::Aborted));
    assert!(matches!(action, Action::Nothing));
}

#[test]
fn offered_text_is_taken_by_its_length() {
    let (state, action) = offer("816");
    assert!(matches!(state, State::AwaitingBarcode));
    assert!(matches!(action, Action::AskBarcode { retry: true }));
    let (state, action) = offer("");
    assert!(matches!(state, State::AwaitingBarcode));
    assert!(matches!(action, Action::AskBarcode { retry: true }));
    let (state, action) = offer(&format!("{}0", RAW));
    assert!(matches!(state, State::AwaitingBarcode));
    assert!(matches!(action, Action::AskBarcode { retry: true }));
    let (state, action) = offer(RAW);
    assert!(matches!(action, Action::ShowFields { notice: None }));
    assert_eq!(state.fields().unwrap().encode(), CODE);
    let (state, action) = offer(&RAW.replace("8161", "81a1"));
    assert!(matches!(state, State::Aborted));
    assert!(matches!(action, Action::Abort));
}

#[test]
fn typed_line_keeps_its_inner_spaces() {
    // only the white space at the two ends is dropped: the groups keep theirs
    let (state, _) = step(State::AwaitingBarcode, Event::Line(format!("\t {} \r\n", RAW)));
    assert_eq!(state.fields().unwrap().encode(), CODE);
    let short = RAW.replace(" ", "");
    let (state, action) = step(State::AwaitingBarcode, Event::Line(short));
    assert!(matches!(state, State::AwaitingBarcode));
    assert!(matches!(action, Action::AskBarcode { retry: true }));
}

#[test]
fn typed_barcode_is_trimmed_and_measured() {
    let (state, action) = step(State::AwaitingBarcode, line("816"));
    assert!(matches!(state, State::AwaitingBarcode));
    assert!(matches!(action, Action::AskBarcode { retry: true }));
    let (state, action) = step(state, Event::Key('s'));
    assert!(matches!(state, State::AwaitingBarcode));
    assert!(matches!(action, Action::AskBarcode { retry: false }));
    let (state, action) = step(state, line(&format!("  {}\t\n", RAW)));
    assert!(matches!(action, Action::ShowFields { notice: None }));
    assert_eq!(state.fields().unwrap().encode(), CODE);
    assert!(!state.is_over());
}

#[test]
fn typed_text_that_is_no_barcode_ends_the_session() {
    let bad = RAW.replace("8161", "81 1");
    let (state, action) = step(State::AwaitingBarcode, line(&bad));
    assert!(matches!(state, State::Aborted));
    assert!(matches!(action, Action::Abort));
}

#[test]
fn unrecognized_key_shows_the_fields_again() {
    let (state, action) = step(editing(), Event::Key('x'));
    assert!(matches!(action, Action::ShowFields { notice: None }));
    assert_eq!(state.fields().unwrap().encode(), CODE);
    let (state, action) = step(state, line("v"));
    assert!(matches!(state, State::Editing { .. }));
    assert!(matches!(action, Action::ShowFields { notice: None }));
}

#[test]
fn refused_text_asks_again_and_keeps_the_fields() {
    let (state, action) = step(editing(), Event::Key('p'));
    assert!(matches!(
        action,
        Action::AskField { which: EditableField::Installment, refused: None }
    ));
    let (state, action) = step(state, line("47"));
    assert!(matches!(
        action,
        Action::AskField {
            which: EditableField::Installment,
            refused: Some(FieldError::InstallmentOutOfRange)
        }
    ));
    assert!(matches!(state, State::EditingField { which: EditableField::Installment, .. }));
    assert_eq!(state.fields().unwrap().encode(), CODE);
    let (state, action) = step(state, Event::Key('s'));
    assert!(matches!(
        action,
        Action::AskField { which: EditableField::Installment, refused: None }
    ));
    let (state, action) = step(state, line("sete"));
    assert!(matches!(
        action,
        Action::AskField {
            which: EditableField::Installment,
            refused: Some(FieldError::Unreadable)
        }
    ));
    let (state, action) = step(state, line("46"));
    assert!(matches!(state, State::Editing { .. }));
    assert!(matches!(action, Action::ShowFields { notice: None }));
    assert_eq!(state.fields().unwrap().get(Field::Installment), "046");
}

#[test]
fn fiscal_year_without_a_due_date_goes_back_to_the_fields() {
    let raw = "81610000001-5 23451234202-7 40230000123-9 40031240456-2";
    let (state, _) = take(raw);
    assert_eq!(state.fields().unwrap().get(Field::DueDate), "20240230");
    let (state, _) = step(state, Event::Key('e'));
    let (state, action) = step(state, line("24"));
    assert!(matches!(state, State::Editing { .. }));
    assert!(matches!(action, Action::ShowFields { notice: Some(FieldError::NoDueDate) }));
    assert_eq!(state.fields().unwrap().get(Field::FiscalYear), "24");
}

#[test]
fn session_from_paste_to_export() {
    let (state, _) = start(Some(String::from(RAW)));
    let (state, _) = step(state, Event::Key('s'));
    let (state, action) = step(state, Event::Key('t'));
    assert!(matches!(
        action,
        Action::AskField { which: EditableField::TributeCode, refused: None }
    ));
    let (state, action) = step(state, line("789"));
    assert!(matches!(action, Action::ShowFields { notice: None }));
    let (state, action) = step(state, Event::Key('s'));
    assert!(matches!(state, State::Exported));
    assert!(state.is_over());
    match action {
        Action::Export(code) => {
            assert_eq!(code.len(), 44);
            assert_eq!(&code[..40], &CODE[..40]);
            assert_eq!(&code[40..], "0789");
        }
        other => panic!("no export: {:?}", other),
    }
    let (state, action) = step(state, Event::Key('v'));
    assert!(matches!(state, State::Exported));
    assert!(matches!(action, Action::Nothing));
}

#[test]
fn session_without_an_edit_exports_the_barcode_as_it_came() {
    let (state, action) = step(editing(), Event::Key('s'));
    assert!(matches!(state, State::Exported));
    assert!(matches!(action, Action::Export(ref code) if code == CODE));
}
