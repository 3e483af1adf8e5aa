//! The course of a session: which text is taken for the barcode, which key
//! asks for what, and what follows each answer. The functions here decide;
//! reading keys and lines, and showing and copying text, is left to the
//! caller. A session waits for its barcode, then for commands and for the
//! texts of fields, and ends when the barcode is handed out or the text that
//! was taken turns out to be none. Decoding and encoding happen within the
//! step that asks for them.

use vstd::prelude::*;
use vstd::string::*;
use crate::decoder::{decode, decoded};
use crate::editor::{edit, edited, EditableField, FieldError};
use crate::fields::BarcodeFields;
use crate::layout::RAW_LEN;

verus! {

/// What a key asks for while the fields are shown.
#[derive(Clone, Copy, Debug, PartialEq, Eq, Structural)]
pub enum Command {
    /// Edit one of the fields.
    Edit(EditableField),
    /// Hand the barcode out and end the session.
    Save,
    /// Nothing: the fields are shown again.
    Unrecognized,
}

/// What a key answers to the question whether the text on the clipboard is
/// the barcode.
#[derive(Clone, Copy, Debug, PartialEq, Eq, Structural)]
pub enum ClipboardAnswer {
    /// Take the text on the clipboard.
    Accept,
    /// Type the barcode instead.
    Decline,
    /// No answer: ask again.
    Retry,
}

/// The lower-case form of an ASCII capital, and any other character as it
/// is.
pub open spec fn lowered(c: char) -> char {
    if 'A' <= c && c <= 'Z' {
        ((c as u8) + 32) as char
    } else {
        c
    }
}

/// Maps an ASCII capital to its lower-case letter, so that a command is
/// taken with or without the shift key.
pub fn normalize_key(c: char) -> (k: char)
    ensures
        k == lowered(c),
{
    if 'A' <= c && c <= 'Z' {
        ((c as u8) + 32) as char
    } else {
        c
    }
}

/// The command that a key stands for.
pub open spec fn command_of(key: char) -> Command {
    if key == 'v' {
        Command::Edit(EditableField::Value)
    } else if key == 'd' {
        Command::Edit(EditableField::DueDate)
    } else if key == 'g' {
        Command::Edit(EditableField::GuideNumber)
    } else if key == 'p' {
        Command::Edit(EditableField::Installment)
    } else if key == 'e' {
        Command::Edit(EditableField::FiscalYear)
    } else if key == 't' {
        Command::Edit(EditableField::TributeCode)
    } else if key == 's' {
        Command::Save
    } else {
        Command::Unrecognized
    }
}

/// Reads a command key.
pub fn parse_command(key: char) -> (command: Command)
    ensures
        command == command_of(key),
{
    match key {
        'v' => Command::Edit(EditableField::Value),
        'd' => Command::Edit(EditableField::DueDate),
        'g' => Command::Edit(EditableField::GuideNumber),
        'p' => Command::Edit(EditableField::Installment),
        'e' => Command::Edit(EditableField::FiscalYear),
        't' => Command::Edit(EditableField::TributeCode),
        's' => Command::Save,
        _ => Command::Unrecognized,
    }
}

/// The answer that a key gives about the clipboard.
pub open spec fn answer_of(key: char) -> ClipboardAnswer {
    if key == 's' || key == ' ' {
        ClipboardAnswer::Accept
    } else if key == 'n' {
        ClipboardAnswer::Decline
    } else {
        ClipboardAnswer::Retry
    }
}

/// Reads the answer to the question about the clipboard.
pub fn clipboard_answer(key: char) -> (answer: ClipboardAnswer)
    ensures
        answer == answer_of(key),
{
    match key {
        's' | ' ' => ClipboardAnswer::Accept,
        'n' => ClipboardAnswer::Decline,
        _ => ClipboardAnswer::Retry,
    }
}

/// Whether a text has the length of a barcode as it is typed or pasted.
pub open spec fn is_candidate_text(text: Seq<char>) -> bool {
    text.len() == RAW_LEN
}

/// Tells whether a text has the length of a typed or pasted barcode.
pub fn is_candidate(text: &str) -> (b: bool)
    ensures
        b == is_candidate_text(text@),
{
    text.unicode_len() == RAW_LEN
}

/// Whether `part` stands in `whole` in one piece.
pub open spec fn is_piece_of(part: Seq<char>, whole: Seq<char>) -> bool {
    exists|i: int, j: int| 0 <= i <= j <= whole.len() && part == #[trigger] whole.subrange(i, j)
}

/// What `str::trim` leaves of a text: the text without the white space at
/// its two ends.
pub uninterp spec fn trimmed(text: Seq<char>) -> Seq<char>;

/// Calls `str::trim`. Not proved: that the result is what `trimmed` names,
/// and that it is a part of the text in one piece.
#[verifier::external_body]
pub(crate) fn trim(text: &str) -> (core: &str)
    ensures
        core@ == trimmed(text@),
        is_piece_of(core@, text@),
{
    text.trim()
}

/// Where a session stands.
#[derive(Debug)]
pub enum State {
    /// The clipboard holds a text of the right length, and the question
    /// whether to take it is open.
    AskingClipboard { candidate: String },
    /// The barcode is to be typed.
    AwaitingBarcode,
    /// The fields are shown and a command is awaited.
    Editing { fields: BarcodeFields },
    /// The text of one field is awaited.
    EditingField { fields: BarcodeFields, which: EditableField },
    /// The barcode was handed out: the session is over.
    Exported,
    /// The text was no barcode: the session is over.
    Aborted,
}

/// What the caller reports back.
#[derive(Debug)]
pub enum Event {
    /// A key was pressed.
    Key(char),
    /// A line was typed.
    Line(String),
}

/// What the caller is to do next.
#[derive(Debug)]
pub enum Action {
    /// Ask whether the text on the clipboard is to be taken, and report the
    /// key.
    AskClipboard,
    /// Ask for the barcode, after a complaint where `retry` is set, and
    /// report the line.
    AskBarcode { retry: bool },
    /// Show the barcode and its summary, with the notice if there is one,
    /// and report the key.
    ShowFields { notice: Option<FieldError> },
    /// Ask for the text of a field, starting from its prefill, after the
    /// complaint where the last text was refused, and report the line.
    AskField { which: EditableField, refused: Option<FieldError> },
    /// Put the barcode on the clipboard and leave.
    Export(String),
    /// Leave with a failure: the text was no barcode.
    Abort,
    /// Nothing is left to do.
    Nothing,
}

/// A state as a plain value.
pub enum StateModel {
    AskingClipboard(Seq<char>),
    AwaitingBarcode,
    Editing(Seq<Seq<char>>),
    EditingField(Seq<Seq<char>>, EditableField),
    Exported,
    Aborted,
}

/// An event as a plain value.
pub enum EventModel {
    Key(char),
    Line(Seq<char>),
}

/// An action as a plain value.
pub enum ActionModel {
    AskClipboard,
    AskBarcode { retry: bool },
    ShowFields { notice: Option<FieldError> },
    AskField { which: EditableField, refused: Option<FieldError> },
    Export(Seq<char>),
    Abort,
    Nothing,
}

impl View for State {
    type V = StateModel;

    open spec fn view(&self) -> StateModel {
        match self {
            State::AskingClipboard { candidate } => StateModel::AskingClipboard(candidate@),
            State::AwaitingBarcode => StateModel::AwaitingBarcode,
            State::Editing { fields } => StateModel::Editing(fields@),
            State::EditingField { fields, which } => StateModel::EditingField(fields@, *which),
            State::Exported => StateModel::Exported,
            State::Aborted => StateModel::Aborted,
        }
    }
}

impl View for Event {
    type V = EventModel;

    open spec fn view(&self) -> EventModel {
        match self {
            Event::Key(key) => EventModel::Key(*key),
            Event::Line(line) => EventModel::Line(line@),
        }
    }
}

impl View for Action {
    type V = ActionModel;

    open spec fn view(&self) -> ActionModel {
        match self {
            Action::AskClipboard => ActionModel::AskClipboard,
            Action::AskBarcode { retry } => ActionModel::AskBarcode { retry: *retry },
            Action::ShowFields { notice } => ActionModel::ShowFields { notice: *notice },
            Action::AskField { which, refused } => ActionModel::AskField {
                which: *which,
                refused: *refused,
            },
            Action::Export(code) => ActionModel::Export(code@),
            Action::Abort => ActionModel::Abort,
            Action::Nothing => ActionModel::Nothing,
        }
    }
}

/// How a session begins: with the question about the clipboard where it
/// holds a text of the right length, and with the request to type the
/// barcode otherwise.
pub open spec fn first(clipboard: Option<Seq<char>>) -> (StateModel, ActionModel) {
    match clipboard {
        Some(text) => if is_candidate_text(text) {
            (StateModel::AskingClipboard(text), ActionModel::AskClipboard)
        } else {
            (StateModel::AwaitingBarcode, ActionModel::AskBarcode { retry: false })
        },
        None => (StateModel::AwaitingBarcode, ActionModel::AskBarcode { retry: false }),
    }
}

/// What follows once a text was taken for the barcode: its fields are shown
/// if it decodes, and the session fails if it does not.
pub open spec fn taken(raw: Seq<char>) -> (StateModel, ActionModel) {
    match decoded(raw) {
        Some(fields) => (StateModel::Editing(fields), ActionModel::ShowFields { notice: None }),
        None => (StateModel::Aborted, ActionModel::Abort),
    }
}

/// What follows once a typed barcode, without the white space around it, is
/// offered: it is taken where it has the right length, and asked for again
/// with a complaint where it has not.
pub open spec fn offered(core: Seq<char>) -> (StateModel, ActionModel) {
    if is_candidate_text(core) {
        taken(core)
    } else {
        (StateModel::AwaitingBarcode, ActionModel::AskBarcode { retry: true })
    }
}

/// What follows a text typed for a field: the new fields are shown where it
/// is accepted; the question is asked again where it is refused; and where
/// there is no due date to hold a fiscal year against, the fields are shown
/// with that notice.
pub open spec fn typed(fields: Seq<Seq<char>>, which: EditableField, text: Seq<char>) -> (
    StateModel,
    ActionModel,
) {
    match edited(fields, which, text) {
        Ok(after) => (StateModel::Editing(after), ActionModel::ShowFields { notice: None }),
        Err(FieldError::NoDueDate) => (
            StateModel::Editing(fields),
            ActionModel::ShowFields { notice: Some(FieldError::NoDueDate) },
        ),
        Err(e) => (
            StateModel::EditingField(fields, which),
            ActionModel::AskField { which, refused: Some(e) },
        ),
    }
}

/// The state that follows an event, and what the caller is to do then. An
/// event of the wrong kind leaves the state as it is and has the question
/// asked again.
pub open spec fn next(state: StateModel, event: EventModel) -> (StateModel, ActionModel) {
    match state {
        StateModel::AskingClipboard(candidate) => match event {
            EventModel::Key(key) => match answer_of(key) {
                ClipboardAnswer::Accept => taken(candidate),
                ClipboardAnswer::Decline => (
                    StateModel::AwaitingBarcode,
                    ActionModel::AskBarcode { retry: false },
                ),
                ClipboardAnswer::Retry => (state, ActionModel::AskClipboard),
            },
            EventModel::Line(_) => (state, ActionModel::AskClipboard),
        },
        StateModel::AwaitingBarcode => match event {
            EventModel::Line(line) => offered(trimmed(line)),
            EventModel::Key(_) => (state, ActionModel::AskBarcode { retry: false }),
        },
        StateModel::Editing(fields) => match event {
            EventModel::Key(key) => match command_of(key) {
                Command::Edit(which) => (
                    StateModel::EditingField(fields, which),
                    ActionModel::AskField { which, refused: None },
                ),
                Command::Save => (
                    StateModel::Exported,
                    ActionModel::Export(crate::fields::joined(fields)),
                ),
                Command::Unrecognized => (state, ActionModel::ShowFields { notice: None }),
            },
            EventModel::Line(_) => (state, ActionModel::ShowFields { notice: None }),
        },
        StateModel::EditingField(fields, which) => match event {
            EventModel::Line(text) => typed(fields, which, text),
            EventModel::Key(_) => (state, ActionModel::AskField { which, refused: None }),
        },
        StateModel::Exported => (state, ActionModel::Nothing),
        StateModel::Aborted => (state, ActionModel::Nothing),
    }
}

/// Begins a session, with the text of the clipboard if it could be had.
pub fn start(clipboard: Option<String>) -> (r: (State, Action))
    ensures
        (r.0@, r.1@) == first(
            match clipboard {
                Some(text) => Some(text@),
                None => None,
            },
        ),
{
    match clipboard {
        Some(candidate) => {
            if is_candidate(candidate.as_str()) {
                (State::AskingClipboard { candidate }, Action::AskClipboard)
            } else {
                (State::AwaitingBarcode, Action::AskBarcode { retry: false })
            }
        },
        None => (State::AwaitingBarcode, Action::AskBarcode { retry: false }),
    }
}

/// Decodes the text that was taken for the barcode.
pub fn take(raw: &str) -> (r: (State, Action))
    ensures
        (r.0@, r.1@) == taken(raw@),
{
    match decode(raw) {
        Ok(fields) => (State::Editing { fields }, Action::ShowFields { notice: None }),
        Err(_) => (State::Aborted, Action::Abort),
    }
}

/// Takes a typed barcode, already without the white space around it, if it
/// has the right length.
pub fn offer(core: &str) -> (r: (State, Action))
    ensures
        (r.0@, r.1@) == offered(core@),
{
    if is_candidate(core) {
        take(core)
    } else {
        (State::AwaitingBarcode, Action::AskBarcode { retry: true })
    }
}

/// Takes one event and says where the session stands then and what is to be
/// done.
pub fn step(state: State, event: Event) -> (r: (State, Action))
    ensures
        (r.0@, r.1@) == next(state@, event@),
{
    match state {
        State::AskingClipboard { candidate } => match event {
            Event::Key(key) => match clipboard_answer(key) {
                ClipboardAnswer::Accept => take(candidate.as_str()),
                ClipboardAnswer::Decline => (
                    State::AwaitingBarcode,
                    Action::AskBarcode { retry: false },
                ),
                ClipboardAnswer::Retry => (
                    State::AskingClipboard { candidate },
                    Action::AskClipboard,
                ),
            },
            Event::Line(_) => (State::AskingClipboard { candidate }, Action::AskClipboard),
        },
        State::AwaitingBarcode => match event {
            Event::Line(line) => offer(trim(line.as_str())),
            Event::Key(_) => (State::AwaitingBarcode, Action::AskBarcode { retry: false }),
        },
        State::Editing { fields } => match event {
            Event::Key(key) => match parse_command(key) {
                Command::Edit(which) => (
                    State::EditingField { fields, which },
                    Action::AskField { which, refused: None },
                ),
                Command::Save => {
                    let code = fields.encode();
                    (State::Exported, Action::Export(code))
                },
                Command::Unrecognized => (
                    State::Editing { fields },
                    Action::ShowFields { notice: None },
                ),
            },
            Event::Line(_) => (State::Editing { fields }, Action::ShowFields { notice: None }),
        },
        State::EditingField { fields, which } => match event {
            Event::Line(text) => {
                let mut fields = fields;
                match edit(&mut fields, which, text.as_str()) {
                    Ok(()) => (State::Editing { fields }, Action::ShowFields { notice: None }),
                    Err(FieldError::NoDueDate) => (
                        State::Editing { fields },
                        Action::ShowFields { notice: Some(FieldError::NoDueDate) },
                    ),
                    Err(e) => (
                        State::EditingField { fields, which },
                        Action::AskField { which, refused: Some(e) },
                    ),
                }
            },
            Event::Key(_) => (
                State::EditingField { fields, which },
                Action::AskField { which, refused: None },
            ),
        },
        State::Exported => (State::Exported, Action::Nothing),
        State::Aborted => (State::Aborted, Action::Nothing),
    }
}

impl State {
    /// The fields, while there are any to show.
    pub fn fields(&self) -> (fields: Option<&BarcodeFields>)
        ensures
            match self@ {
                StateModel::Editing(f) => fields is Some && fields.unwrap()@ == f,
                StateModel::EditingField(f, _) => fields is Some && fields.unwrap()@ == f,
                _ => fields is None,
            },
    {
        match self {
            State::Editing { fields } => Some(fields),
            State::EditingField { fields, .. } => Some(fields),
            _ => None,
        }
    }

    /// Whether the session is over.
    pub fn is_over(&self) -> (over: bool)
        ensures
            over == (self@ is Exported || self@ is Aborted),
    {
        match self {
            State::Exported => true,
            State::Aborted => true,
            _ => false,
        }
    }
}

} // verus!
