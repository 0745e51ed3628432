//! The interactive submission flow, as a finite-state machine.
//!
//! The wizard drives: pick a submission kind, collect the input (URL, file
//! path, or text from an external editor round-trip), confirm, run the
//! pipeline in the background, show the result. The machine itself is pure:
//! the surrounding shell feeds it key events and performs the effects it
//! asks for (launching the editor, starting the pipeline call).

use vstd::prelude::*;

use crate::models::SubmitResult;
use crate::strutil::{has_content, pop_char, push_char, str_eq_str};

verus! {

/// The three submission kinds this client understands.
#[derive(Debug, Clone, Copy, PartialEq, Eq, Structural)]
pub enum SubmissionKind {
    TextEntry,
    Url,
    FileUpload,
}

/// Which kind a raw API submission-type tag stands for, if any.
pub open spec fn kind_of_api_type(s: Seq<char>) -> Option<SubmissionKind> {
    if s == "online_text_entry"@ {
        Some(SubmissionKind::TextEntry)
    } else if s == "online_url"@ {
        Some(SubmissionKind::Url)
    } else if s == "online_upload"@ {
        Some(SubmissionKind::FileUpload)
    } else {
        None
    }
}

impl SubmissionKind {
    pub fn label(&self) -> (r: &'static str)
        ensures
            *self is TextEntry ==> r@ == "Text Entry  (opens $EDITOR)"@,
            *self is Url ==> r@ == "URL Submission"@,
            *self is FileUpload ==> r@ == "File Upload"@,
    {
        match self {
            SubmissionKind::TextEntry => "Text Entry  (opens $EDITOR)",
            SubmissionKind::Url => "URL Submission",
            SubmissionKind::FileUpload => "File Upload",
        }
    }

    pub fn from_api_type(s: &str) -> (r: Option<SubmissionKind>)
        ensures
            r == kind_of_api_type(s@),
    {
        if str_eq_str(s, "online_text_entry") {
            Some(SubmissionKind::TextEntry)
        } else if str_eq_str(s, "online_url") {
            Some(SubmissionKind::Url)
        } else if str_eq_str(s, "online_upload") {
            Some(SubmissionKind::FileUpload)
        } else {
            None
        }
    }
}

/// The wizard's modal states.
#[derive(Debug, Clone, PartialEq)]
pub enum SubmissionState {
    Hidden,
    /// Choosing which submission kind to use.
    TypePicker,
    /// Typing a URL.
    UrlInput,
    /// Typing a file path.
    FileInput,
    /// Showing editor content before confirming.
    TextPreview,
    /// Final yes/no confirm screen (URL or file).
    Confirming,
    /// Background pipeline call running.
    Submitting,
    /// The pipeline returned; showing its result.
    Done { success: bool, message: String },
}

impl SubmissionState {
    pub fn is_hidden(&self) -> (r: bool)
        ensures
            r == (*self is Hidden),
    {
        matches!(self, SubmissionState::Hidden)
    }
}

/// A key event, as far as the wizard cares.
#[derive(Debug, Clone, Copy, PartialEq, Eq, Structural)]
pub enum WizardKey {
    Up,
    Down,
    Enter,
    Esc,
    Backspace,
    Char(char),
    Other,
}

/// What the shell must do after a step.
#[derive(Debug, Clone, Copy, PartialEq, Eq, Structural)]
pub enum WizardAction {
    /// Nothing beyond redrawing.
    Nothing,
    /// Run the external editor round-trip, then report its content back
    /// through `editor_returned`.
    LaunchEditor,
    /// Start one background pipeline call for the current target, kind and
    /// input, and report its result back through `on_result`.
    StartSubmission,
}

/// Why opening the wizard was refused.
#[derive(Debug, Clone, Copy, PartialEq, Eq, Structural)]
pub enum OpenRefusal {
    /// No course/assignment was resolvable from the selection.
    NoAssignment,
    /// The assignment declares no submission kind this client understands.
    NoSupportedKind,
}

/// The submission wizard: modal state plus the data the flow has gathered.
#[derive(Debug, Clone, PartialEq)]
pub struct SubmissionWizard {
    pub state: SubmissionState,
    /// Kind picked in the type picker.
    pub kind: Option<SubmissionKind>,
    /// Kinds the open assignment supports, in declaration order.
    pub supported_kinds: Vec<SubmissionKind>,
    /// Cursor inside `supported_kinds`.
    pub cursor: usize,
    /// Shared text buffer: URL, file path, or editor content.
    pub input: String,
    /// (course id, assignment id) fixed when the wizard opened.
    pub target: Option<(u64, u64)>,
}

/// Everything but the modal state is unchanged.
pub open spec fn keeps_data(o: SubmissionWizard, f: SubmissionWizard) -> bool {
    &&& f.kind == o.kind
    &&& f.cursor == o.cursor
    &&& f.input == o.input
    &&& f.target == o.target
    &&& f.supported_kinds == o.supported_kinds
}

/// Unchanged but for the cursor, which sits in the type picker.
pub open spec fn picker_moved(o: SubmissionWizard, f: SubmissionWizard, c: int) -> bool {
    &&& f.state is TypePicker
    &&& f.cursor == c
    &&& f.kind == o.kind
    &&& f.input == o.input
    &&& f.target == o.target
    &&& f.supported_kinds == o.supported_kinds
}

/// A kind was picked: the buffer is cleared and input collection starts.
pub open spec fn entered_collection(
    o: SubmissionWizard,
    f: SubmissionWizard,
    k: SubmissionKind,
) -> bool {
    &&& f.kind == Some(k)
    &&& f.input@ == Seq::<char>::empty()
    &&& f.cursor == o.cursor
    &&& f.target == o.target
    &&& f.supported_kinds == o.supported_kinds
}

/// The transition the type picker makes on `key`.
pub open spec fn picker_step_ok(
    o: SubmissionWizard,
    f: SubmissionWizard,
    key: WizardKey,
    act: WizardAction,
) -> bool {
    match key {
        WizardKey::Up => picker_moved(o, f, if o.cursor > 0 { o.cursor - 1 } else { 0 })
            && act is Nothing,
        WizardKey::Down => picker_moved(
            o,
            f,
            if o.cursor + 1 < o.supported_kinds@.len() { o.cursor + 1 } else { o.cursor as int },
        ) && act is Nothing,
        WizardKey::Enter => if o.cursor < o.supported_kinds@.len() {
            match o.supported_kinds@[o.cursor as int] {
                SubmissionKind::TextEntry => f.state is Hidden && entered_collection(
                    o,
                    f,
                    SubmissionKind::TextEntry,
                ) && act is LaunchEditor,
                SubmissionKind::Url => f.state is UrlInput && entered_collection(
                    o,
                    f,
                    SubmissionKind::Url,
                ) && act is Nothing,
                SubmissionKind::FileUpload => f.state is FileInput && entered_collection(
                    o,
                    f,
                    SubmissionKind::FileUpload,
                ) && act is Nothing,
            }
        } else {
            f.state is TypePicker && keeps_data(o, f) && act is Nothing
        },
        WizardKey::Esc => f.state is Hidden && keeps_data(o, f) && act is Nothing,
        WizardKey::Char(c) => if c == 'k' {
            picker_moved(o, f, if o.cursor > 0 { o.cursor - 1 } else { 0 }) && act is Nothing
        } else if c == 'j' {
            picker_moved(
                o,
                f,
                if o.cursor + 1 < o.supported_kinds@.len() { o.cursor + 1 } else { o.cursor as int },
            ) && act is Nothing
        } else if c == 'q' {
            f.state is Hidden && keeps_data(o, f) && act is Nothing
        } else {
            f.state is TypePicker && keeps_data(o, f) && act is Nothing
        },
        _ => f.state is TypePicker && keeps_data(o, f) && act is Nothing,
    }
}

/// The transition the URL/file input screens make on `key`. `url` says
/// which of the two screens is open.
pub open spec fn input_step_ok(
    o: SubmissionWizard,
    f: SubmissionWizard,
    key: WizardKey,
    act: WizardAction,
    url: bool,
) -> bool {
    let same_screen = if url {
        f.state is UrlInput
    } else {
        f.state is FileInput
    };
    match key {
        WizardKey::Char(c) => same_screen && f.input@ == o.input@.push(c) && f.kind == o.kind
            && f.cursor == o.cursor && f.target == o.target && f.supported_kinds
            == o.supported_kinds && act is Nothing,
        WizardKey::Backspace => same_screen && f.input@ == (if o.input@.len() == 0 {
            o.input@
        } else {
            o.input@.drop_last()
        }) && f.kind == o.kind && f.cursor == o.cursor && f.target == o.target
            && f.supported_kinds == o.supported_kinds && act is Nothing,
        WizardKey::Enter => keeps_data(o, f) && act is Nothing && (if exists|j: int|
            0 <= j < o.input@.len() && !crate::strutil::is_space(o.input@[j]) {
            f.state is Confirming
        } else {
            same_screen
        }),
        WizardKey::Esc => f.state is TypePicker && keeps_data(o, f) && act is Nothing,
        _ => same_screen && keeps_data(o, f) && act is Nothing,
    }
}

/// The transition of the yes/no gates (text preview and confirm screen).
/// `preview` says which gate is open. "Yes" starts the pipeline only when a
/// target and a kind are fixed.
pub open spec fn confirm_step_ok(
    o: SubmissionWizard,
    f: SubmissionWizard,
    key: WizardKey,
    act: WizardAction,
    preview: bool,
) -> bool {
    let same_screen = if preview {
        f.state is TextPreview
    } else {
        f.state is Confirming
    };
    let yes = key is Enter || key == WizardKey::Char('y');
    let no = key is Esc || key == WizardKey::Char('n');
    if yes {
        keeps_data(o, f) && (if o.target is Some && o.kind is Some {
            f.state is Submitting && act is StartSubmission
        } else {
            same_screen && act is Nothing
        })
    } else if no {
        f.state is TypePicker && keeps_data(o, f) && act is Nothing
    } else {
        same_screen && keeps_data(o, f) && act is Nothing
    }
}

impl SubmissionWizard {
    /// A closed wizard with nothing gathered.
    pub fn new() -> (r: SubmissionWizard)
        ensures
            r.state is Hidden,
            r.kind is None,
            r.supported_kinds@.len() == 0,
            r.cursor == 0,
            r.input@.len() == 0,
            r.target is None,
    {
        SubmissionWizard {
            state: SubmissionState::Hidden,
            kind: None,
            supported_kinds: Vec::new(),
            cursor: 0,
            input: String::new(),
            target: None,
        }
    }

    /// Open the wizard for an assignment. `resolved` carries the course id,
    /// assignment id and declared submission-type tags of whichever
    /// assignment the selection stands on, or `None` when none is
    /// resolvable. The supported kinds are the declared tags this client
    /// understands, in declaration order; with none, no modal opens.
    pub fn open(&mut self, resolved: Option<(u64, u64, Vec<String>)>) -> (r: Result<
        (),
        OpenRefusal,
    >)
        ensures
            resolved is None ==> r == Result::<(), OpenRefusal>::Err(OpenRefusal::NoAssignment)
                && *final(self) == *old(self),
            resolved matches Some((cid, aid, types)) ==> {
                let sup = Seq::new(types@.len(), |i: int| kind_of_api_type(types@[i]@)).filter(
                    |k: Option<SubmissionKind>| k is Some,
                );
                if sup.len() == 0 {
                    r == Result::<(), OpenRefusal>::Err(OpenRefusal::NoSupportedKind) && *final(self)
                        == *old(self)
                } else {
                    &&& r == Result::<(), OpenRefusal>::Ok(())
                    &&& final(self).state is TypePicker
                    &&& final(self).target == Some((cid, aid))
                    &&& final(self).supported_kinds@ == sup.map_values(
                        |k: Option<SubmissionKind>| k->0,
                    )
                    &&& final(self).cursor == 0
                    &&& final(self).input@ == Seq::<char>::empty()
                    &&& final(self).kind is None
                }
            },
    {
        let (course_id, assignment_id, types) = match resolved {
            None => {
                return Err(OpenRefusal::NoAssignment);
            },
            Some(t) => t,
        };
        let mut supported: Vec<SubmissionKind> = Vec::new();
        let ghost all: Seq<Option<SubmissionKind>> = Seq::new(
            types@.len(),
            |i: int| kind_of_api_type(types@[i]@),
        );
        let mut i: usize = 0;
        while i < types.len()
            invariant
                i <= types@.len(),
                all == Seq::new(types@.len(), |i: int| kind_of_api_type(types@[i]@)),
                supported@ == all.take(i as int).filter(|k: Option<SubmissionKind>| k is Some)
                    .map_values(|k: Option<SubmissionKind>| k->0),
            decreases types@.len() - i,
        {
            proof {
                assert(all.take(i + 1).drop_last() =~= all.take(i as int));
                reveal_with_fuel(Seq::filter, 2);
            }
            match SubmissionKind::from_api_type(types[i].as_str()) {
                Some(k) => {
                    supported.push(k);
                },
                None => {},
            }
            i = i + 1;
        }
        proof {
            assert(all.take(types@.len() as int) =~= all);
        }
        if supported.len() == 0 {
            return Err(OpenRefusal::NoSupportedKind);
        }
        self.target = Some((course_id, assignment_id));
        self.supported_kinds = supported;
        self.cursor = 0;
        self.input = String::new();
        self.kind = None;
        self.state = SubmissionState::TypePicker;
        Ok(())
    }

    /// One key event while the modal is open. Returns the effect the shell
    /// must perform. While a pipeline call is outstanding (`Submitting`),
    /// no key ever starts a second one: the only move is Esc, which
    /// discards interest in the pending result.
    pub fn step(&mut self, key: WizardKey) -> (act: WizardAction)
        ensures
            old(self).state is Submitting ==> act is Nothing,
            final(self).target == old(self).target,
            final(self).supported_kinds == old(self).supported_kinds,
            old(self).state is Hidden ==> *final(self) == *old(self) && act is Nothing,
            old(self).state is TypePicker ==> picker_step_ok(*old(self), *final(self), key, act),
            old(self).state is UrlInput ==> input_step_ok(*old(self), *final(self), key, act, true),
            old(self).state is FileInput ==> input_step_ok(
                *old(self),
                *final(self),
                key,
                act,
                false,
            ),
            old(self).state is TextPreview ==> confirm_step_ok(
                *old(self),
                *final(self),
                key,
                act,
                true,
            ),
            old(self).state is Confirming ==> confirm_step_ok(
                *old(self),
                *final(self),
                key,
                act,
                false,
            ),
            old(self).state is Submitting ==> keeps_data(*old(self), *final(self)) && (
            if key is Esc {
                final(self).state is TypePicker
            } else {
                final(self).state is Submitting
            }),
            old(self).state is Done ==> final(self).state is Hidden && keeps_data(
                *old(self),
                *final(self),
            ) && act is Nothing,
    {
        match self.state {
            SubmissionState::Hidden => WizardAction::Nothing,
            SubmissionState::TypePicker => self.step_picker(key),
            SubmissionState::UrlInput => self.step_input(key, true),
            SubmissionState::FileInput => self.step_input(key, false),
            SubmissionState::TextPreview => self.step_confirm(key, true),
            SubmissionState::Confirming => self.step_confirm(key, false),
            SubmissionState::Submitting => {
                if matches!(key, WizardKey::Esc) {
                    self.state = SubmissionState::TypePicker;
                }
                WizardAction::Nothing
            },
            SubmissionState::Done { .. } => {
                self.state = SubmissionState::Hidden;
                WizardAction::Nothing
            },
        }
    }

    fn step_picker(&mut self, key: WizardKey) -> (act: WizardAction)
        requires
            old(self).state is TypePicker,
        ensures
            picker_step_ok(*old(self), *final(self), key, act),
            final(self).target == old(self).target,
            final(self).supported_kinds == old(self).supported_kinds,
    {
        let up = matches!(key, WizardKey::Up) || matches!(key, WizardKey::Char('k'));
        let down = matches!(key, WizardKey::Down) || matches!(key, WizardKey::Char('j'));
        let quit = matches!(key, WizardKey::Esc) || matches!(key, WizardKey::Char('q'));
        if up {
            if self.cursor > 0 {
                self.cursor = self.cursor - 1;
            }
            WizardAction::Nothing
        } else if down {
            let len = self.supported_kinds.len();
            if len > 0 && self.cursor < len - 1 {
                self.cursor = self.cursor + 1;
            }
            WizardAction::Nothing
        } else if quit {
            self.state = SubmissionState::Hidden;
            WizardAction::Nothing
        } else if matches!(key, WizardKey::Enter) {
            if self.cursor < self.supported_kinds.len() {
                let k = self.supported_kinds[self.cursor];
                self.kind = Some(k);
                self.input = String::new();
                match k {
                    SubmissionKind::TextEntry => {
                        self.state = SubmissionState::Hidden;
                        WizardAction::LaunchEditor
                    },
                    SubmissionKind::Url => {
                        self.state = SubmissionState::UrlInput;
                        WizardAction::Nothing
                    },
                    SubmissionKind::FileUpload => {
                        self.state = SubmissionState::FileInput;
                        WizardAction::Nothing
                    },
                }
            } else {
                WizardAction::Nothing
            }
        } else {
            WizardAction::Nothing
        }
    }

    fn step_input(&mut self, key: WizardKey, url: bool) -> (act: WizardAction)
        requires
            url ==> old(self).state is UrlInput,
            !url ==> old(self).state is FileInput,
        ensures
            input_step_ok(*old(self), *final(self), key, act, url),
            final(self).target == old(self).target,
            final(self).supported_kinds == old(self).supported_kinds,
    {
        match key {
            WizardKey::Char(c) => {
                push_char(&mut self.input, c);
                WizardAction::Nothing
            },
            WizardKey::Backspace => {
                pop_char(&mut self.input);
                WizardAction::Nothing
            },
            WizardKey::Enter => {
                if has_content(self.input.as_str()) {
                    self.state = SubmissionState::Confirming;
                }
                WizardAction::Nothing
            },
            WizardKey::Esc => {
                self.state = SubmissionState::TypePicker;
                WizardAction::Nothing
            },
            _ => WizardAction::Nothing,
        }
    }

    fn step_confirm(&mut self, key: WizardKey, preview: bool) -> (act: WizardAction)
        requires
            preview ==> old(self).state is TextPreview,
            !preview ==> old(self).state is Confirming,
        ensures
            confirm_step_ok(*old(self), *final(self), key, act, preview),
            final(self).target == old(self).target,
            final(self).supported_kinds == old(self).supported_kinds,
    {
        let yes = matches!(key, WizardKey::Enter) || matches!(key, WizardKey::Char('y'));
        let no = matches!(key, WizardKey::Esc) || matches!(key, WizardKey::Char('n'));
        if yes {
            if self.target.is_some() && self.kind.is_some() {
                self.state = SubmissionState::Submitting;
                WizardAction::StartSubmission
            } else {
                WizardAction::Nothing
            }
        } else if no {
            self.state = SubmissionState::TypePicker;
            WizardAction::Nothing
        } else {
            WizardAction::Nothing
        }
    }

    /// The external editor round-trip came back with `content`: empty
    /// content cancels back to the type picker, anything else advances to
    /// the text preview with the content as the input buffer.
    pub fn editor_returned(&mut self, content: String)
        ensures
            final(self).target == old(self).target,
            final(self).supported_kinds == old(self).supported_kinds,
            final(self).kind == old(self).kind,
            final(self).cursor == old(self).cursor,
            (exists|j: int| 0 <= j < content@.len() && !crate::strutil::is_space(content@[j]))
                ==> final(self).state is TextPreview && final(self).input == content,
            !(exists|j: int| 0 <= j < content@.len() && !crate::strutil::is_space(content@[j]))
                ==> final(self).state is TypePicker && final(self).input == old(self).input,
    {
        if has_content(content.as_str()) {
            self.input = content;
            self.state = SubmissionState::TextPreview;
        } else {
            self.state = SubmissionState::TypePicker;
        }
    }

    /// A finished pipeline call reported `result`. Only a wizard still in
    /// `Submitting` takes it (interest may have been discarded); a
    /// successful submission asks for a fresh sync pass.
    pub fn on_result(&mut self, result: SubmitResult) -> (needs_refresh: bool)
        ensures
            old(self).state is Submitting ==> final(self).state == (SubmissionState::Done {
                success: result.success,
                message: result.message,
            }) && keeps_data(*old(self), *final(self)) && needs_refresh == result.success,
            !(old(self).state is Submitting) ==> *final(self) == *old(self) && !needs_refresh,
    {
        if matches!(self.state, SubmissionState::Submitting) {
            let success = result.success;
            self.state = SubmissionState::Done { success, message: result.message };
            success
        } else {
            false
        }
    }
}

} // verus!
