use vstd::prelude::*;

use crate::input::{KeyCode, KeyEvent};
use crate::paths::{join_path, parent_path, path_join, path_parent};
use crate::text::{is_blank, lemma_trim_blank, trim, trim_spec};
use crate::text_input::{apply, apply_paste, not_line_break, TextInputAction};

verus! {

/// A popup waiting for input: a single-line text field, or a yes/no
/// confirmation.
pub enum Modal {
    NewWorkspacePath { input: String },
    RenameSession { session_id: u128, input: String },
    NewFile { workspace_id: u128, dir: String, input: String },
    NewDir { workspace_id: u128, dir: String, input: String },
    RenamePath { workspace_id: u128, from: String, input: String },
    ConfirmCloseSession { session_id: u128 },
    ConfirmCloseWorkspace { workspace_id: u128 },
    ConfirmDeletePath { workspace_id: u128, path: String, parent: String },
}

/// What a finished modal asks the app to do.
pub enum ModalEffect {
    Nothing,
    SpawnWorkspace { directory: String },
    RenameSession { session_id: u128, name: String },
    CreateFile { workspace_id: u128, path: String, parent: String },
    CreateDir { workspace_id: u128, path: String, parent: String },
    RenamePath { workspace_id: u128, from: String, to: String, parent: String },
    ConfirmCloseSession { session_id: u128 },
    ConfirmCloseWorkspace { workspace_id: u128 },
    DeletePath { workspace_id: u128, path: String, parent: String },
}

impl Modal {
    /// The text field of the modal, if it has one.
    pub open spec fn input_spec(&self) -> Option<Seq<char>> {
        match self {
            Modal::NewWorkspacePath { input } => Some(input@),
            Modal::RenameSession { input, .. } => Some(input@),
            Modal::NewFile { input, .. } => Some(input@),
            Modal::NewDir { input, .. } => Some(input@),
            Modal::RenamePath { input, .. } => Some(input@),
            _ => None,
        }
    }

    /// The same modal with another text field content.
    pub open spec fn same_shape(&self, other: &Modal) -> bool {
        match (self, other) {
            (Modal::NewWorkspacePath { .. }, Modal::NewWorkspacePath { .. }) => true,
            (Modal::RenameSession { session_id: a, .. }, Modal::RenameSession { session_id: b, .. }) => a == b,
            (Modal::NewFile { workspace_id: a, dir: d, .. }, Modal::NewFile { workspace_id: b, dir: e, .. }) => a
                == b && d@ == e@,
            (Modal::NewDir { workspace_id: a, dir: d, .. }, Modal::NewDir { workspace_id: b, dir: e, .. }) => a == b
                && d@ == e@,
            (
                Modal::RenamePath { workspace_id: a, from: d, .. },
                Modal::RenamePath { workspace_id: b, from: e, .. },
            ) => a == b && d@ == e@,
            (Modal::ConfirmCloseSession { session_id: a }, Modal::ConfirmCloseSession { session_id: b }) => a == b,
            (Modal::ConfirmCloseWorkspace { workspace_id: a }, Modal::ConfirmCloseWorkspace { workspace_id: b }) => a
                == b,
            (
                Modal::ConfirmDeletePath { workspace_id: a, path: p, parent: q },
                Modal::ConfirmDeletePath { workspace_id: b, path: r, parent: t },
            ) => a == b && p@ == r@ && q@ == t@,
            _ => false,
        }
    }

    /// Routes a bracketed paste into the modal's text field, line breaks
    /// dropped; the confirmations have nothing to paste into.
    pub fn paste(&mut self, text: &str)
        ensures
            final(self).same_shape(old(self)),
            match old(self).input_spec() {
                Some(s) => final(self).input_spec() == Some(s + text@.filter(|c: char| not_line_break(c))),
                None => final(self).input_spec() is None,
            },
    {
        match self {
            Modal::NewWorkspacePath { input } => apply_paste(input, text),
            Modal::RenameSession { input, .. } => apply_paste(input, text),
            Modal::NewFile { input, .. } => apply_paste(input, text),
            Modal::NewDir { input, .. } => apply_paste(input, text),
            Modal::RenamePath { input, .. } => apply_paste(input, text),
            _ => {},
        }
    }
}

/// The text a field holds after `key`, by the shared text-input keymap.
pub open spec fn edited(input: Seq<char>, key: KeyEvent) -> Seq<char> {
    match key.code {
        KeyCode::Backspace => if input.len() == 0 {
            input
        } else {
            input.drop_last()
        },
        KeyCode::Char(c) => input.push(c),
        _ => input,
    }
}

/// Whether `key` confirms a yes/no modal.
pub open spec fn confirms(key: KeyEvent) -> bool {
    key.code == KeyCode::Char('y') || key.code == KeyCode::Enter
}

/// Whether `next` (the modal left open, none when it closed) and `effect`
/// are what a key does to an open modal: a text modal stays open with its
/// field edited until Enter or Esc, and Enter runs its action on the
/// trimmed text when that is not empty; a confirmation runs its action on
/// `y` or Enter and closes on any key.
pub open spec fn modal_key_spec(modal: Modal, key: KeyEvent, next: Option<Modal>, effect: ModalEffect) -> bool {
    match modal.input_spec() {
        Some(input) => {
            let text = trim_spec(edited(input, key));
            let submit = key.code == KeyCode::Enter;
            let open = key.code != KeyCode::Enter && key.code != KeyCode::Esc;
            &&& open ==> next is Some && next->0.same_shape(&modal) && next->0.input_spec() == Some(
                edited(input, key),
            )
            &&& !open ==> next is None
            &&& !(submit && text.len() > 0) ==> effect is Nothing
            &&& submit && text.len() > 0 ==> match modal {
                Modal::NewWorkspacePath { .. } => effect matches ModalEffect::SpawnWorkspace { directory }
                    && directory@ == text,
                Modal::RenameSession { session_id, .. } => effect matches ModalEffect::RenameSession {
                    session_id: s,
                    name,
                } && s == session_id && name@ == text,
                Modal::NewFile { workspace_id, dir, .. } => effect matches ModalEffect::CreateFile {
                    workspace_id: w,
                    path,
                    parent,
                } && w == workspace_id && path@ == path_join(dir@, text) && parent@ == dir@,
                Modal::NewDir { workspace_id, dir, .. } => effect matches ModalEffect::CreateDir {
                    workspace_id: w,
                    path,
                    parent,
                } && w == workspace_id && path@ == path_join(dir@, text) && parent@ == dir@,
                Modal::RenamePath { workspace_id, from, .. } => effect matches ModalEffect::RenamePath {
                    workspace_id: w,
                    from: f,
                    to,
                    parent,
                } && w == workspace_id && f@ == from@ && parent@ == (match path_parent(from@) {
                    Some(p) => p,
                    None => from@,
                }) && to@ == path_join(parent@, text),
                _ => false,
            }
        },
        None => {
            &&& next is None
            &&& !confirms(key) ==> effect is Nothing
            &&& confirms(key) ==> match modal {
                Modal::ConfirmCloseSession { session_id } => effect
                    == ModalEffect::ConfirmCloseSession { session_id },
                Modal::ConfirmCloseWorkspace { workspace_id } => effect
                    == ModalEffect::ConfirmCloseWorkspace { workspace_id },
                Modal::ConfirmDeletePath { workspace_id, path, parent } => effect matches ModalEffect::DeletePath {
                    workspace_id: w,
                    path: p,
                    parent: q,
                } && w == workspace_id && p@ == path@ && q@ == parent@,
                _ => false,
            }
        },
    }
}

/// What a key does to an open modal: the modal left open afterwards (none
/// when it closed) and the effect to run.
///
/// A text modal stays open with its field edited until Enter or Esc; Enter
/// runs its action on the trimmed text when that is not empty. A
/// confirmation runs its action on `y` or Enter and closes on any key.
pub fn modal_key(modal: Modal, key: KeyEvent) -> (r: (Option<Modal>, ModalEffect))
    ensures
        modal_key_spec(modal, key, r.0, r.1),
{
    match modal {
        Modal::NewWorkspacePath { mut input } => match apply(&mut input, key) {
            TextInputAction::Submit => {
                proof {
                    lemma_trim_blank(input@);
                }
                if !is_blank(input.as_str()) {
                    let text = trim(input.as_str());
                    (None, ModalEffect::SpawnWorkspace { directory: text })
                } else {
                    (None, ModalEffect::Nothing)
                }
            },
            TextInputAction::Cancel => (None, ModalEffect::Nothing),
            TextInputAction::Continue => (Some(Modal::NewWorkspacePath { input }), ModalEffect::Nothing),
        },
        Modal::RenameSession { session_id, mut input } => match apply(&mut input, key) {
            TextInputAction::Submit => {
                proof {
                    lemma_trim_blank(input@);
                }
                if !is_blank(input.as_str()) {
                    let text = trim(input.as_str());
                    (None, ModalEffect::RenameSession { session_id, name: text })
                } else {
                    (None, ModalEffect::Nothing)
                }
            },
            TextInputAction::Cancel => (None, ModalEffect::Nothing),
            TextInputAction::Continue => (Some(Modal::RenameSession { session_id, input }), ModalEffect::Nothing),
        },
        Modal::NewFile { workspace_id, dir, mut input } => match apply(&mut input, key) {
            TextInputAction::Submit => {
                proof {
                    lemma_trim_blank(input@);
                }
                if !is_blank(input.as_str()) {
                    let text = trim(input.as_str());
                    let path = join_path(dir.as_str(), text.as_str());
                    (None, ModalEffect::CreateFile { workspace_id, path, parent: dir })
                } else {
                    (None, ModalEffect::Nothing)
                }
            },
            TextInputAction::Cancel => (None, ModalEffect::Nothing),
            TextInputAction::Continue => (Some(Modal::NewFile { workspace_id, dir, input }), ModalEffect::Nothing),
        },
        Modal::NewDir { workspace_id, dir, mut input } => match apply(&mut input, key) {
            TextInputAction::Submit => {
                proof {
                    lemma_trim_blank(input@);
                }
                if !is_blank(input.as_str()) {
                    let text = trim(input.as_str());
                    let path = join_path(dir.as_str(), text.as_str());
                    (None, ModalEffect::CreateDir { workspace_id, path, parent: dir })
                } else {
                    (None, ModalEffect::Nothing)
                }
            },
            TextInputAction::Cancel => (None, ModalEffect::Nothing),
            TextInputAction::Continue => (Some(Modal::NewDir { workspace_id, dir, input }), ModalEffect::Nothing),
        },
        Modal::RenamePath { workspace_id, from, mut input } => match apply(&mut input, key) {
            TextInputAction::Submit => {
                proof {
                    lemma_trim_blank(input@);
                }
                if !is_blank(input.as_str()) {
                    let text = trim(input.as_str());
                    let parent = match parent_path(from.as_str()) {
                        Some(p) => p,
                        None => from.clone(),
                    };
                    let to = join_path(parent.as_str(), text.as_str());
                    (None, ModalEffect::RenamePath { workspace_id, from, to, parent })
                } else {
                    (None, ModalEffect::Nothing)
                }
            },
            TextInputAction::Cancel => (None, ModalEffect::Nothing),
            TextInputAction::Continue => (Some(Modal::RenamePath { workspace_id, from, input }), ModalEffect::Nothing),
        },
        Modal::ConfirmCloseSession { session_id } => if key.code == KeyCode::Char('y') || key.code
            == KeyCode::Enter {
            (None, ModalEffect::ConfirmCloseSession { session_id })
        } else {
            (None, ModalEffect::Nothing)
        },
        Modal::ConfirmCloseWorkspace { workspace_id } => if key.code == KeyCode::Char('y') || key.code
            == KeyCode::Enter {
            (None, ModalEffect::ConfirmCloseWorkspace { workspace_id })
        } else {
            (None, ModalEffect::Nothing)
        },
        Modal::ConfirmDeletePath { workspace_id, path, parent } => if key.code == KeyCode::Char('y') || key.code
            == KeyCode::Enter {
            (None, ModalEffect::DeletePath { workspace_id, path, parent })
        } else {
            (None, ModalEffect::Nothing)
        },
    }
}

} // verus!
