use vstd::prelude::*;

use crate::input::{Event, KeyCode, KeyEvent, KeyEventKind};

verus! {

/// What one event pulled off the input stream does to a paste burst.
#[derive(Clone, Copy, Debug, PartialEq, Eq, Structural)]
pub enum DrainStep {
    /// Paste-shaped text: this char joins the burst.
    Text(char),
    /// A key release: skipped without ending the burst.
    Ignore,
    /// Anything else: ends the burst and is kept for the caller.
    Boundary,
}

/// The char `key` contributes to a paste burst: a plain (or only Shift'd)
/// char, Enter as `\n`, Tab as `\t`; `None` for anything else.
pub open spec fn text_char_spec(key: KeyEvent) -> Option<char> {
    let m = key.modifiers;
    if m.control || m.alt || m.super_key || m.hyper || m.meta {
        None
    } else {
        match key.code {
            KeyCode::Char(c) => Some(c),
            KeyCode::Enter => Some('\n'),
            KeyCode::Tab => Some('\t'),
            _ => None,
        }
    }
}

pub fn text_char(key: &KeyEvent) -> (r: Option<char>)
    ensures
        r == text_char_spec(*key),
{
    let m = key.modifiers;
    if m.control || m.alt || m.super_key || m.hyper || m.meta {
        return None;
    }
    match key.code {
        KeyCode::Char(c) => Some(c),
        KeyCode::Enter => Some('\n'),
        KeyCode::Tab => Some('\t'),
        _ => None,
    }
}

pub open spec fn classify_spec(event: Event) -> DrainStep {
    match event {
        Event::Key(key) => if key.kind == KeyEventKind::Release {
            DrainStep::Ignore
        } else {
            match text_char_spec(key) {
                Some(c) => DrainStep::Text(c),
                None => DrainStep::Boundary,
            }
        },
        _ => DrainStep::Boundary,
    }
}

/// Sorts one queued event into burst text, a skipped release, or a boundary.
pub fn classify(event: &Event) -> (r: DrainStep)
    ensures
        r == classify_spec(*event),
{
    match event {
        Event::Key(key) => {
            if key.kind == KeyEventKind::Release {
                return DrainStep::Ignore;
            }
            match text_char(key) {
                Some(c) => DrainStep::Text(c),
                None => DrainStep::Boundary,
            }
        },
        _ => DrainStep::Boundary,
    }
}

/// Whether `key` could start a paste burst, and with which char.
pub fn seed_char(key: &KeyEvent) -> (r: Option<char>)
    ensures
        r == text_char_spec(*key),
{
    text_char(key)
}

} // verus!
