use vstd::prelude::*;

use crate::input::{KeyCode, KeyEvent};
use crate::text::{string_pop, string_push};

verus! {

/// What a modal's caller should do after a key went through `apply`.
#[derive(Clone, Copy, Debug, PartialEq, Eq, Structural)]
pub enum TextInputAction {
    Continue,
    Submit,
    Cancel,
}

/// Neither a line feed nor a carriage return.
pub open spec fn not_line_break(c: char) -> bool {
    c != '\n' && c != '\r'
}

/// A pasted text as a single-line field takes it: every line break dropped.
pub open spec fn single_line(text: Seq<char>) -> Seq<char> {
    text.filter(|c: char| not_line_break(c))
}

/// Appends a paste to a single-line input, dropping every line break.
pub fn apply_paste(input: &mut String, text: &str)
    ensures
        final(input)@ == old(input)@ + single_line(text@),
{
    broadcast use Seq::lemma_filter_push;

    let ghost start = input@;
    let ghost pred = |c: char| not_line_break(c);
    assert(text@.take(0).filter(pred) == Seq::<char>::empty()) by {
        reveal_with_fuel(Seq::filter, 1);
    }
    for c in it: text.chars()
        invariant
            it.seq() == text@,
            pred == (|c: char| not_line_break(c)),
            input@ == start + it.seq().take(it.index() as int).filter(pred),
    {
        let ghost i = it.index() as int;
        assert(text@.take(i + 1) == text@.take(i).push(c));
        proof {
            text@.take(i).lemma_filter_push(c, pred);
        }
        if c != '\n' && c != '\r' {
            string_push(input, c);
            assert(input@ =~= start + text@.take(i).filter(pred).push(c));
        }
    }
    assert(text@.take(text@.len() as int) == text@);
}

/// The shared text-editing keymap of every modal input: Enter submits, Esc
/// cancels, Backspace deletes the last char, a char key appends it, anything
/// else is ignored.
pub fn apply(input: &mut String, key: KeyEvent) -> (r: TextInputAction)
    ensures
        r == match key.code {
            KeyCode::Enter => TextInputAction::Submit,
            KeyCode::Esc => TextInputAction::Cancel,
            _ => TextInputAction::Continue,
        },
        final(input)@ == match key.code {
            KeyCode::Backspace => if old(input)@.len() == 0 {
                old(input)@
            } else {
                old(input)@.drop_last()
            },
            KeyCode::Char(c) => old(input)@.push(c),
            _ => old(input)@,
        },
{
    match key.code {
        KeyCode::Enter => TextInputAction::Submit,
        KeyCode::Esc => TextInputAction::Cancel,
        KeyCode::Backspace => {
            string_pop(input);
            TextInputAction::Continue
        },
        KeyCode::Char(c) => {
            string_push(input, c);
            TextInputAction::Continue
        },
        _ => TextInputAction::Continue,
    }
}

} // verus!
