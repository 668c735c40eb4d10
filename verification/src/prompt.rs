//! The menu on the console: the entries that the user can pick by number,
//! and what each key does to the number being typed.

use crate::predicate::{all_digits, digits_value, is_digit, is_digit_char, lemma_digits_value_grows};
use crate::text::{chars_of, push_char, same_text, string_of};
use vstd::prelude::*;

verus! {

/// A key, as far as the menu tells keys apart.
#[derive(Clone, Copy, Debug, PartialEq, Eq)]
pub enum Key {
    Backspace,
    /// A letter typed with the control key held.
    Ctrl(char),
    /// A character; the return key is the line feed.
    Char(char),
    /// Any other key.
    Other,
}

/// What is written to the terminal after a key.
#[derive(Clone, Copy, Debug, PartialEq, Eq)]
pub enum Echo {
    Nothing,
    /// Move one column to the left and clear what follows the cursor.
    EraseOne,
    /// Move the given number of columns to the left and clear what follows
    /// the cursor.
    EraseLine(u16),
    /// Print the character.
    Print(char),
}

/// Why the menu was left without a choice.
#[derive(Clone, Copy, Debug, PartialEq, Eq)]
pub enum PromptError {
    /// The user asked to leave.
    Exit,
    /// What was typed is too large to be a number.
    NotANumber,
    /// No entry has the number that was typed.
    NoSuchEntry,
    /// A character was typed that is no digit.
    NotNumeric,
}

/// What the menu does after a key.
#[derive(Clone, Copy, Debug, PartialEq, Eq)]
pub enum PromptStep {
    /// It goes on, after writing to the terminal.
    Continue(Echo),
    /// The entry at this index, counted from 0, was picked.
    Chosen(usize),
    /// It is left without a choice.
    Abort(PromptError),
}

/// What the menu knows, in mathematical form.
pub struct PromptModel {
    /// The digits typed so far.
    pub input: Seq<char>,
    /// Whether any key was pressed. Once set, it stays set.
    pub touched: bool,
}

/// Before the first key.
pub open spec fn untouched() -> PromptModel {
    PromptModel { input: Seq::empty(), touched: false }
}

/// The digits after a key.
pub open spec fn input_after(input: Seq<char>, key: Key) -> Seq<char> {
    match key {
        Key::Backspace => if input.len() > 0 {
            input.drop_last()
        } else {
            input
        },
        Key::Ctrl(c) => if c == 'u' {
            Seq::empty()
        } else {
            input
        },
        Key::Char(c) => if is_digit(c) {
            input.push(c)
        } else {
            input
        },
        Key::Other => input,
    }
}

/// What the return key does with the digits typed, in a menu of `entries`
/// entries that are numbered from 1.
pub open spec fn picked(input: Seq<char>, entries: usize) -> PromptStep {
    if input.len() == 0 {
        PromptStep::Abort(PromptError::Exit)
    } else if digits_value(input) > usize::MAX {
        PromptStep::Abort(PromptError::NotANumber)
    } else if 1 <= digits_value(input) <= entries {
        PromptStep::Chosen((digits_value(input) - 1) as usize)
    } else {
        PromptStep::Abort(PromptError::NoSuchEntry)
    }
}

/// What the menu does after a key.
pub open spec fn step_after(input: Seq<char>, key: Key, entries: usize) -> PromptStep {
    match key {
        Key::Backspace => PromptStep::Continue(Echo::EraseOne),
        Key::Ctrl(c) => if c == 'u' {
            PromptStep::Continue(Echo::EraseLine((input.len() % 65536) as u16))
        } else if c == 'c' || c == 'g' {
            PromptStep::Abort(PromptError::Exit)
        } else {
            PromptStep::Continue(Echo::Nothing)
        },
        Key::Char(c) => if c == '\n' {
            picked(input, entries)
        } else if is_digit(c) {
            PromptStep::Continue(Echo::Print(c))
        } else {
            PromptStep::Abort(PromptError::NotNumeric)
        },
        Key::Other => PromptStep::Continue(Echo::Nothing),
    }
}

/// The number that digits denote, if a `usize` holds it.
fn parse_index(digits: &str) -> (r: Option<usize>)
    requires
        all_digits(digits@),
    ensures
        match r {
            Some(n) => n == digits_value(digits@),
            None => digits_value(digits@) > usize::MAX,
        },
{
    let v = chars_of(digits);
    let mut acc: usize = 0;
    let mut i: usize = 0;
    proof {
        assert(v@.take(0) =~= Seq::<char>::empty());
    }
    while i < v.len()
        invariant
            i <= v.len(),
            v@ == digits@,
            all_digits(v@),
            acc == digits_value(v@.take(i as int)),
        decreases v.len() - i,
    {
        let c = v[i];
        assert(is_digit(v@[i as int]));
        let d: usize = (c as u32 - '0' as u32) as usize;
        proof {
            let t = v@.take(i + 1);
            assert(t.drop_last() =~= v@.take(i as int));
            assert(t.last() == c);
            lemma_digits_value_grows(v@, i + 1);
        }
        if acc > (usize::MAX - d) / 10 {
            return None;
        }
        acc = acc * 10 + d;
        i += 1;
    }
    proof {
        assert(v@.take(v.len() as int) =~= v@);
    }
    Some(acc)
}

/// The number being typed at the menu.
pub struct Prompt {
    user_input: String,
    has_user_interaction: bool,
}

impl View for Prompt {
    type V = PromptModel;

    closed spec fn view(&self) -> PromptModel {
        PromptModel { input: self.user_input@, touched: self.has_user_interaction }
    }
}

impl Prompt {
    #[verifier::type_invariant]
    spec fn well_formed(self) -> bool {
        all_digits(self.user_input@)
    }

    /// A menu at which nothing was typed yet.
    pub fn new() -> (r: Self)
        ensures
            r@ == untouched(),
    {
        Prompt { user_input: String::new(), has_user_interaction: false }
    }

    /// A key was pressed at a menu of `entries` entries.
    ///
    /// Digits are collected, the backspace key takes the last one away and
    /// control-U all of them. The return key picks the entry with the
    /// number typed; entries are numbered from 1. Control-C, control-G, the
    /// return key on an empty line and a character that is no digit leave
    /// the menu.
    pub fn on_key(&mut self, key: Key, entries: usize) -> (r: PromptStep)
        ensures
            r == step_after(old(self)@.input, key, entries),
            final(self)@.input == input_after(old(self)@.input, key),
            final(self)@.touched,
    {
        proof {
            use_type_invariant(&*self);
        }
        let v = chars_of(self.user_input.as_str());
        let n = v.len();
        let touched = Prompt { user_input: self.user_input.clone(), has_user_interaction: true };
        match key {
            Key::Backspace => {
                if n > 0 {
                    let shorter = string_of(&v, 0, n - 1);
                    proof {
                        assert(shorter@ =~= v@.drop_last());
                    }
                    *self = Prompt { user_input: shorter, has_user_interaction: true };
                } else {
                    *self = touched;
                }
                PromptStep::Continue(Echo::EraseOne)
            },
            Key::Ctrl(c) => {
                if c == 'u' {
                    *self = Prompt { user_input: String::new(), has_user_interaction: true };
                    PromptStep::Continue(Echo::EraseLine((n % 65536) as u16))
                } else if c == 'c' || c == 'g' {
                    *self = touched;
                    PromptStep::Abort(PromptError::Exit)
                } else {
                    *self = touched;
                    PromptStep::Continue(Echo::Nothing)
                }
            },
            Key::Char(c) => {
                if c == '\n' {
                    let step = if n == 0 {
                        PromptStep::Abort(PromptError::Exit)
                    } else {
                        match parse_index(self.user_input.as_str()) {
                            None => PromptStep::Abort(PromptError::NotANumber),
                            Some(number) => if 1 <= number && number <= entries {
                                PromptStep::Chosen(number - 1)
                            } else {
                                PromptStep::Abort(PromptError::NoSuchEntry)
                            },
                        }
                    };
                    *self = touched;
                    step
                } else if is_digit_char(c) {
                    let mut longer = self.user_input.clone();
                    push_char(&mut longer, c);
                    *self = Prompt { user_input: longer, has_user_interaction: true };
                    PromptStep::Continue(Echo::Print(c))
                } else {
                    *self = touched;
                    PromptStep::Abort(PromptError::NotNumeric)
                }
            },
            Key::Other => {
                *self = touched;
                PromptStep::Continue(Echo::Nothing)
            },
        }
    }

    /// Whether the menu gives way to the default entry: no key was pressed
    /// and the timeout has passed.
    pub fn on_tick(&self, elapsed: u64, timeout: u64) -> (timed_out: bool)
        ensures
            timed_out == (!self@.touched && elapsed >= timeout),
    {
        !self.has_user_interaction && elapsed >= timeout
    }
}

/// What is done for the entry that was picked.
#[derive(Clone, Copy, Debug, PartialEq, Eq)]
pub enum MenuAction {
    /// Leave for a shell.
    Shell,
    Poweroff,
    Reboot,
    /// Boot the entry of the boot loader with the id that was picked, or
    /// its default entry if none was picked.
    Boot,
}

/// What is done for the id of the entry that was picked; none is picked
/// when the timeout passes.
pub open spec fn action_of(id: Option<Seq<char>>) -> MenuAction {
    match id {
        Some(name) => if name == "shell"@ {
            MenuAction::Shell
        } else if name == "poweroff"@ {
            MenuAction::Poweroff
        } else if name == "reboot"@ {
            MenuAction::Reboot
        } else {
            MenuAction::Boot
        },
        None => MenuAction::Boot,
    }
}

/// Executable form of [`action_of`].
pub fn selected_action(id: Option<&str>) -> (r: MenuAction)
    ensures
        r == action_of(
            match id {
                Some(name) => Some(name@),
                None => None,
            },
        ),
{
    match id {
        None => MenuAction::Boot,
        Some(name) => if same_text(name, "shell") {
            MenuAction::Shell
        } else if same_text(name, "poweroff") {
            MenuAction::Poweroff
        } else if same_text(name, "reboot") {
            MenuAction::Reboot
        } else {
            MenuAction::Boot
        },
    }
}

/// The three entries that every menu ends with: reboot, power off and
/// leave for a shell, each with id and title.
pub open spec fn fixed_entries() -> Seq<(Seq<char>, Seq<char>)> {
    seq![
        ("reboot"@, "Reboot"@),
        ("poweroff"@, "Poweroff"@),
        ("shell"@, "Exit to shell"@),
    ]
}

/// The menu that is shown: the boot entries, followed by the three fixed
/// entries.
pub fn with_fixed_entries(entries: Vec<(String, String)>) -> (menu: Vec<(String, String)>)
    ensures
        menu.deep_view() == entries.deep_view() + fixed_entries(),
{
    let mut menu = entries;
    let ghost boot = menu.deep_view();
    menu.push(("reboot".to_string(), "Reboot".to_string()));
    menu.push(("poweroff".to_string(), "Poweroff".to_string()));
    menu.push(("shell".to_string(), "Exit to shell".to_string()));
    proof {
        assert(menu.deep_view() =~= boot + fixed_entries());
    }
    menu
}

} // verus!
