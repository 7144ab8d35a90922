//! The REPL's meta-commands and the timing of its error banner.
use vstd::prelude::*;
use vstd::string::StrSliceExecFns;
use crate::popup::Key;
use crate::widgets::{TextEntry, TextEntryView};

verus! {

/// A meta-command typed after `:`.
#[derive(Debug, Clone, Copy, PartialEq, Eq, Structural)]
pub enum ReplCommand {
    /// `quit` or `q`.
    Quit,
    /// `quit!` or `q!`.
    ForceQuit,
    /// Anything else.
    Unknown,
}

/// The characters of `s` before its first space.
pub open spec fn first_word(s: Seq<char>) -> Seq<char>
    decreases s.len(),
{
    if s.len() == 0 {
        s
    } else if s[0] == ' ' {
        Seq::empty()
    } else {
        seq![s[0]] + first_word(s.drop_first())
    }
}

/// The command that a line names by its first word.
pub open spec fn command_of(line: Seq<char>) -> ReplCommand {
    let w = first_word(line);
    if w == seq!['q', 'u', 'i', 't'] || w == seq!['q'] {
        ReplCommand::Quit
    } else if w == seq!['q', 'u', 'i', 't', '!'] || w == seq!['q', '!'] {
        ReplCommand::ForceQuit
    } else {
        ReplCommand::Unknown
    }
}

proof fn lemma_first_word(s: Seq<char>, i: int)
    requires
        0 <= i <= s.len(),
        forall|k: int| 0 <= k < i ==> s[k] != ' ',
        i == s.len() || s[i] == ' ',
    ensures
        first_word(s) == s.subrange(0, i),
    decreases s.len(),
{
    if s.len() > 0 && i > 0 {
        lemma_first_word(s.drop_first(), i - 1);
        assert(s.subrange(0, i) =~= seq![s[0]] + s.drop_first().subrange(0, i - 1));
    } else {
        assert(s.subrange(0, i) =~= Seq::<char>::empty());
    }
}

fn same_chars(a: &Vec<char>, b: &Vec<char>) -> (r: bool)
    ensures
        r == (a@ == b@),
{
    if a.len() != b.len() {
        return false;
    }
    let mut i: usize = 0;
    while i < a.len()
        invariant
            a@.len() == b@.len(),
            i <= a@.len(),
            forall|k: int| 0 <= k < i ==> a@[k] == b@[k],
        decreases a@.len() - i,
    {
        if a[i] != b[i] {
            return false;
        }
        i += 1;
    }
    assert(a@ =~= b@);
    true
}

/// Reads the command named by the first word of `line`.
pub fn parse_command(line: &str) -> (r: ReplCommand)
    ensures
        r == command_of(line@),
{
    let n = line.unicode_len();
    let mut word: Vec<char> = Vec::new();
    let mut i: usize = 0;
    while i < n && line.get_char(i) != ' '
        invariant
            n == line@.len(),
            i <= n,
            word@ == line@.subrange(0, i as int),
            forall|k: int| 0 <= k < i ==> line@[k] != ' ',
        decreases n - i,
    {
        word.push(line.get_char(i));
        i += 1;
        assert(word@ =~= line@.subrange(0, i as int));
    }
    proof {
        lemma_first_word(line@, i as int);
    }
    let quit = vec!['q', 'u', 'i', 't'];
    let q = vec!['q'];
    let force_quit = vec!['q', 'u', 'i', 't', '!'];
    let force_q = vec!['q', '!'];
    assert(quit@ =~= seq!['q', 'u', 'i', 't']);
    assert(q@ =~= seq!['q']);
    assert(force_quit@ =~= seq!['q', 'u', 'i', 't', '!']);
    assert(force_q@ =~= seq!['q', '!']);
    if same_chars(&word, &quit) || same_chars(&word, &q) {
        ReplCommand::Quit
    } else if same_chars(&word, &force_quit) || same_chars(&word, &force_q) {
        ReplCommand::ForceQuit
    } else {
        ReplCommand::Unknown
    }
}

/// The frame counter of an error banner after one more frame: the banner
/// goes once it has been shown for `display_time * refresh_rate` frames
/// (or the counter can count no further).
pub fn tick_error_timer(frames: Option<u32>, display_time: u32, refresh_rate: u32) -> (r: Option<
    u32,
>)
    ensures
        r == match frames {
            None => None,
            Some(f) => if f as int >= display_time as int * refresh_rate as int || f == u32::MAX {
                None
            } else {
                Some((f + 1) as u32)
            },
        },
{
    match frames {
        None => None,
        Some(f) => {
            assert(display_time as int * refresh_rate as int <= u32::MAX as int * u32::MAX as int)
                by (nonlinear_arith)
                requires
                    display_time <= u32::MAX,
                    refresh_rate <= u32::MAX,
            ;
            let limit: u64 = display_time as u64 * refresh_rate as u64;
            if f as u64 >= limit || f == u32::MAX {
                None
            } else {
                Some(f + 1)
            }
        },
    }
}

/// What the REPL does after a key typed into the command bar.
#[derive(Debug, Clone, Copy, PartialEq, Eq, Structural)]
pub enum CommandBarAction {
    /// Keep the bar open.
    Stay,
    /// Close the bar and run the command it holds.
    Submit,
    /// Close the bar without running anything.
    Cancel,
}

/// The command bar after a key: typing and cursor keys edit it; Enter and
/// Esc move its cursor to the start.
pub open spec fn command_bar_effect(v: TextEntryView, key: Key) -> TextEntryView {
    match key {
        Key::Char(c) => v.inserted(c),
        Key::Backspace => v.removed(),
        Key::Left => v.moved_left(),
        Key::Right => v.moved_right(),
        Key::Enter | Key::Esc => TextEntryView { cursor: 0, ..v },
        _ => v,
    }
}

pub open spec fn command_bar_action(key: Key) -> CommandBarAction {
    match key {
        Key::Enter => CommandBarAction::Submit,
        Key::Esc => CommandBarAction::Cancel,
        _ => CommandBarAction::Stay,
    }
}

/// Applies a key typed while the command bar is open.
pub fn command_bar_key(field: &mut TextEntry, key: Key) -> (r: CommandBarAction)
    requires
        old(field)@.text.len() < usize::MAX,
    ensures
        final(field)@ == command_bar_effect(old(field)@, key),
        r == command_bar_action(key),
{
    match key {
        Key::Char(c) => {
            field.insert(c);
            CommandBarAction::Stay
        },
        Key::Backspace => {
            field.remove();
            CommandBarAction::Stay
        },
        Key::Enter => {
            field.move_cursor_home();
            CommandBarAction::Submit
        },
        Key::Esc => {
            field.move_cursor_home();
            CommandBarAction::Cancel
        },
        Key::Left => {
            field.move_cursor_left();
            CommandBarAction::Stay
        },
        Key::Right => {
            field.move_cursor_right();
            CommandBarAction::Stay
        },
        _ => CommandBarAction::Stay,
    }
}

} // verus!
