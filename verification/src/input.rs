use vstd::prelude::*;

use crate::app::Command;

verus! {

/// The key that was struck, as far as the application tells keys apart.
#[derive(Debug, Clone, Copy, PartialEq, Eq, Structural)]
pub enum KeyCode {
    Char(char),
    Left,
    Right,
    Up,
    Down,
    Enter,
    Esc,
    Backspace,
    Tab,
    Other,
}

/// Whether the key went down, repeats, or went up.
#[derive(Debug, Clone, Copy, PartialEq, Eq, Structural)]
pub enum KeyEventKind {
    Press,
    Repeat,
    Release,
}

/// A key event from the terminal.
#[derive(Debug, Clone, Copy, PartialEq, Eq, Structural)]
pub struct KeyEvent {
    pub code: KeyCode,
    pub kind: KeyEventKind,
}

/// The command of a key while the board takes commands.
pub open spec fn normal_key_command(code: KeyCode) -> Command {
    match code {
        KeyCode::Char('q') | KeyCode::Char('Q') => Command::Quit,
        KeyCode::Left => Command::MoveLeft,
        KeyCode::Right => Command::MoveRight,
        KeyCode::Up => Command::MoveUp,
        KeyCode::Down => Command::MoveDown,
        KeyCode::Char('a') | KeyCode::Char('A') => Command::AddCard,
        KeyCode::Char('e') | KeyCode::Char('E') => Command::StartEditCard,
        KeyCode::Char('m') | KeyCode::Char('M') => Command::MoveCardForward,
        KeyCode::Char('d') | KeyCode::Char('D') => Command::DeleteCard,
        KeyCode::Char('p') | KeyCode::Char('P') => Command::CycleSelectedPriority,
        KeyCode::Char('h') | KeyCode::Char('H') => Command::ToggleHelp,
        _ => Command::NoOp,
    }
}

/// The command of a key while a form takes input.
pub open spec fn input_key_command(code: KeyCode) -> Command {
    match code {
        KeyCode::Esc => Command::CancelInput,
        KeyCode::Enter => Command::ConfirmInput,
        KeyCode::Backspace => Command::BackspaceInput,
        KeyCode::Tab => Command::CyclePriority,
        KeyCode::Left => Command::MoveLeft,
        KeyCode::Right => Command::MoveRight,
        KeyCode::Char('p') | KeyCode::Char('P') => Command::CyclePriority,
        KeyCode::Char(c) => Command::InputChar(c),
        _ => Command::NoOp,
    }
}

/// The command of a key event: only presses count.
pub open spec fn key_command(key: KeyEvent, is_input_mode: bool) -> Command {
    if key.kind != KeyEventKind::Press {
        Command::NoOp
    } else if is_input_mode {
        input_key_command(key.code)
    } else {
        normal_key_command(key.code)
    }
}

/// The command that a key event asks for.
pub fn map_key_to_command(key: KeyEvent, is_input_mode: bool) -> (r: Command)
    ensures
        r == key_command(key, is_input_mode),
{
    if key.kind != KeyEventKind::Press {
        return Command::NoOp;
    }
    if is_input_mode {
        return map_input_mode_key(key.code);
    }
    match key.code {
        KeyCode::Char('q') | KeyCode::Char('Q') => Command::Quit,
        KeyCode::Left => Command::MoveLeft,
        KeyCode::Right => Command::MoveRight,
        KeyCode::Up => Command::MoveUp,
        KeyCode::Down => Command::MoveDown,
        KeyCode::Char('a') | KeyCode::Char('A') => Command::AddCard,
        KeyCode::Char('e') | KeyCode::Char('E') => Command::StartEditCard,
        KeyCode::Char('m') | KeyCode::Char('M') => Command::MoveCardForward,
        KeyCode::Char('d') | KeyCode::Char('D') => Command::DeleteCard,
        KeyCode::Char('p') | KeyCode::Char('P') => Command::CycleSelectedPriority,
        KeyCode::Char('h') | KeyCode::Char('H') => Command::ToggleHelp,
        _ => Command::NoOp,
    }
}

fn map_input_mode_key(code: KeyCode) -> (r: Command)
    ensures
        r == input_key_command(code),
{
    match code {
        KeyCode::Esc => Command::CancelInput,
        KeyCode::Enter => Command::ConfirmInput,
        KeyCode::Backspace => Command::BackspaceInput,
        KeyCode::Tab => Command::CyclePriority,
        KeyCode::Left => Command::MoveLeft,
        KeyCode::Right => Command::MoveRight,
        KeyCode::Char('p') | KeyCode::Char('P') => Command::CyclePriority,
        KeyCode::Char(c) => Command::InputChar(c),
        _ => Command::NoOp,
    }
}

} // verus!
