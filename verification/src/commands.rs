//! The commands that keys can be bound to. Each command names an editor
//! action; running an action touches the terminal, so execution lives with
//! the embedding application, while the identities and the static list live
//! here for the keymap to bind.
use vstd::prelude::*;

verus! {

/// A command that a key sequence can be mapped to.
#[derive(Debug, Clone, Copy, PartialEq, Eq, Structural)]
pub enum MappableCommand {
    MoveCursorLeft,
    MoveCursorRight,
    MoveCursorDown,
    MoveCursorUp,
    GotoLine,
    GotoWordEnd,
    GotoFileStart,
    CommandMode,
    SelectMode,
    SearchInCurrentFile,
    SearchGlobally,
    ResetTerminalAndExit,
}

/// The name of a command, as keymap configuration writes it.
pub open spec fn spec_command_name(c: MappableCommand) -> Seq<char> {
    match c {
        MappableCommand::MoveCursorLeft => "move_cursor_left"@,
        MappableCommand::MoveCursorRight => "move_cursor_right"@,
        MappableCommand::MoveCursorDown => "move_cursor_down"@,
        MappableCommand::MoveCursorUp => "move_cursor_up"@,
        MappableCommand::GotoLine => "goto_line"@,
        MappableCommand::GotoWordEnd => "goto_word_end"@,
        MappableCommand::GotoFileStart => "goto_file_start"@,
        MappableCommand::CommandMode => "command_mode"@,
        MappableCommand::SelectMode => "select_mode"@,
        MappableCommand::SearchInCurrentFile => "search_in_current_file"@,
        MappableCommand::SearchGlobally => "search_globally"@,
        MappableCommand::ResetTerminalAndExit => "reset_terminal_and_exit"@,
    }
}

/// The one-line description of a command.
pub open spec fn spec_command_doc(c: MappableCommand) -> Seq<char> {
    match c {
        MappableCommand::MoveCursorLeft => "Move left"@,
        MappableCommand::MoveCursorRight => "Move right"@,
        MappableCommand::MoveCursorDown => "Move down"@,
        MappableCommand::MoveCursorUp => "Move up"@,
        MappableCommand::GotoLine => "Goto line"@,
        MappableCommand::GotoWordEnd => "Goto word end"@,
        MappableCommand::GotoFileStart => "Goto file start"@,
        MappableCommand::CommandMode => "Enter command mode"@,
        MappableCommand::SelectMode => "Select mode"@,
        MappableCommand::SearchInCurrentFile => "Search in current file"@,
        MappableCommand::SearchGlobally => "Search globally"@,
        MappableCommand::ResetTerminalAndExit => "Reset terminal and exit"@,
    }
}

impl MappableCommand {
    /// The command's name.
    pub fn name(&self) -> (r: String)
        ensures
            r@ == spec_command_name(*self),
    {
        match *self {
            MappableCommand::MoveCursorLeft => String::from_str("move_cursor_left"),
            MappableCommand::MoveCursorRight => String::from_str("move_cursor_right"),
            MappableCommand::MoveCursorDown => String::from_str("move_cursor_down"),
            MappableCommand::MoveCursorUp => String::from_str("move_cursor_up"),
            MappableCommand::GotoLine => String::from_str("goto_line"),
            MappableCommand::GotoWordEnd => String::from_str("goto_word_end"),
            MappableCommand::GotoFileStart => String::from_str("goto_file_start"),
            MappableCommand::CommandMode => String::from_str("command_mode"),
            MappableCommand::SelectMode => String::from_str("select_mode"),
            MappableCommand::SearchInCurrentFile => String::from_str("search_in_current_file"),
            MappableCommand::SearchGlobally => String::from_str("search_globally"),
            MappableCommand::ResetTerminalAndExit => String::from_str("reset_terminal_and_exit"),
        }
    }

    /// A one-line description of the command.
    pub fn doc(&self) -> (r: String)
        ensures
            r@ == spec_command_doc(*self),
    {
        match *self {
            MappableCommand::MoveCursorLeft => String::from_str("Move left"),
            MappableCommand::MoveCursorRight => String::from_str("Move right"),
            MappableCommand::MoveCursorDown => String::from_str("Move down"),
            MappableCommand::MoveCursorUp => String::from_str("Move up"),
            MappableCommand::GotoLine => String::from_str("Goto line"),
            MappableCommand::GotoWordEnd => String::from_str("Goto word end"),
            MappableCommand::GotoFileStart => String::from_str("Goto file start"),
            MappableCommand::CommandMode => String::from_str("Enter command mode"),
            MappableCommand::SelectMode => String::from_str("Select mode"),
            MappableCommand::SearchInCurrentFile => String::from_str("Search in current file"),
            MappableCommand::SearchGlobally => String::from_str("Search globally"),
            MappableCommand::ResetTerminalAndExit => String::from_str("Reset terminal and exit"),
        }
    }

    /// Every static command, in declaration order.
    pub fn static_command_list() -> (r: Vec<MappableCommand>)
        ensures
            r@ == seq![
                MappableCommand::MoveCursorLeft,
                MappableCommand::MoveCursorRight,
                MappableCommand::MoveCursorDown,
                MappableCommand::MoveCursorUp,
                MappableCommand::GotoLine,
                MappableCommand::GotoWordEnd,
                MappableCommand::GotoFileStart,
                MappableCommand::CommandMode,
                MappableCommand::SelectMode,
                MappableCommand::SearchInCurrentFile,
                MappableCommand::SearchGlobally,
                MappableCommand::ResetTerminalAndExit,
            ],
    {
        let mut r: Vec<MappableCommand> = Vec::new();
        r.push(MappableCommand::MoveCursorLeft);
        r.push(MappableCommand::MoveCursorRight);
        r.push(MappableCommand::MoveCursorDown);
        r.push(MappableCommand::MoveCursorUp);
        r.push(MappableCommand::GotoLine);
        r.push(MappableCommand::GotoWordEnd);
        r.push(MappableCommand::GotoFileStart);
        r.push(MappableCommand::CommandMode);
        r.push(MappableCommand::SelectMode);
        r.push(MappableCommand::SearchInCurrentFile);
        r.push(MappableCommand::SearchGlobally);
        r.push(MappableCommand::ResetTerminalAndExit);
        proof {
            assert(r@ =~= seq![
                MappableCommand::MoveCursorLeft,
                MappableCommand::MoveCursorRight,
                MappableCommand::MoveCursorDown,
                MappableCommand::MoveCursorUp,
                MappableCommand::GotoLine,
                MappableCommand::GotoWordEnd,
                MappableCommand::GotoFileStart,
                MappableCommand::CommandMode,
                MappableCommand::SelectMode,
                MappableCommand::SearchInCurrentFile,
                MappableCommand::SearchGlobally,
                MappableCommand::ResetTerminalAndExit,
            ]);
        }
        r
    }
}

} // verus!
