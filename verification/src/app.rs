use vstd::prelude::*;

use crate::model::{
    index_of_id, lemma_max_id_bounds, max_id, sample_board, spec_column_at_index,
    spec_column_index, spec_next_priority, Board, BoardView, Card, Priority,
};
use crate::text::{
    is_blank, is_blank_spec, owned, pop_char, push_char, push_str, trim_spec, trim_text,
};

verus! {

/// What the user asked for.
#[derive(Debug, Clone, Copy, PartialEq, Eq, Structural)]
pub enum Command {
    Quit,
    ToggleHelp,
    MoveLeft,
    MoveRight,
    MoveUp,
    MoveDown,
    AddCard,
    StartEditCard,
    MoveCardForward,
    DeleteCard,
    CycleSelectedPriority,
    InputChar(char),
    BackspaceInput,
    ConfirmInput,
    CancelInput,
    CyclePriority,
    NoOp,
}

/// The field of the new-card form that takes input.
#[derive(Debug, Clone, Copy, PartialEq, Eq, Structural)]
pub enum AddCardStep {
    Title,
    Description,
    Priority,
}

/// The field of the edit form that takes input.
#[derive(Debug, Clone, Copy, PartialEq, Eq, Structural)]
pub enum EditCardStep {
    Title,
    Description,
    Priority,
}

/// The new-card form.
#[derive(Debug, Clone, PartialEq, Eq)]
pub struct AddCardDraft {
    pub title: String,
    pub description: String,
    pub priority: Priority,
    pub step: AddCardStep,
}

/// The edit form of an existing card.
#[derive(Debug, Clone, PartialEq, Eq)]
pub struct EditCardDraft {
    pub card_id: u64,
    pub title: String,
    pub description: String,
    pub priority: Priority,
    pub step: EditCardStep,
}

/// Whether the board takes commands or a form takes input.
#[derive(Debug, Clone, PartialEq, Eq)]
pub enum AppMode {
    Normal,
    AddCard(AddCardDraft),
    EditCard(EditCardDraft),
}

/// The whole state of the application.
#[derive(Debug, Clone)]
pub struct App {
    pub board: Board,
    pub should_quit: bool,
    pub mode: AppMode,
    pub show_help: bool,
    pub status_message: String,
}

// ---------------------------------------------------------------------------
// Mathematical model
// ---------------------------------------------------------------------------

/// The new-card form as plain values.
#[verifier::ext_equal]
pub struct AddDraftView {
    pub title: Seq<char>,
    pub description: Seq<char>,
    pub priority: Priority,
    pub step: AddCardStep,
}

/// The edit form as plain values.
#[verifier::ext_equal]
pub struct EditDraftView {
    pub card_id: u64,
    pub title: Seq<char>,
    pub description: Seq<char>,
    pub priority: Priority,
    pub step: EditCardStep,
}

/// The mode as plain values.
#[verifier::ext_equal]
pub enum ModeView {
    Normal,
    AddCard(AddDraftView),
    EditCard(EditDraftView),
}

/// The application state as plain values.
#[verifier::ext_equal]
pub struct AppView {
    pub board: BoardView,
    pub should_quit: bool,
    pub mode: ModeView,
    pub show_help: bool,
    pub status: Seq<char>,
}

impl View for AddCardDraft {
    type V = AddDraftView;

    open spec fn view(&self) -> AddDraftView {
        AddDraftView {
            title: self.title@,
            description: self.description@,
            priority: self.priority,
            step: self.step,
        }
    }
}

impl View for EditCardDraft {
    type V = EditDraftView;

    open spec fn view(&self) -> EditDraftView {
        EditDraftView {
            card_id: self.card_id,
            title: self.title@,
            description: self.description@,
            priority: self.priority,
            step: self.step,
        }
    }
}

impl View for AppMode {
    type V = ModeView;

    open spec fn view(&self) -> ModeView {
        match self {
            AppMode::Normal => ModeView::Normal,
            AppMode::AddCard(d) => ModeView::AddCard(d@),
            AppMode::EditCard(d) => ModeView::EditCard(d@),
        }
    }
}

impl View for App {
    type V = AppView;

    open spec fn view(&self) -> AppView {
        AppView {
            board: self.board@,
            should_quit: self.should_quit,
            mode: self.mode@,
            show_help: self.show_help,
            status: self.status_message@,
        }
    }
}

/// A fresh new-card form: empty text, medium priority, on the title.
pub open spec fn empty_add_draft() -> AddDraftView {
    AddDraftView {
        title: Seq::empty(),
        description: Seq::empty(),
        priority: Priority::Medium,
        step: AddCardStep::Title,
    }
}

/// The text with its last character removed, if it has one.
pub open spec fn popped(s: Seq<char>) -> Seq<char> {
    if s.len() == 0 {
        s
    } else {
        s.drop_last()
    }
}

/// The label of a mode.
pub open spec fn mode_label(mode: ModeView) -> Seq<char> {
    match mode {
        ModeView::Normal => "Normal"@,
        ModeView::AddCard(_) => "Add Card"@,
        ModeView::EditCard(_) => "Edit Card"@,
    }
}

/// The board with the selection one column to the left, if there is one,
/// and pulled back into that column.
pub open spec fn selection_left(b: BoardView) -> BoardView {
    let i = spec_column_index(b.selected_column);
    let moved = if i > 0 {
        BoardView { selected_column: spec_column_at_index((i - 1) as nat), ..b }
    } else {
        b
    };
    moved.clamped()
}

/// The board with the selection one column to the right, if there is one,
/// and pulled back into that column.
pub open spec fn selection_right(b: BoardView) -> BoardView {
    let i = spec_column_index(b.selected_column);
    let moved = if i < 2 {
        BoardView { selected_column: spec_column_at_index(i + 1), ..b }
    } else {
        b
    };
    moved.clamped()
}

/// The board with the selection one card up, if it is not on the first,
/// and pulled back into the column.
pub open spec fn selection_up(b: BoardView) -> BoardView {
    let moved = if b.selected_index > 0 {
        BoardView { selected_index: (b.selected_index - 1) as nat, ..b }
    } else {
        b
    };
    moved.clamped()
}

/// The board with the selection one card down, if a card follows, and
/// pulled back into the column.
pub open spec fn selection_down(b: BoardView) -> BoardView {
    let moved = if b.selected_index + 1 < b.selected_cards().len() {
        BoardView { selected_index: b.selected_index + 1, ..b }
    } else {
        b
    };
    moved.clamped()
}

impl AppView {
    pub open spec fn with_status(self, status: Seq<char>) -> AppView {
        AppView { status, ..self }
    }

    pub open spec fn with_mode(self, mode: ModeView) -> AppView {
        AppView { mode, ..self }
    }

    pub open spec fn with_board(self, board: BoardView) -> AppView {
        AppView { board, ..self }
    }

    /// A form takes input.
    pub open spec fn is_input_mode(self) -> bool {
        !(self.mode is Normal)
    }

    /// The inputs on which a command would overflow: moving down from the
    /// largest position, or creating a card when the largest id is taken.
    pub open spec fn command_overflows(self, command: Command) -> bool {
        match self.mode {
            ModeView::Normal => command == Command::MoveDown && self.board.selected_index >= usize::MAX,
            ModeView::AddCard(d) => command == Command::ConfirmInput && d.step == AddCardStep::Priority
                && max_id(self.board.cards) >= u64::MAX,
            ModeView::EditCard(_) => false,
        }
    }

    /// The state after `command`, and whether the board changed in a way
    /// that is worth saving.
    pub open spec fn step(self, command: Command) -> (AppView, bool) {
        match self.mode {
            ModeView::Normal => self.normal_step(command),
            ModeView::AddCard(d) => self.add_step(d, command),
            ModeView::EditCard(d) => self.edit_step(d, command),
        }
    }

    /// A command while the board takes commands.
    pub open spec fn normal_step(self, command: Command) -> (AppView, bool) {
        match command {
            Command::Quit => (AppView { should_quit: true, ..self }, false),
            Command::ToggleHelp => (AppView { show_help: !self.show_help, ..self }, false),
            Command::MoveLeft => (self.with_board(selection_left(self.board)), false),
            Command::MoveRight => (self.with_board(selection_right(self.board)), false),
            Command::MoveUp => (self.with_board(selection_up(self.board)), false),
            Command::MoveDown => (self.with_board(selection_down(self.board)), false),
            Command::AddCard => (
                self.with_mode(ModeView::AddCard(empty_add_draft())).with_status("Add card mode"@),
                false,
            ),
            Command::StartEditCard => match self.board.selected_card() {
                Some(c) => (
                    self.with_mode(
                        ModeView::EditCard(
                            EditDraftView {
                                card_id: c.id,
                                title: c.title,
                                description: c.description,
                                priority: c.priority,
                                step: EditCardStep::Title,
                            },
                        ),
                    ).with_status("Edit card mode"@),
                    false,
                ),
                None => (self.with_status("No card selected"@), false),
            },
            Command::MoveCardForward => match self.board.selected_card() {
                Some(_) => (
                    self.with_board(self.board.after_move_forward()).with_status("Card moved"@),
                    true,
                ),
                None => (self.with_status("No card selected"@), false),
            },
            Command::DeleteCard => match self.board.selected_card() {
                Some(_) => (
                    self.with_board(self.board.after_delete()).with_status("Card deleted"@),
                    true,
                ),
                None => (self.with_status("No card selected"@), false),
            },
            Command::CycleSelectedPriority => match self.board.selected_card() {
                Some(_) => (
                    self.with_board(self.board.after_cycle_priority()).with_status("Priority changed"@),
                    true,
                ),
                None => (self.with_status("No card selected"@), false),
            },
            _ => (self, false),
        }
    }

    /// A command while the new-card form `d` takes input.
    pub open spec fn add_step(self, d: AddDraftView, command: Command) -> (AppView, bool) {
        match command {
            Command::CancelInput | Command::Quit => (
                self.with_mode(ModeView::Normal).with_status("Card creation cancelled"@),
                false,
            ),
            Command::InputChar(c) => (
                self.with_mode(
                    ModeView::AddCard(
                        match d.step {
                            AddCardStep::Title => AddDraftView { title: d.title.push(c), ..d },
                            AddCardStep::Description => AddDraftView {
                                description: d.description.push(c),
                                ..d
                            },
                            AddCardStep::Priority => d,
                        },
                    ),
                ),
                false,
            ),
            Command::BackspaceInput => (
                self.with_mode(
                    ModeView::AddCard(
                        match d.step {
                            AddCardStep::Title => AddDraftView { title: popped(d.title), ..d },
                            AddCardStep::Description => AddDraftView {
                                description: popped(d.description),
                                ..d
                            },
                            AddCardStep::Priority => d,
                        },
                    ),
                ),
                false,
            ),
            Command::CyclePriority | Command::MoveLeft | Command::MoveRight => (
                self.with_mode(
                    ModeView::AddCard(
                        if d.step == AddCardStep::Priority {
                            AddDraftView { priority: spec_next_priority(d.priority), ..d }
                        } else {
                            d
                        },
                    ),
                ),
                false,
            ),
            Command::ConfirmInput => match d.step {
                AddCardStep::Title => if is_blank_spec(d.title) {
                    (self.with_status("Title is required"@), false)
                } else {
                    (
                        self.with_mode(
                            ModeView::AddCard(AddDraftView { step: AddCardStep::Description, ..d }),
                        ),
                        false,
                    )
                },
                AddCardStep::Description => (
                    self.with_mode(ModeView::AddCard(AddDraftView { step: AddCardStep::Priority, ..d })),
                    false,
                ),
                AddCardStep::Priority => (
                    self.with_board(
                        self.board.with_card_added(
                            trim_spec(d.title),
                            trim_spec(d.description),
                            d.priority,
                            self.board.selected_column,
                        ).clamped(),
                    ).with_mode(ModeView::Normal).with_status("Card created"@),
                    true,
                ),
            },
            _ => (self, false),
        }
    }

    /// A command while the edit form `d` takes input.
    pub open spec fn edit_step(self, d: EditDraftView, command: Command) -> (AppView, bool) {
        match command {
            Command::CancelInput | Command::Quit => (
                self.with_mode(ModeView::Normal).with_status("Edit cancelled"@),
                false,
            ),
            Command::InputChar(c) => (
                self.with_mode(
                    ModeView::EditCard(
                        match d.step {
                            EditCardStep::Title => EditDraftView { title: d.title.push(c), ..d },
                            EditCardStep::Description => EditDraftView {
                                description: d.description.push(c),
                                ..d
                            },
                            EditCardStep::Priority => d,
                        },
                    ),
                ),
                false,
            ),
            Command::BackspaceInput => (
                self.with_mode(
                    ModeView::EditCard(
                        match d.step {
                            EditCardStep::Title => EditDraftView { title: popped(d.title), ..d },
                            EditCardStep::Description => EditDraftView {
                                description: popped(d.description),
                                ..d
                            },
                            EditCardStep::Priority => d,
                        },
                    ),
                ),
                false,
            ),
            Command::CyclePriority | Command::MoveLeft | Command::MoveRight => (
                self.with_mode(
                    ModeView::EditCard(
                        if d.step == EditCardStep::Priority {
                            EditDraftView { priority: spec_next_priority(d.priority), ..d }
                        } else {
                            d
                        },
                    ),
                ),
                false,
            ),
            Command::ConfirmInput => match d.step {
                EditCardStep::Title => if is_blank_spec(d.title) {
                    (self.with_status("Title is required"@), false)
                } else {
                    (
                        self.with_mode(
                            ModeView::EditCard(EditDraftView { step: EditCardStep::Description, ..d }),
                        ),
                        false,
                    )
                },
                EditCardStep::Description => (
                    self.with_mode(
                        ModeView::EditCard(EditDraftView { step: EditCardStep::Priority, ..d }),
                    ),
                    false,
                ),
                EditCardStep::Priority => if index_of_id(self.board.cards, d.card_id) >= 0 {
                    (
                        self.with_board(
                            self.board.after_update(
                                d.card_id,
                                trim_spec(d.title),
                                trim_spec(d.description),
                                d.priority,
                            ),
                        ).with_mode(ModeView::Normal).with_status("Card updated"@),
                        true,
                    )
                } else {
                    (self.with_mode(ModeView::Normal).with_status("Card no longer exists"@), false)
                },
            },
            _ => (self, false),
        }
    }
}

// ---------------------------------------------------------------------------
// Operations
// ---------------------------------------------------------------------------

impl Default for AddCardDraft {
    fn default() -> (r: Self)
        ensures
            r@ == empty_add_draft(),
    {
        AddCardDraft {
            title: String::new(),
            description: String::new(),
            priority: Priority::Medium,
            step: AddCardStep::Title,
        }
    }
}

/// Whether some card carries the largest id there is.
fn largest_id_taken(cards: &Vec<Card>) -> (r: bool)
    ensures
        r == (max_id(crate::model::cards_view(cards@)) >= u64::MAX),
{
    let ghost view = crate::model::cards_view(cards@);
    proof {
        lemma_max_id_bounds(view);
    }
    let mut i: usize = 0;
    while i < cards.len()
        invariant
            i <= cards@.len(),
            view == crate::model::cards_view(cards@),
            forall|j: int| 0 <= j < i ==> cards@[j].id != u64::MAX,
        decreases cards@.len() - i,
    {
        if cards[i].id == u64::MAX {
            proof {
                lemma_max_id_bounds(view);
                assert(view[i as int].id == u64::MAX);
                assert(view[i as int].id <= max_id(view));
            }
            return true;
        }
        i = i + 1;
    }
    proof {
        if view.len() > 0 {
            let k = choose|k: int| 0 <= k < view.len() && view[k].id == max_id(view);
            assert(view[k].id == cards@[k].id);
        }
    }
    false
}

impl App {
    /// An application on the sample board, with the status "Ready".
    pub fn new() -> (r: Self)
        ensures
            r@ == (AppView {
                board: sample_board(),
                should_quit: false,
                mode: ModeView::Normal,
                show_help: false,
                status: "Ready"@,
            }),
    {
        Self::from_board(Board::default())
    }

    /// An application on `board`, with the status "Ready".
    pub fn from_board(board: Board) -> (r: Self)
        ensures
            r@ == (AppView {
                board: board@,
                should_quit: false,
                mode: ModeView::Normal,
                show_help: false,
                status: "Ready"@,
            }),
    {
        Self::from_board_with_status(board, owned("Ready"))
    }

    /// An application on `board` that takes commands, shows no help, and
    /// shows `status_message`.
    pub fn from_board_with_status(board: Board, status_message: String) -> (r: Self)
        ensures
            r@ == (AppView {
                board: board@,
                should_quit: false,
                mode: ModeView::Normal,
                show_help: false,
                status: status_message@,
            }),
    {
        App { board, should_quit: false, mode: AppMode::Normal, show_help: false, status_message }
    }

    /// Whether a form takes input.
    pub fn is_input_mode(&self) -> (r: bool)
        ensures
            r == self@.is_input_mode(),
    {
        match self.mode {
            AppMode::Normal => false,
            _ => true,
        }
    }

    /// Carries out `command` and tells whether the board changed in a way
    /// that is worth saving.
    pub fn apply_command(&mut self, command: Command) -> (changed: bool)
        requires
            !old(self)@.command_overflows(command),
        ensures
            (final(self)@, changed) == old(self)@.step(command),
    {
        if self.is_input_mode() {
            return self.apply_modal_command(command);
        }
        match command {
            Command::Quit => {
                self.should_quit = true;
                false
            },
            Command::ToggleHelp => {
                self.show_help = !self.show_help;
                false
            },
            Command::MoveLeft => {
                self.move_selection_left();
                false
            },
            Command::MoveRight => {
                self.move_selection_right();
                false
            },
            Command::MoveUp => {
                self.move_selection_up();
                false
            },
            Command::MoveDown => {
                self.move_selection_down();
                false
            },
            Command::AddCard => {
                self.start_add_card();
                false
            },
            Command::StartEditCard => {
                self.start_edit_card();
                false
            },
            Command::MoveCardForward => self.move_selected_card_forward(),
            Command::DeleteCard => self.delete_selected_card(),
            Command::CycleSelectedPriority => self.cycle_selected_priority(),
            Command::NoOp => false,
            Command::InputChar(_)
            | Command::BackspaceInput
            | Command::ConfirmInput
            | Command::CancelInput
            | Command::CyclePriority => false,
        }
    }

    /// Whether `command` would overflow in the current state: moving down
    /// from the largest position, or creating a card when the largest id is
    /// taken.
    pub fn command_overflows(&self, command: Command) -> (r: bool)
        ensures
            r == self@.command_overflows(command),
    {
        match &self.mode {
            AppMode::Normal => command == Command::MoveDown && self.board.selected_index == usize::MAX,
            AppMode::AddCard(draft) => command == Command::ConfirmInput && draft.step
                == AddCardStep::Priority && largest_id_taken(&self.board.cards),
            AppMode::EditCard(_) => false,
        }
    }

    /// The status line: the mode's label and the last status message.
    pub fn status_line(&self) -> (r: String)
        ensures
            r@ == "Mode: "@ + mode_label(self@.mode) + " | Last action: "@ + self@.status,
    {
        let mut line = owned("Mode: ");
        push_str(&mut line, self.current_mode_label());
        push_str(&mut line, " | Last action: ");
        push_str(&mut line, self.status_message.as_str());
        line
    }

    /// The label of the current mode.
    pub fn current_mode_label(&self) -> (r: &'static str)
        ensures
            r@ == mode_label(self@.mode),
    {
        match self.mode {
            AppMode::Normal => "Normal",
            AppMode::AddCard(_) => "Add Card",
            AppMode::EditCard(_) => "Edit Card",
        }
    }

    fn apply_modal_command(&mut self, command: Command) -> (changed: bool)
        requires
            old(self)@.is_input_mode(),
            !old(self)@.command_overflows(command),
        ensures
            (final(self)@, changed) == old(self)@.step(command),
    {
        match &self.mode {
            AppMode::AddCard(_) => self.apply_add_card_command(command),
            AppMode::EditCard(_) => self.apply_edit_card_command(command),
            AppMode::Normal => false,
        }
    }

    fn apply_add_card_command(&mut self, command: Command) -> (changed: bool)
        requires
            old(self)@.mode is AddCard,
            !old(self)@.command_overflows(command),
        ensures
            (final(self)@, changed) == old(self)@.step(command),
    {
        match command {
            Command::CancelInput | Command::Quit => {
                self.mode = AppMode::Normal;
                self.status_message = owned("Card creation cancelled");
                false
            },
            Command::InputChar(c) => {
                if let AppMode::AddCard(draft) = &mut self.mode {
                    match draft.step {
                        AddCardStep::Title => push_char(&mut draft.title, c),
                        AddCardStep::Description => push_char(&mut draft.description, c),
                        AddCardStep::Priority => {},
                    }
                }
                false
            },
            Command::BackspaceInput => {
                if let AppMode::AddCard(draft) = &mut self.mode {
                    match draft.step {
                        AddCardStep::Title => {
                            pop_char(&mut draft.title);
                        },
                        AddCardStep::Description => {
                            pop_char(&mut draft.description);
                        },
                        AddCardStep::Priority => {},
                    }
                }
                false
            },
            Command::CyclePriority | Command::MoveLeft | Command::MoveRight => {
                if let AppMode::AddCard(draft) = &mut self.mode {
                    if draft.step == AddCardStep::Priority {
                        draft.priority = Board::next_priority(draft.priority);
                    }
                }
                false
            },
            Command::ConfirmInput => {
                if let AppMode::AddCard(draft) = &mut self.mode {
                    match draft.step {
                        AddCardStep::Title => {
                            if is_blank(draft.title.as_str()) {
                                self.status_message = owned("Title is required");
                            } else {
                                draft.step = AddCardStep::Description;
                            }
                        },
                        AddCardStep::Description => {
                            draft.step = AddCardStep::Priority;
                        },
                        AddCardStep::Priority => {
                            let title = owned(trim_text(draft.title.as_str()));
                            let description = owned(trim_text(draft.description.as_str()));
                            let priority = draft.priority;
                            let target_column = self.board.selected_column;
                            self.board.add_card(title, description, priority, target_column);
                            self.mode = AppMode::Normal;
                            self.status_message = owned("Card created");
                            self.board.clamp_selection();
                            return true;
                        },
                    }
                }
                false
            },
            Command::ToggleHelp => false,
            Command::MoveUp
            | Command::MoveDown
            | Command::AddCard
            | Command::StartEditCard
            | Command::MoveCardForward
            | Command::DeleteCard
            | Command::CycleSelectedPriority
            | Command::NoOp => false,
        }
    }

    fn apply_edit_card_command(&mut self, command: Command) -> (changed: bool)
        requires
            old(self)@.mode is EditCard,
        ensures
            (final(self)@, changed) == old(self)@.step(command),
    {
        match command {
            Command::CancelInput | Command::Quit => {
                self.mode = AppMode::Normal;
                self.status_message = owned("Edit cancelled");
                false
            },
            Command::InputChar(c) => {
                if let AppMode::EditCard(draft) = &mut self.mode {
                    match draft.step {
                        EditCardStep::Title => push_char(&mut draft.title, c),
                        EditCardStep::Description => push_char(&mut draft.description, c),
                        EditCardStep::Priority => {},
                    }
                }
                false
            },
            Command::BackspaceInput => {
                if let AppMode::EditCard(draft) = &mut self.mode {
                    match draft.step {
                        EditCardStep::Title => {
                            pop_char(&mut draft.title);
                        },
                        EditCardStep::Description => {
                            pop_char(&mut draft.description);
                        },
                        EditCardStep::Priority => {},
                    }
                }
                false
            },
            Command::CyclePriority | Command::MoveLeft | Command::MoveRight => {
                if let AppMode::EditCard(draft) = &mut self.mode {
                    if draft.step == EditCardStep::Priority {
                        draft.priority = Board::next_priority(draft.priority);
                    }
                }
                false
            },
            Command::ConfirmInput => {
                let mut updated_card: Option<(u64, String, String, Priority)> = None;
                if let AppMode::EditCard(draft) = &mut self.mode {
                    match draft.step {
                        EditCardStep::Title => {
                            if is_blank(draft.title.as_str()) {
                                self.status_message = owned("Title is required");
                            } else {
                                draft.step = EditCardStep::Description;
                            }
                        },
                        EditCardStep::Description => {
                            draft.step = EditCardStep::Priority;
                        },
                        EditCardStep::Priority => {
                            updated_card = Some((
                                draft.card_id,
                                owned(trim_text(draft.title.as_str())),
                                owned(trim_text(draft.description.as_str())),
                                draft.priority,
                            ));
                        },
                    }
                }
                if let Some((card_id, title, description, priority)) = updated_card {
                    if self.board.update_card(card_id, title, description, priority) {
                        self.mode = AppMode::Normal;
                        self.status_message = owned("Card updated");
                        return true;
                    } else {
                        self.mode = AppMode::Normal;
                        self.status_message = owned("Card no longer exists");
                    }
                }
                false
            },
            Command::ToggleHelp => false,
            Command::MoveUp
            | Command::MoveDown
            | Command::AddCard
            | Command::StartEditCard
            | Command::MoveCardForward
            | Command::DeleteCard
            | Command::CycleSelectedPriority
            | Command::NoOp => false,
        }
    }

    fn start_add_card(&mut self)
        requires
            old(self)@.mode is Normal,
        ensures
            (final(self)@, false) == old(self)@.step(Command::AddCard),
    {
        self.mode = AppMode::AddCard(AddCardDraft::default());
        self.status_message = owned("Add card mode");
    }

    fn start_edit_card(&mut self)
        requires
            old(self)@.mode is Normal,
        ensures
            (final(self)@, false) == old(self)@.step(Command::StartEditCard),
    {
        if let Some(card) = self.board.selected_card() {
            self.mode = AppMode::EditCard(
                EditCardDraft {
                    card_id: card.id,
                    title: card.title.clone(),
                    description: card.description.clone(),
                    priority: card.priority,
                    step: EditCardStep::Title,
                },
            );
            self.status_message = owned("Edit card mode");
        } else {
            self.status_message = owned("No card selected");
        }
    }

    fn move_selected_card_forward(&mut self) -> (changed: bool)
        requires
            old(self)@.mode is Normal,
        ensures
            (final(self)@, changed) == old(self)@.step(Command::MoveCardForward),
    {
        if self.board.move_selected_card_forward() {
            self.status_message = owned("Card moved");
            true
        } else {
            self.status_message = owned("No card selected");
            false
        }
    }

    fn delete_selected_card(&mut self) -> (changed: bool)
        requires
            old(self)@.mode is Normal,
        ensures
            (final(self)@, changed) == old(self)@.step(Command::DeleteCard),
    {
        if self.board.delete_selected_card() {
            self.status_message = owned("Card deleted");
            true
        } else {
            self.status_message = owned("No card selected");
            false
        }
    }

    fn cycle_selected_priority(&mut self) -> (changed: bool)
        requires
            old(self)@.mode is Normal,
        ensures
            (final(self)@, changed) == old(self)@.step(Command::CycleSelectedPriority),
    {
        if self.board.cycle_selected_card_priority() {
            self.status_message = owned("Priority changed");
            true
        } else {
            self.status_message = owned("No card selected");
            false
        }
    }

    fn move_selection_left(&mut self)
        requires
            old(self)@.mode is Normal,
        ensures
            (final(self)@, false) == old(self)@.step(Command::MoveLeft),
    {
        let current_index = Board::column_index(self.board.selected_column);
        if current_index > 0 {
            self.board.selected_column = Board::column_at_index(current_index - 1);
        }
        self.board.clamp_selection();
    }

    fn move_selection_right(&mut self)
        requires
            old(self)@.mode is Normal,
        ensures
            (final(self)@, false) == old(self)@.step(Command::MoveRight),
    {
        let current_index = Board::column_index(self.board.selected_column);
        let last_index = Board::columns().len() - 1;
        if current_index < last_index {
            self.board.selected_column = Board::column_at_index(current_index + 1);
        }
        self.board.clamp_selection();
    }

    fn move_selection_up(&mut self)
        requires
            old(self)@.mode is Normal,
        ensures
            (final(self)@, false) == old(self)@.step(Command::MoveUp),
    {
        if self.board.selected_index > 0 {
            self.board.selected_index = self.board.selected_index - 1;
        }
        self.board.clamp_selection();
    }

    fn move_selection_down(&mut self)
        requires
            old(self)@.mode is Normal,
            old(self).board.selected_index < usize::MAX,
        ensures
            (final(self)@, false) == old(self)@.step(Command::MoveDown),
    {
        let visible_cards = self.board.selected_column_cards().len();
        if self.board.selected_index + 1 < visible_cards {
            self.board.selected_index = self.board.selected_index + 1;
        }
        self.board.clamp_selection();
    }
}

} // verus!
