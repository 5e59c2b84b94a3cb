use kanban_lite::app::{AddCardStep, App, AppMode, Command};
use kanban_lite::model::{Board, Column, Priority};

#[test]
fn creates_card_from_add_mode() {
    let mut app = App::new();
    let initial_len = app.board.cards.len();

    app.apply_command(Command::AddCard);
    app.apply_command(Command::InputChar('T'));
    app.apply_command(Command::InputChar('1'));
    app.apply_command(Command::ConfirmInput);
    app.apply_command(Command::InputChar('D'));
    app.apply_command(Command::ConfirmInput);
    app.apply_command(Command::ConfirmInput);

    assert_eq!(app.board.cards.len(), initial_len + 1);
    assert!(matches!(app.mode, AppMode::Normal));
}

#[test]
fn cycles_priority_in_normal_mode() {
    let mut app = App::new();
    app.board.selected_column = Column::Todo;
    app.board.selected_index = 0;

    app.apply_command(Command::CycleSelectedPriority);

    let card = app
        .board
        .selected_card()
        .expect("selected card should exist");
    assert_eq!(card.priority, Priority::Low);
}

#[test]
fn edits_card_title_and_description() {
    let mut app = App::new();
    app.board.selected_column = Column::Todo;
    app.board.selected_index = 0;

    app.apply_command(Command::StartEditCard);
    for _ in 0.."Project skeleton".chars().count() {
        app.apply_command(Command::BackspaceInput);
    }
    app.apply_command(Command::InputChar('N'));
    app.apply_command(Command::InputChar('e'));
    app.apply_command(Command::InputChar('w'));
    app.apply_command(Command::ConfirmInput);

    for _ in 0.."Create modules and baseline architecture".chars().count() {
        app.apply_command(Command::BackspaceInput);
    }
    app.apply_command(Command::InputChar('X'));
    app.apply_command(Command::ConfirmInput);
    app.apply_command(Command::ConfirmInput);

    let card = app
        .board
        .selected_card()
        .expect("selected card should exist");
    assert_eq!(card.title, "New");
    assert_eq!(card.description, "X");
}

#[test]
fn new_card_gets_next_id_trimmed_text_and_selected_column() {
    let mut app = App::new();
    app.apply_command(Command::MoveRight);
    app.apply_command(Command::AddCard);
    for c in "  Write docs ".chars() {
        app.apply_command(Command::InputChar(c));
    }
    app.apply_command(Command::ConfirmInput);
    for c in " details\t".chars() {
        app.apply_command(Command::InputChar(c));
    }
    app.apply_command(Command::ConfirmInput);
    app.apply_command(Command::CyclePriority);
    let changed = app.apply_command(Command::ConfirmInput);

    assert!(changed);
    let card = app.board.cards.last().expect("a card was added");
    assert_eq!(card.id, 4);
    assert_eq!(card.title, "Write docs");
    assert_eq!(card.description, "details");
    assert_eq!(card.priority, Priority::High);
    assert_eq!(card.column, Column::Doing);
    assert_eq!(app.status_message, "Card created");
}

#[test]
fn blank_title_is_refused() {
    let mut app = App::new();
    app.apply_command(Command::AddCard);
    app.apply_command(Command::InputChar(' '));
    app.apply_command(Command::ConfirmInput);

    assert_eq!(app.status_message, "Title is required");
    match &app.mode {
        AppMode::AddCard(draft) => assert_eq!(draft.step, AddCardStep::Title),
        _ => panic!("the form should stay open"),
    }
}

#[test]
fn priority_key_in_form_only_acts_on_priority_step() {
    let mut app = App::new();
    app.apply_command(Command::AddCard);
    app.apply_command(Command::CyclePriority);
    match &app.mode {
        AppMode::AddCard(draft) => assert_eq!(draft.priority, Priority::Medium),
        _ => panic!("the form should stay open"),
    }
}

#[test]
fn backspace_on_empty_title_keeps_it_empty() {
    let mut app = App::new();
    app.apply_command(Command::AddCard);
    app.apply_command(Command::BackspaceInput);
    app.apply_command(Command::InputChar('a'));
    app.apply_command(Command::InputChar('b'));
    app.apply_command(Command::BackspaceInput);
    match &app.mode {
        AppMode::AddCard(draft) => assert_eq!(draft.title, "a"),
        _ => panic!("the form should stay open"),
    }
}

#[test]
fn cancel_keeps_board_and_returns_to_normal() {
    let mut app = App::new();
    let before = app.board.clone();
    app.apply_command(Command::AddCard);
    app.apply_command(Command::InputChar('x'));
    let changed = app.apply_command(Command::CancelInput);

    assert!(!changed);
    assert!(matches!(app.mode, AppMode::Normal));
    assert_eq!(app.board, before);
    assert_eq!(app.status_message, "Card creation cancelled");
}

#[test]
fn quit_in_form_only_cancels() {
    let mut app = App::new();
    app.apply_command(Command::StartEditCard);
    app.apply_command(Command::Quit);
    assert!(!app.should_quit);
    assert_eq!(app.status_message, "Edit cancelled");
    app.apply_command(Command::Quit);
    assert!(app.should_quit);
}

#[test]
fn edit_of_removed_card_reports_it() {
    let mut app = App::new();
    app.apply_command(Command::StartEditCard);
    app.apply_command(Command::ConfirmInput);
    app.apply_command(Command::ConfirmInput);
    app.board.cards.retain(|card| card.id != 1);
    let changed = app.apply_command(Command::ConfirmInput);

    assert!(!changed);
    assert!(matches!(app.mode, AppMode::Normal));
    assert_eq!(app.status_message, "Card no longer exists");
}

#[test]
fn commands_on_empty_column_report_no_selection() {
    let mut app = App::from_board(Board {
        cards: Vec::new(),
        selected_column: Column::Todo,
        selected_index: 0,
    });
    assert!(!app.apply_command(Command::MoveCardForward));
    assert_eq!(app.status_message, "No card selected");
    assert!(!app.apply_command(Command::DeleteCard));
    assert!(!app.apply_command(Command::CycleSelectedPriority));
    app.apply_command(Command::StartEditCard);
    assert!(matches!(app.mode, AppMode::Normal));
    app.apply_command(Command::MoveDown);
    app.apply_command(Command::MoveUp);
    assert_eq!(app.board.selected_index, 0);
}

#[test]
fn move_card_forward_and_selection_follows_column() {
    let mut app = App::new();
    assert!(app.apply_command(Command::MoveCardForward));
    assert_eq!(app.status_message, "Card moved");
    assert_eq!(app.board.cards[0].column, Column::Doing);
    assert_eq!(app.board.selected_index, 0);
    assert!(app.board.selected_card().is_none());

    app.apply_command(Command::MoveRight);
    assert_eq!(app.board.selected_column, Column::Doing);
    app.apply_command(Command::MoveDown);
    assert_eq!(app.board.selected_index, 1);
    app.apply_command(Command::MoveDown);
    assert_eq!(app.board.selected_index, 1);
    app.apply_command(Command::MoveRight);
    app.apply_command(Command::MoveRight);
    assert_eq!(app.board.selected_column, Column::Done);
    assert_eq!(app.board.selected_index, 0);
    app.apply_command(Command::MoveLeft);
    app.apply_command(Command::MoveLeft);
    app.apply_command(Command::MoveLeft);
    assert_eq!(app.board.selected_column, Column::Todo);
}

#[test]
fn delete_pulls_selection_back() {
    let mut app = App::new();
    app.apply_command(Command::MoveRight);
    app.board.add_card("Second".to_string(), String::new(), Priority::Low, Column::Doing);
    app.apply_command(Command::MoveDown);
    assert_eq!(app.board.selected_index, 1);
    assert!(app.apply_command(Command::DeleteCard));
    assert_eq!(app.status_message, "Card deleted");
    assert_eq!(app.board.cards.len(), 3);
    assert_eq!(app.board.selected_index, 0);
}

#[test]
fn toggle_help_and_mode_labels() {
    let mut app = App::new();
    assert_eq!(app.current_mode_label(), "Normal");
    app.apply_command(Command::ToggleHelp);
    assert!(app.show_help);
    app.apply_command(Command::ToggleHelp);
    assert!(!app.show_help);
    app.apply_command(Command::AddCard);
    assert_eq!(app.current_mode_label(), "Add Card");
    assert!(app.is_input_mode());
    app.apply_command(Command::CancelInput);
    app.apply_command(Command::StartEditCard);
    assert_eq!(app.current_mode_label(), "Edit Card");
}

#[test]
fn selection_stays_valid_through_a_session() {
    let commands = [
        Command::MoveDown,
        Command::MoveCardForward,
        Command::MoveRight,
        Command::MoveDown,
        Command::DeleteCard,
        Command::MoveCardForward,
        Command::MoveRight,
        Command::DeleteCard,
        Command::MoveLeft,
        Command::MoveUp,
    ];
    let mut app = App::new();
    for command in commands {
        app.apply_command(command);
        let in_column = app.board.selected_column_cards().len();
        if in_column == 0 {
            assert_eq!(app.board.selected_index, 0);
        } else {
            assert!(app.board.selected_index < in_column);
        }
    }
}

#[test]
fn status_line_and_selected_position() {
    let mut app = App::new();
    assert_eq!(app.status_line(), "Mode: Normal | Last action: Ready");
    app.apply_command(Command::AddCard);
    assert_eq!(app.status_line(), "Mode: Add Card | Last action: Add card mode");

    let mut board = Board::with_sample_cards();
    assert_eq!(board.selected_item_index(Column::Todo), Some(0));
    assert_eq!(board.selected_item_index(Column::Doing), None);
    board.add_card("Second".to_string(), String::new(), Priority::Low, Column::Todo);
    board.selected_index = 1;
    assert_eq!(board.selected_item_index(Column::Todo), Some(1));
    board.selected_index = 5;
    assert_eq!(board.selected_item_index(Column::Todo), None);
}

#[test]
fn overflowing_commands_are_recognised() {
    let mut app = App::new();
    assert!(!app.command_overflows(Command::MoveDown));
    app.board.selected_index = usize::MAX;
    assert!(app.command_overflows(Command::MoveDown));
    assert!(!app.command_overflows(Command::MoveUp));

    let mut app = App::new();
    app.board.cards[1].id = u64::MAX;
    app.apply_command(Command::AddCard);
    app.apply_command(Command::InputChar('t'));
    app.apply_command(Command::ConfirmInput);
    assert!(!app.command_overflows(Command::ConfirmInput));
    app.apply_command(Command::ConfirmInput);
    assert!(app.command_overflows(Command::ConfirmInput));
    assert!(!app.command_overflows(Command::CancelInput));
}
