use kanban_lite::error::{AppError, IoErrorClass};
use kanban_lite::input::{map_key_to_command, KeyCode, KeyEvent, KeyEventKind};
use kanban_lite::app::Command;
use kanban_lite::model::{Board, Column};
use kanban_lite::session::{initialize_app, report_save_failure};
use kanban_lite::storage::validate_board;

#[test]
fn ignores_repeat_events() {
    let key = KeyEvent {
        code: KeyCode::Right,
        kind: KeyEventKind::Repeat,
    };

    assert_eq!(map_key_to_command(key, false), Command::NoOp);
}

#[test]
fn maps_add_card_key() {
    let key = KeyEvent {
        code: KeyCode::Char('a'),
        kind: KeyEventKind::Press,
    };

    assert_eq!(map_key_to_command(key, false), Command::AddCard);
}

#[test]
fn keeps_characters_in_input_mode() {
    let key = KeyEvent {
        code: KeyCode::Char('q'),
        kind: KeyEventKind::Press,
    };

    assert_eq!(map_key_to_command(key, true), Command::InputChar('q'));
}

fn press(code: KeyCode) -> KeyEvent {
    KeyEvent { code, kind: KeyEventKind::Press }
}

#[test]
fn documented_keys_map_to_commands() {
    assert_eq!(map_key_to_command(press(KeyCode::Char('Q')), false), Command::Quit);
    assert_eq!(map_key_to_command(press(KeyCode::Char('e')), false), Command::StartEditCard);
    assert_eq!(map_key_to_command(press(KeyCode::Char('M')), false), Command::MoveCardForward);
    assert_eq!(map_key_to_command(press(KeyCode::Char('d')), false), Command::DeleteCard);
    assert_eq!(map_key_to_command(press(KeyCode::Char('P')), false), Command::CycleSelectedPriority);
    assert_eq!(map_key_to_command(press(KeyCode::Char('h')), false), Command::ToggleHelp);
    assert_eq!(map_key_to_command(press(KeyCode::Up), false), Command::MoveUp);
    assert_eq!(map_key_to_command(press(KeyCode::Char('z')), false), Command::NoOp);
    assert_eq!(map_key_to_command(press(KeyCode::Esc), true), Command::CancelInput);
    assert_eq!(map_key_to_command(press(KeyCode::Enter), true), Command::ConfirmInput);
    assert_eq!(map_key_to_command(press(KeyCode::Backspace), true), Command::BackspaceInput);
    assert_eq!(map_key_to_command(press(KeyCode::Tab), true), Command::CyclePriority);
    assert_eq!(map_key_to_command(press(KeyCode::Char('p')), true), Command::CyclePriority);
    assert_eq!(map_key_to_command(press(KeyCode::Up), true), Command::NoOp);
    let released = KeyEvent { code: KeyCode::Char('q'), kind: KeyEventKind::Release };
    assert_eq!(map_key_to_command(released, true), Command::NoOp);
}

#[test]
fn rejects_empty_card_title() {
    let mut board = Board::with_sample_cards();
    board.cards[0].title = "   ".to_string();
    board.cards[0].priority = kanban_lite::model::Priority::High;

    let result = validate_board(&board);

    assert!(matches!(result, Err(AppError::Validation(_))));
}

#[test]
fn validation_names_the_first_card_with_blank_title() {
    let mut board = Board::with_sample_cards();
    board.cards[1].title = "\t \n".to_string();
    board.cards[2].title = String::new();
    board.cards[1].id = 1234;
    match validate_board(&board) {
        Err(AppError::Validation(message)) => {
            assert_eq!(message, "card with id 1234 has empty title")
        }
        other => panic!("unexpected result {other:?}"),
    }
    assert!(validate_board(&Board::with_sample_cards()).is_ok());
}

#[test]
fn user_messages_of_every_error() {
    let not_found = AppError::FileNotFound("data/board.json".to_string());
    assert_eq!(
        not_found.user_message(),
        "No saved board found at data/board.json. Starting with default board."
    );
    let denied = AppError::PermissionDenied("b.json".to_string());
    assert_eq!(denied.user_message(), "Permission denied for b.json. Check file access rights.");
    let io = AppError::Io {
        path: "x".to_string(),
        source: std::io::Error::other("disk"),
    };
    assert_eq!(io.user_message(), "Storage I/O error at x");
    let json_error = serde_json::from_str::<serde_json::Value>("{ not json }").unwrap_err();
    assert_eq!(
        AppError::Json(json_error).user_message(),
        "Saved board is corrupted (invalid JSON). Starting with default board."
    );
    let invalid = AppError::Validation("card with id 3 has empty title".to_string());
    assert_eq!(invalid.user_message(), "Saved data is invalid: card with id 3 has empty title");
}

#[test]
fn io_errors_are_classified_by_kind() {
    let e = AppError::from_io("p".to_string(), std::io::Error::from(std::io::ErrorKind::NotFound));
    assert!(matches!(e, AppError::FileNotFound(ref p) if p == "p"));
    let e = AppError::from_io("q".to_string(), std::io::Error::from(std::io::ErrorKind::PermissionDenied));
    assert!(matches!(e, AppError::PermissionDenied(ref p) if p == "q"));
    let e = AppError::from_io("r".to_string(), std::io::Error::from(std::io::ErrorKind::Interrupted));
    assert!(matches!(e, AppError::Io { ref path, ref source } if path == "r"
        && source.kind() == std::io::ErrorKind::Interrupted));
    let e = AppError::from_io_class("s".to_string(), IoErrorClass::Other, std::io::Error::other("x"));
    assert!(matches!(e, AppError::Io { .. }));
}

#[test]
fn start_up_uses_loaded_board_or_sample() {
    let mut board = Board::with_sample_cards();
    board.selected_column = Column::Done;
    let app = initialize_app(Ok(board.clone()));
    assert_eq!(app.board, board);
    assert_eq!(app.status_message, "Board loaded from disk");

    let app = initialize_app(Err(AppError::FileNotFound("data/board.json".to_string())));
    assert_eq!(app.board, Board::default());
    assert_eq!(
        app.status_message,
        "No saved board found at data/board.json. Starting with default board."
    );
}

#[test]
fn corrupt_save_starts_with_sample_board() {
    let json_error = serde_json::from_str::<serde_json::Value>("{ not json }").unwrap_err();
    let app = initialize_app(Err(AppError::Json(json_error)));
    assert_eq!(app.board, Board::default());
    assert_eq!(
        app.status_message,
        "Saved board is corrupted (invalid JSON). Starting with default board."
    );
}

#[test]
fn save_failure_is_reported() {
    let mut app = kanban_lite::app::App::new();
    report_save_failure(&mut app, &AppError::PermissionDenied("f".to_string()));
    assert_eq!(
        app.status_message,
        "Save failed: Permission denied for f. Check file access rights."
    );
}
