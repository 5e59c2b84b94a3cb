use kanban_lite::model::{Board, Card, Column, Priority};

fn card(id: u64, title: &str, column: Column) -> Card {
    Card {
        id,
        title: title.to_string(),
        description: String::new(),
        priority: Priority::Medium,
        column,
    }
}

#[test]
fn column_order_and_cycles() {
    assert_eq!(Board::columns(), [Column::Todo, Column::Doing, Column::Done]);
    for column in Board::columns() {
        assert_eq!(Board::column_at_index(Board::column_index(column)), column);
        let three = Board::next_column(Board::next_column(Board::next_column(column)));
        assert_eq!(three, column);
    }
    assert_eq!(Board::column_at_index(7), Column::Done);
    assert_eq!(Board::next_column(Column::Done), Column::Todo);
    for priority in [Priority::Low, Priority::Medium, Priority::High] {
        let three = Board::next_priority(Board::next_priority(Board::next_priority(priority)));
        assert_eq!(three, priority);
    }
    assert_eq!(Board::next_priority(Priority::High), Priority::Low);
}

#[test]
fn sample_board_and_default_agree() {
    let board = Board::default();
    assert_eq!(board, Board::with_sample_cards());
    assert_eq!(board.cards.len(), 3);
    assert_eq!(board.cards[1].title, "Domain model");
    assert_eq!(board.selected_card_id(), Some(1));
}

#[test]
fn column_counts_add_up() {
    let board = Board {
        cards: vec![
            card(1, "a", Column::Done),
            card(2, "b", Column::Todo),
            card(3, "c", Column::Done),
        ],
        selected_column: Column::Done,
        selected_index: 1,
    };
    let todo = board.cards_in_column(Column::Todo);
    let doing = board.cards_in_column(Column::Doing);
    let done = board.cards_in_column(Column::Done);
    assert_eq!(todo.len() + doing.len() + done.len(), board.cards.len());
    assert_eq!(done.iter().map(|c| c.id).collect::<Vec<_>>(), vec![1, 3]);
    assert_eq!(board.selected_card().map(|c| c.id), Some(3));
}

#[test]
fn new_ids_are_above_every_id() {
    let mut board = Board {
        cards: vec![card(7, "a", Column::Todo), card(3, "b", Column::Todo)],
        selected_column: Column::Todo,
        selected_index: 0,
    };
    let id = board.add_card("c".to_string(), String::new(), Priority::Low, Column::Done);
    assert_eq!(id, 8);
    let mut empty = Board {
        cards: Vec::new(),
        selected_column: Column::Todo,
        selected_index: 0,
    };
    assert_eq!(empty.add_card("x".to_string(), String::new(), Priority::Low, Column::Todo), 1);
}

#[test]
fn delete_removes_every_card_with_the_selected_id() {
    let mut board = Board {
        cards: vec![
            card(5, "a", Column::Todo),
            card(6, "b", Column::Doing),
            card(5, "c", Column::Done),
        ],
        selected_column: Column::Todo,
        selected_index: 0,
    };
    assert!(board.delete_selected_card());
    assert_eq!(board.cards.len(), 1);
    assert_eq!(board.cards[0].id, 6);
    assert_eq!(board.selected_index, 0);
}

#[test]
fn move_changes_the_first_card_with_the_id() {
    let mut board = Board {
        cards: vec![card(1, "a", Column::Todo), card(2, "b", Column::Todo)],
        selected_column: Column::Todo,
        selected_index: 1,
    };
    assert!(board.move_selected_card_forward());
    assert_eq!(board.cards[1].column, Column::Doing);
    assert_eq!(board.cards[0].column, Column::Todo);
    assert_eq!(board.selected_index, 0);
}

#[test]
fn update_reports_missing_card() {
    let mut board = Board::with_sample_cards();
    assert!(!board.update_card(42, "t".to_string(), "d".to_string(), Priority::Low));
    assert_eq!(board, Board::with_sample_cards());
    assert!(board.update_card(2, "t".to_string(), "d".to_string(), Priority::Low));
    assert_eq!(board.cards[1].title, "t");
    assert_eq!(board.cards[1].priority, Priority::Low);
    assert_eq!(board.cards[1].column, Column::Doing);
}

#[test]
fn clamp_selection_on_short_and_empty_columns() {
    let mut board = Board::with_sample_cards();
    board.selected_index = 9;
    board.clamp_selection();
    assert_eq!(board.selected_index, 0);
    board.cards.clear();
    board.selected_index = 3;
    board.clamp_selection();
    assert_eq!(board.selected_index, 0);
    assert!(board.selected_card().is_none());
    assert!(!board.cycle_selected_card_priority());
}
