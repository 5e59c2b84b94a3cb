use vstd::prelude::*;

use crate::app::{AddCardStep, AppView, Command, EditCardStep, ModeView};
use crate::input::{key_command, KeyCode, KeyEvent, KeyEventKind};
use crate::model::{
    column_cards, ids_unique, in_column, index_of_id, lemma_filter_ids_unique, BoardView, is_first_with_id, lemma_index_of_id_unique, lemma_max_id_bounds,
    lemma_selected_on_board, CardView, Column, Priority,
};
use crate::text::{decimal, digit_char, is_blank_spec, is_white_space, trim_end_spec, trim_spec, trim_start_spec};
use crate::ui::{bounded_center_spec, percent_spec, progress_fill_spec, saturated_product, Rect};

verus! {

/// `q` follows `p` in the cycle Low, Medium, High, Low.
pub open spec fn follows(p: Priority, q: Priority) -> bool {
    ||| p == Priority::Low && q == Priority::Medium
    ||| p == Priority::Medium && q == Priority::High
    ||| p == Priority::High && q == Priority::Low
}

/// `t` is `s` with its last character removed, or `s` itself when empty.
pub open spec fn one_removed(s: Seq<char>, t: Seq<char>) -> bool {
    if s.len() == 0 {
        t == s
    } else {
        t == s.subrange(0, s.len() - 1)
    }
}

/// Law: in normal mode the arrow keys move the selection in their own
/// direction. Up goes one card up unless on the first; Down one card down
/// unless on the last; Left and Right one column over unless at the edge.
/// None of them touches the cards, opens a form, or reports a change.
pub proof fn law_arrows_move_selection(v: AppView)
    requires
        v.mode is Normal,
        v.board.selection_valid(),
    ensures
        ({
            let (up, changed) = v.step(Command::MoveUp);
            &&& !changed
            &&& up.board.cards == v.board.cards
            &&& up.mode == v.mode
            &&& up.board.selected_column == v.board.selected_column
            &&& v.board.selected_index > 0 ==> up.board.selected_index == v.board.selected_index - 1
            &&& v.board.selected_index == 0 ==> up.board.selected_index == 0
        }),
        ({
            let (down, changed) = v.step(Command::MoveDown);
            let n = v.board.selected_cards().len();
            &&& !changed
            &&& down.board.cards == v.board.cards
            &&& down.mode == v.mode
            &&& down.board.selected_column == v.board.selected_column
            &&& v.board.selected_index + 1 < n ==> down.board.selected_index == v.board.selected_index + 1
            &&& v.board.selected_index + 1 >= n ==> down.board.selected_index == v.board.selected_index
        }),
        ({
            let (left, changed) = v.step(Command::MoveLeft);
            &&& !changed
            &&& left.board.cards == v.board.cards
            &&& left.board.selection_valid()
            &&& v.board.selected_column == Column::Todo ==> left.board.selected_column == Column::Todo
            &&& v.board.selected_column == Column::Doing ==> left.board.selected_column == Column::Todo
            &&& v.board.selected_column == Column::Done ==> left.board.selected_column == Column::Doing
        }),
        ({
            let (right, changed) = v.step(Command::MoveRight);
            &&& !changed
            &&& right.board.cards == v.board.cards
            &&& right.board.selection_valid()
            &&& v.board.selected_column == Column::Todo ==> right.board.selected_column == Column::Doing
            &&& v.board.selected_column == Column::Doing ==> right.board.selected_column == Column::Done
            &&& v.board.selected_column == Column::Done ==> right.board.selected_column == Column::Done
        }),
{
}

/// Law: the documented keys. On the board, pressed arrows move in their own
/// direction and the letters (either case) give their commands; in a form,
/// Esc cancels, Enter confirms, Backspace deletes, Tab and P cycle the
/// priority, Left and Right too, and other characters are typed.
pub proof fn law_keys_map_to_their_commands(key: KeyEvent)
    requires
        key.kind == KeyEventKind::Press,
    ensures
        key.code == KeyCode::Up ==> key_command(key, false) == Command::MoveUp,
        key.code == KeyCode::Down ==> key_command(key, false) == Command::MoveDown,
        key.code == KeyCode::Left ==> key_command(key, false) == Command::MoveLeft,
        key.code == KeyCode::Right ==> key_command(key, false) == Command::MoveRight,
        key.code == KeyCode::Char('q') || key.code == KeyCode::Char('Q') ==> key_command(key, false)
            == Command::Quit,
        key.code == KeyCode::Char('a') || key.code == KeyCode::Char('A') ==> key_command(key, false)
            == Command::AddCard,
        key.code == KeyCode::Char('e') || key.code == KeyCode::Char('E') ==> key_command(key, false)
            == Command::StartEditCard,
        key.code == KeyCode::Char('m') || key.code == KeyCode::Char('M') ==> key_command(key, false)
            == Command::MoveCardForward,
        key.code == KeyCode::Char('d') || key.code == KeyCode::Char('D') ==> key_command(key, false)
            == Command::DeleteCard,
        key.code == KeyCode::Char('p') || key.code == KeyCode::Char('P') ==> key_command(key, false)
            == Command::CycleSelectedPriority,
        key.code == KeyCode::Char('h') || key.code == KeyCode::Char('H') ==> key_command(key, false)
            == Command::ToggleHelp,
        key.code == KeyCode::Esc ==> key_command(key, true) == Command::CancelInput,
        key.code == KeyCode::Enter ==> key_command(key, true) == Command::ConfirmInput,
        key.code == KeyCode::Backspace ==> key_command(key, true) == Command::BackspaceInput,
        key.code == KeyCode::Tab ==> key_command(key, true) == Command::CyclePriority,
        key.code == KeyCode::Char('p') || key.code == KeyCode::Char('P') ==> key_command(key, true)
            == Command::CyclePriority,
        key.code == KeyCode::Left ==> key_command(key, true) == Command::MoveLeft,
        key.code == KeyCode::Right ==> key_command(key, true) == Command::MoveRight,
        forall|c: char| c != 'p' && c != 'P' && key.code == KeyCode::Char(c) ==> key_command(key, true)
            == Command::InputChar(c),
{
}

/// Law: typing in the new-card form. A character goes at the end of the
/// focused field (title or description), Backspace removes the last one,
/// and on the priority step the priority keys cycle the priority; no other
/// part of the form or of the board changes, and nothing is reported.
pub proof fn law_add_form_editing(v: AppView, c: char)
    requires
        v.mode is AddCard,
    ensures
        ({
            let d = v.mode->AddCard_0;
            let (typed, changed) = v.step(Command::InputChar(c));
            let e = typed.mode->AddCard_0;
            &&& !changed && typed.board == v.board && typed.mode is AddCard
            &&& e.step == d.step && e.priority == d.priority
            &&& d.step == AddCardStep::Title ==> e.title == d.title.push(c) && e.description == d.description
            &&& d.step == AddCardStep::Description ==> e.description == d.description.push(c) && e.title == d.title
            &&& d.step == AddCardStep::Priority ==> e == d
        }),
        ({
            let d = v.mode->AddCard_0;
            let (erased, changed) = v.step(Command::BackspaceInput);
            let e = erased.mode->AddCard_0;
            &&& !changed && erased.board == v.board && erased.mode is AddCard
            &&& e.step == d.step && e.priority == d.priority
            &&& d.step == AddCardStep::Title ==> one_removed(d.title, e.title) && e.description == d.description
            &&& d.step == AddCardStep::Description ==> one_removed(d.description, e.description) && e.title
                == d.title
            &&& d.step == AddCardStep::Priority ==> e == d
        }),
        forall|command: Command|
            #![trigger v.step(command)]
            command == Command::CyclePriority || command == Command::MoveLeft || command == Command::MoveRight
                ==> ({
                let d = v.mode->AddCard_0;
                let (cycled, changed) = v.step(command);
                let e = cycled.mode->AddCard_0;
                &&& !changed && cycled.board == v.board && cycled.mode is AddCard
                &&& e.title == d.title && e.description == d.description && e.step == d.step
                &&& d.step == AddCardStep::Priority ==> follows(d.priority, e.priority)
                &&& d.step != AddCardStep::Priority ==> e.priority == d.priority
            }),
{
}

/// Law: typing in the edit form, as in the new-card form: a character goes
/// at the end of the focused field, Backspace removes the last one, and on
/// the priority step the priority keys cycle the priority.
pub proof fn law_edit_form_editing(v: AppView, c: char)
    requires
        v.mode is EditCard,
    ensures
        ({
            let d = v.mode->EditCard_0;
            let (typed, changed) = v.step(Command::InputChar(c));
            let e = typed.mode->EditCard_0;
            &&& !changed && typed.board == v.board && typed.mode is EditCard
            &&& e.card_id == d.card_id && e.step == d.step && e.priority == d.priority
            &&& d.step == EditCardStep::Title ==> e.title == d.title.push(c) && e.description == d.description
            &&& d.step == EditCardStep::Description ==> e.description == d.description.push(c) && e.title == d.title
            &&& d.step == EditCardStep::Priority ==> e == d
        }),
        ({
            let d = v.mode->EditCard_0;
            let (erased, changed) = v.step(Command::BackspaceInput);
            let e = erased.mode->EditCard_0;
            &&& !changed && erased.board == v.board && erased.mode is EditCard
            &&& e.card_id == d.card_id && e.step == d.step && e.priority == d.priority
            &&& d.step == EditCardStep::Title ==> one_removed(d.title, e.title) && e.description == d.description
            &&& d.step == EditCardStep::Description ==> one_removed(d.description, e.description) && e.title
                == d.title
            &&& d.step == EditCardStep::Priority ==> e == d
        }),
        forall|command: Command|
            #![trigger v.step(command)]
            command == Command::CyclePriority || command == Command::MoveLeft || command == Command::MoveRight
                ==> ({
                let d = v.mode->EditCard_0;
                let (cycled, changed) = v.step(command);
                let e = cycled.mode->EditCard_0;
                &&& !changed && cycled.board == v.board && cycled.mode is EditCard
                &&& e.card_id == d.card_id && e.title == d.title && e.description == d.description
                &&& e.step == d.step
                &&& d.step == EditCardStep::Priority ==> follows(d.priority, e.priority)
                &&& d.step != EditCardStep::Priority ==> e.priority == d.priority
            }),
{
}

/// Law: opening the edit form on the selected card fills it with that
/// card's own id, title, description and priority, on the title step, and
/// leaves the board alone.
pub proof fn law_edit_form_starts_from_selected_card(v: AppView)
    requires
        v.mode is Normal,
        v.board.selected_card() is Some,
    ensures
        ({
            let c = v.board.selected_card().unwrap();
            let (opened, changed) = v.step(Command::StartEditCard);
            let d = opened.mode->EditCard_0;
            &&& !changed && opened.board == v.board && opened.mode is EditCard
            &&& d.card_id == c.id && d.title == c.title && d.description == c.description
            &&& d.priority == c.priority && d.step == EditCardStep::Title
        }),
{
}

/// Law: confirming the edit form on its priority step stores the form on
/// the first card that carries its id: the trimmed title and description
/// and the chosen priority, the card keeping its id and column, every other
/// card untouched. When no card carries the id, nothing changes on the
/// board. Either way the form closes.
pub proof fn law_edit_form_confirm_stores_form(v: AppView)
    requires
        v.mode is EditCard,
        v.mode->EditCard_0.step == EditCardStep::Priority,
    ensures
        ({
            let d = v.mode->EditCard_0;
            let (saved, changed) = v.step(Command::ConfirmInput);
            let cards = v.board.cards;
            let i = index_of_id(cards, d.card_id);
            &&& saved.mode == ModeView::Normal
            &&& (exists|j: int| 0 <= j < cards.len() && cards[j].id == d.card_id) ==> {
                &&& changed
                &&& saved.board.cards.len() == cards.len()
                &&& 0 <= i < cards.len() && cards[i].id == d.card_id
                &&& saved.board.cards[i].id == cards[i].id
                &&& saved.board.cards[i].column == cards[i].column
                &&& saved.board.cards[i].title == trim_spec(d.title)
                &&& saved.board.cards[i].description == trim_spec(d.description)
                &&& saved.board.cards[i].priority == d.priority
                &&& forall|k: int| 0 <= k < cards.len() && k != i ==> saved.board.cards[k] == cards[k]
            }
            &&& (forall|j: int| 0 <= j < cards.len() ==> cards[j].id != d.card_id) ==> !changed
                && saved.board == v.board
        }),
{
    let d = v.mode->EditCard_0;
    let cards = v.board.cards;
    if exists|j: int| 0 <= j < cards.len() && cards[j].id == d.card_id {
        let j = choose|j: int| 0 <= j < cards.len() && cards[j].id == d.card_id;
        crate::model::lemma_index_of_id_found(cards, d.card_id, j);
    } else {
        crate::model::lemma_index_of_id_absent(cards, d.card_id);
    }
}

/// Law: confirming the new-card form on its priority step appends one card
/// to the board: the trimmed title and description, the chosen priority,
/// the selected column, and an id above every id on the board; every other
/// card stays as it was, and the form closes.
pub proof fn law_add_form_confirm_appends_card(v: AppView)
    requires
        v.mode is AddCard,
        v.mode->AddCard_0.step == AddCardStep::Priority,
        !v.command_overflows(Command::ConfirmInput),
    ensures
        ({
            let d = v.mode->AddCard_0;
            let (saved, changed) = v.step(Command::ConfirmInput);
            let cards = v.board.cards;
            let n = cards.len();
            &&& changed
            &&& saved.mode == ModeView::Normal
            &&& saved.board.cards.len() == n + 1
            &&& forall|k: int| 0 <= k < n ==> saved.board.cards[k] == cards[k]
            &&& saved.board.cards[n as int].title == trim_spec(d.title)
            &&& saved.board.cards[n as int].description == trim_spec(d.description)
            &&& saved.board.cards[n as int].priority == d.priority
            &&& saved.board.cards[n as int].column == v.board.selected_column
            &&& forall|k: int| 0 <= k < n ==> cards[k].id < saved.board.cards[n as int].id
        }),
{
    lemma_max_id_bounds(v.board.cards);
}

/// Law: opening the edit form on the selected card and confirming its
/// three steps without typing stores the card's own content back, trimmed:
/// when no two cards share an id, only that card changes, keeping its id,
/// column and priority, and a card whose text has no surrounding white
/// space comes out exactly as it was.
pub proof fn law_edit_without_typing_keeps_card(v: AppView)
    requires
        v.mode is Normal,
        v.board.selected_card() is Some,
        !is_blank_spec(v.board.selected_card().unwrap().title),
        ids_unique(v.board.cards),
    ensures
        ({
            let c = v.board.selected_card().unwrap();
            let v1 = v.step(Command::StartEditCard).0;
            let v2 = v1.step(Command::ConfirmInput).0;
            let v3 = v2.step(Command::ConfirmInput).0;
            let (v4, changed) = v3.step(Command::ConfirmInput);
            let cards = v.board.cards;
            &&& changed
            &&& v4.mode == ModeView::Normal
            &&& v4.board.cards.len() == cards.len()
            &&& forall|k: int| 0 <= k < cards.len() ==> (#[trigger] v4.board.cards[k]) == (if cards[k].id == c.id {
                CardView {
                    id: c.id,
                    title: trim_spec(c.title),
                    description: trim_spec(c.description),
                    priority: c.priority,
                    column: c.column,
                }
            } else {
                cards[k]
            })
            &&& trim_spec(c.title) == c.title && trim_spec(c.description) == c.description
                ==> v4.board.cards == cards
        }),
{
    let c = v.board.selected_card().unwrap();
    let cards = v.board.cards;
    lemma_selected_on_board(v.board);
    let i = index_of_id(cards, c.id);
    let j = choose|j: int| 0 <= j < cards.len() && cards[j] == c;
    assert(i == j) by {
        if i != j {
            assert(cards[i].id == cards[j].id);
        }
    }
    let v4 = v.step(Command::StartEditCard).0.step(Command::ConfirmInput).0.step(Command::ConfirmInput).0.step(
        Command::ConfirmInput,
    ).0;
    assert forall|k: int| 0 <= k < cards.len() implies (#[trigger] v4.board.cards[k]) == (if cards[k].id == c.id {
        CardView {
            id: c.id,
            title: trim_spec(c.title),
            description: trim_spec(c.description),
            priority: c.priority,
            column: c.column,
        }
    } else {
        cards[k]
    }) by {
        if k != i {
            assert(cards[k].id != cards[i].id);
        }
    }
    if trim_spec(c.title) == c.title && trim_spec(c.description) == c.description {
        assert(v4.board.cards =~= cards);
    }
}

/// `b` follows `a` in the cycle Todo, Doing, Done, Todo.
pub open spec fn column_follows(a: Column, b: Column) -> bool {
    ||| a == Column::Todo && b == Column::Doing
    ||| a == Column::Doing && b == Column::Done
    ||| a == Column::Done && b == Column::Todo
}

/// Law: the board commands without a selected card change nothing on the
/// board and report nothing; Quit asks to quit, the help key flips the
/// help, and the add key opens an empty new-card form (medium priority, on
/// the title step); none of these touch the board.
pub proof fn law_simple_board_commands(v: AppView)
    requires
        v.mode is Normal,
    ensures
        ({
            let (w, changed) = v.step(Command::Quit);
            !changed && w.should_quit && w.board == v.board && w.mode == v.mode
        }),
        ({
            let (w, changed) = v.step(Command::ToggleHelp);
            !changed && w.show_help == !v.show_help && w.board == v.board && w.should_quit == v.should_quit
        }),
        ({
            let (w, changed) = v.step(Command::AddCard);
            let d = w.mode->AddCard_0;
            &&& !changed && w.board == v.board && w.mode is AddCard
            &&& d.title.len() == 0 && d.description.len() == 0
            &&& d.priority == Priority::Medium && d.step == AddCardStep::Title
        }),
        v.board.selected_card() is None ==> {
            &&& !v.step(Command::MoveCardForward).1 && v.step(Command::MoveCardForward).0.board == v.board
            &&& !v.step(Command::DeleteCard).1 && v.step(Command::DeleteCard).0.board == v.board
            &&& !v.step(Command::CycleSelectedPriority).1 && v.step(Command::CycleSelectedPriority).0.board
                == v.board
            &&& v.step(Command::StartEditCard).0.board == v.board
            &&& v.step(Command::StartEditCard).0.mode is Normal
        },
{
}

/// Law: moving the selected card forward puts the first card with its id
/// in the next column (Todo, Doing, Done, Todo) and changes nothing else
/// on any card; cycling its priority sets that card's priority to the next
/// one (Low, Medium, High, Low) and changes nothing else. Both report a
/// change.
pub proof fn law_selected_card_commands(v: AppView)
    requires
        v.mode is Normal,
        v.board.selected_card() is Some,
    ensures
        ({
            let c = v.board.selected_card().unwrap();
            let cards = v.board.cards;
            let i = index_of_id(cards, c.id);
            let (moved, changed) = v.step(Command::MoveCardForward);
            &&& changed
            &&& 0 <= i < cards.len() && cards[i].id == c.id
            &&& moved.board.cards.len() == cards.len()
            &&& column_follows(cards[i].column, moved.board.cards[i].column)
            &&& moved.board.cards[i].id == cards[i].id && moved.board.cards[i].title == cards[i].title
            &&& moved.board.cards[i].description == cards[i].description
            &&& moved.board.cards[i].priority == cards[i].priority
            &&& forall|k: int| 0 <= k < cards.len() && k != i ==> moved.board.cards[k] == cards[k]
            &&& moved.board.selection_valid()
        }),
        ({
            let c = v.board.selected_card().unwrap();
            let cards = v.board.cards;
            let i = index_of_id(cards, c.id);
            let (cycled, changed) = v.step(Command::CycleSelectedPriority);
            &&& changed
            &&& cycled.board.cards.len() == cards.len()
            &&& follows(cards[i].priority, cycled.board.cards[i].priority)
            &&& cycled.board.cards[i].id == cards[i].id && cycled.board.cards[i].title == cards[i].title
            &&& cycled.board.cards[i].description == cards[i].description
            &&& cycled.board.cards[i].column == cards[i].column
            &&& forall|k: int| 0 <= k < cards.len() && k != i ==> cycled.board.cards[k] == cards[k]
            &&& cycled.board.selected_column == v.board.selected_column
            &&& cycled.board.selected_index == v.board.selected_index
        }),
{
    lemma_selected_on_board(v.board);
}

/// Law: deleting the selected card leaves no card with its id, keeps every
/// card with another id, in order, and reports a change.
pub proof fn law_delete_command(v: AppView)
    requires
        v.mode is Normal,
        v.board.selected_card() is Some,
    ensures
        ({
            let c = v.board.selected_card().unwrap();
            let cards = v.board.cards;
            let (after, changed) = v.step(Command::DeleteCard);
            &&& changed
            &&& after.board.selection_valid()
            &&& forall|k: int| 0 <= k < after.board.cards.len() ==> after.board.cards[k].id != c.id
            &&& after.board.cards == cards.filter(|x: CardView| x.id != c.id)
            &&& forall|k: int| 0 <= k < cards.len() && cards[k].id != c.id ==> after.board.cards.contains(cards[k])
            &&& forall|k: int| 0 <= k < after.board.cards.len() ==> cards.contains(after.board.cards[k])
        }),
{
    let c = v.board.selected_card().unwrap();
    let cards = v.board.cards;
    let p = crate::model::id_differs(c.id);
    let after = v.step(Command::DeleteCard).0;
    assert(p =~= (|x: CardView| x.id != c.id));
    assert forall|k: int| 0 <= k < after.board.cards.len() implies after.board.cards[k].id != c.id by {
        cards.lemma_filter_pred(p, k);
    }
    assert forall|k: int| 0 <= k < cards.len() && cards[k].id != c.id implies after.board.cards.contains(cards[k]) by {
        cards.lemma_filter_contains(p, k);
    }
    assert forall|k: int| 0 <= k < after.board.cards.len() implies cards.contains(after.board.cards[k]) by {
        assert(after.board.cards.contains(after.board.cards[k]));
        cards.lemma_filter_contains_rev(p, after.board.cards[k]);
    }
}

/// Law: the title and description steps of both forms. Confirming a blank
/// title keeps the form on the title step and says a title is required;
/// confirming a title that is not blank goes on to the description, and
/// confirming the description goes on to the priority. The text and the
/// board stay as they are, and nothing is reported. Cancelling, or the quit
/// key, closes a form without quitting.
pub proof fn law_form_steps(v: AppView)
    requires
        v.is_input_mode(),
    ensures
        v.mode is AddCard ==> ({
            let d = v.mode->AddCard_0;
            let (w, changed) = v.step(Command::ConfirmInput);
            let e = w.mode->AddCard_0;
            &&& d.step == AddCardStep::Title && is_blank_spec(d.title) ==> !changed && w.board == v.board
                && w.mode == v.mode && w.status == "Title is required"@
            &&& d.step == AddCardStep::Title && !is_blank_spec(d.title) ==> !changed && w.board == v.board
                && w.mode is AddCard && e.step == AddCardStep::Description && e.title == d.title
                && e.description == d.description && e.priority == d.priority
            &&& d.step == AddCardStep::Description ==> !changed && w.board == v.board && w.mode is AddCard
                && e.step == AddCardStep::Priority && e.title == d.title && e.description == d.description
                && e.priority == d.priority
        }),
        v.mode is EditCard ==> ({
            let d = v.mode->EditCard_0;
            let (w, changed) = v.step(Command::ConfirmInput);
            let e = w.mode->EditCard_0;
            &&& d.step == EditCardStep::Title && is_blank_spec(d.title) ==> !changed && w.board == v.board
                && w.mode == v.mode && w.status == "Title is required"@
            &&& d.step == EditCardStep::Title && !is_blank_spec(d.title) ==> !changed && w.board == v.board
                && w.mode is EditCard && e.step == EditCardStep::Description && e.title == d.title
                && e.description == d.description && e.priority == d.priority && e.card_id == d.card_id
            &&& d.step == EditCardStep::Description ==> !changed && w.board == v.board && w.mode is EditCard
                && e.step == EditCardStep::Priority && e.title == d.title && e.description == d.description
                && e.priority == d.priority && e.card_id == d.card_id
        }),
        v.step(Command::CancelInput).0.mode == ModeView::Normal,
        v.step(Command::Quit).0.mode == ModeView::Normal,
        v.step(Command::Quit).0.should_quit == v.should_quit,
{
}

/// The number that decimal digits stand for.
pub open spec fn digits_value(s: Seq<char>) -> nat
    decreases s.len(),
{
    if s.len() == 0 {
        0
    } else {
        digits_value(s.drop_last()) * 10 + ((s.last() as nat) - 48) as nat
    }
}

/// Law: the decimal notation of a number is made of the digits 0 to 9,
/// starts with a digit other than 0 unless the number is 0, and reads back
/// as the number.
pub proof fn law_decimal_reads_back(n: nat)
    ensures
        decimal(n).len() > 0,
        forall|k: int| 0 <= k < decimal(n).len() ==> '0' <= #[trigger] decimal(n)[k] <= '9',
        n > 0 ==> decimal(n)[0] != '0',
        digits_value(decimal(n)) == n,
    decreases n,
{
    if n < 10 {
        assert(decimal(n) =~= seq![digit_char(n)]);
        assert(seq![digit_char(n)].drop_last() =~= Seq::<char>::empty());
        assert(digit_char(n) as nat == 48 + n);
        assert(digits_value(Seq::<char>::empty()) == 0);
    } else {
        law_decimal_reads_back(n / 10);
        let s = decimal(n);
        let t = decimal(n / 10);
        assert(s == t.push(digit_char(n % 10)));
        assert(s.drop_last() =~= t);
        assert forall|k: int| 0 <= k < s.len() implies '0' <= #[trigger] s[k] <= '9' by {
            if k < t.len() {
                assert(s[k] == t[k]);
            }
        }
        assert(s[0] == t[0]);
        assert(n == (n / 10) * 10 + n % 10);
        assert(digit_char(n % 10) as nat == 48 + n % 10);
    }
}

proof fn lemma_trim_start_shape(s: Seq<char>)
    ensures
        exists|a: int| #![trigger s.subrange(a, s.len() as int)]
            0 <= a <= s.len() && trim_start_spec(s) == s.subrange(a, s.len() as int)
                && (forall|k: int| 0 <= k < a ==> is_white_space(#[trigger] s[k])),
    decreases s.len(),
{
    if s.len() > 0 && is_white_space(s[0]) {
        let t = s.drop_first();
        lemma_trim_start_shape(t);
        let a = choose|a: int| #![trigger t.subrange(a, t.len() as int)]
            0 <= a <= t.len() && trim_start_spec(t) == t.subrange(a, t.len() as int)
                && (forall|k: int| 0 <= k < a ==> is_white_space(#[trigger] t[k]));
        assert(t.subrange(a, t.len() as int) =~= s.subrange(a + 1, s.len() as int));
        assert forall|k: int| 0 <= k < a + 1 implies is_white_space(#[trigger] s[k]) by {
            if k > 0 {
                assert(s[k] == t[k - 1]);
            }
        }
    } else {
        assert(s.subrange(0, s.len() as int) =~= s);
    }
}

proof fn lemma_trim_end_shape(s: Seq<char>)
    ensures
        exists|b: int| #![trigger s.subrange(0, b)]
            0 <= b <= s.len() && trim_end_spec(s) == s.subrange(0, b)
                && (forall|k: int| b <= k < s.len() ==> is_white_space(#[trigger] s[k])),
    decreases s.len(),
{
    if s.len() > 0 && is_white_space(s.last()) {
        let t = s.drop_last();
        lemma_trim_end_shape(t);
        let b = choose|b: int| #![trigger t.subrange(0, b)]
            0 <= b <= t.len() && trim_end_spec(t) == t.subrange(0, b)
                && (forall|k: int| b <= k < t.len() ==> is_white_space(#[trigger] t[k]));
        assert(t.subrange(0, b) =~= s.subrange(0, b));
        assert forall|k: int| b <= k < s.len() implies is_white_space(#[trigger] s[k]) by {
            if k < t.len() {
                assert(s[k] == t[k]);
            }
        }
    } else {
        assert(s.subrange(0, s.len() as int) =~= s);
    }
}

proof fn lemma_trim_start_first(s: Seq<char>)
    ensures
        trim_start_spec(s).len() > 0 ==> !is_white_space(trim_start_spec(s)[0]),
    decreases s.len(),
{
    if s.len() > 0 && is_white_space(s[0]) {
        lemma_trim_start_first(s.drop_first());
    }
}

proof fn lemma_trim_end_last(s: Seq<char>)
    ensures
        trim_end_spec(s).len() > 0 ==> !is_white_space(trim_end_spec(s).last()),
        trim_end_spec(s).len() > 0 && s.len() > 0 ==> trim_end_spec(s)[0] == s[0],
    decreases s.len(),
{
    if s.len() > 0 && is_white_space(s.last()) {
        lemma_trim_end_last(s.drop_last());
    }
}

/// Law: trimming keeps a stretch of the text from some position `a` up to
/// some position `b`; everything before `a` and from `b` on is white space,
/// and the kept stretch neither starts nor ends with white space.
pub proof fn law_trim_keeps_the_inner_stretch(s: Seq<char>)
    ensures
        exists|a: int, b: int| #![trigger s.subrange(a, b)]
            0 <= a <= b <= s.len() && trim_spec(s) == s.subrange(a, b)
                && (forall|k: int| 0 <= k < a ==> is_white_space(#[trigger] s[k]))
                && (forall|k: int| b <= k < s.len() ==> is_white_space(#[trigger] s[k])),
        trim_spec(s).len() > 0 ==> !is_white_space(trim_spec(s)[0]) && !is_white_space(trim_spec(s).last()),
{
    lemma_trim_start_shape(s);
    let a = choose|a: int| #![trigger s.subrange(a, s.len() as int)]
        0 <= a <= s.len() && trim_start_spec(s) == s.subrange(a, s.len() as int)
            && (forall|k: int| 0 <= k < a ==> is_white_space(#[trigger] s[k]));
    let t = trim_start_spec(s);
    lemma_trim_end_shape(t);
    let b = choose|b: int| #![trigger t.subrange(0, b)]
        0 <= b <= t.len() && trim_end_spec(t) == t.subrange(0, b)
            && (forall|k: int| b <= k < t.len() ==> is_white_space(#[trigger] t[k]));
    assert(t.subrange(0, b) =~= s.subrange(a, a + b));
    assert forall|k: int| a + b <= k < s.len() implies is_white_space(#[trigger] s[k]) by {
        assert(s[k] == t[k - a]);
    }
    assert(trim_spec(s) == s.subrange(a, a + b));
    lemma_trim_start_first(s);
    lemma_trim_end_last(t);
}

/// Law: a percentage lies within one unit below the exact share: the
/// result times the total is at most a hundred times the value, and one
/// more would exceed it; a value up to the total gives at most 100.
pub proof fn law_percent_is_rounded_down_share(value: usize, total: usize)
    requires
        total > 0,
        value * 100 <= usize::MAX,
    ensures
        percent_spec(value, total) * total <= value * 100 < (percent_spec(value, total) + 1) * total,
        value <= total ==> percent_spec(value, total) <= 100,
{
    let x = value * 100;
    let t = total as int;
    assert(saturated_product(value, 100) == x);
    let q = x / t;
    assert(q * t <= x < (q + 1) * t) by (nonlinear_arith)
        requires
            t > 0,
            x >= 0,
            q == x / t,
    ;
    if value <= total {
        assert(q <= 100) by (nonlinear_arith)
            requires
                t > 0,
                x == value * 100,
                value <= t,
                q == x / t,
        ;
    }
}

/// Law: when the value is at most the total, the filled and the empty part
/// of a progress bar add up to its width; something to show gives at least
/// one filled cell, and nothing to show gives none.
pub proof fn law_progress_bar_fills_width(value: usize, total: usize, width: usize)
    requires
        width > 0,
        value <= total,
    ensures
        progress_fill_spec(value, total, width) is Some,
        ({
            let (filled, empty) = progress_fill_spec(value, total, width).unwrap();
            &&& filled + empty == width
            &&& (value > 0 && total > 0 ==> filled >= 1)
            &&& (value == 0 || total == 0 ==> filled == 0)
        }),
{
    if total > 0 && value > 0 {
        let p = saturated_product(value, width);
        assert(p <= value * width);
        assert(value * width <= total * width) by (nonlinear_arith)
            requires
                value <= total,
                width > 0,
        ;
        assert(p / (total as nat) <= width) by (nonlinear_arith)
            requires
                p <= total * width,
                total > 0,
        ;
    }
}

/// Law: the centred rectangle is no wider and no taller than the bounds
/// and the area (but at least one cell), and is centred: it leaves equal
/// margins on both sides, the right or lower one wider by at most a cell.
pub proof fn law_center_rect_is_centred(area: Rect, max_width: u16, max_height: u16)
    requires
        max_width >= 1,
        max_height >= 1,
        area.width >= 1,
        area.height >= 1,
        area.x + area.width <= u16::MAX,
        area.y + area.height <= u16::MAX,
    ensures
        ({
            let r = bounded_center_spec(area, max_width, max_height);
            &&& 1 <= r.width <= max_width && r.width <= area.width
            &&& 1 <= r.height <= max_height && r.height <= area.height
            &&& r.x >= area.x && r.y >= area.y
            &&& (r.x - area.x) <= (area.x + area.width) - (r.x + r.width) <= (r.x - area.x) + 1
            &&& (r.y - area.y) <= (area.y + area.height) - (r.y + r.height) <= (r.y - area.y) + 1
        }),
{
}

/// Law: when no two cards share an id, the selected card's place in its
/// column's list (where the list marks it) is the selection itself.
pub proof fn law_selected_item_is_the_selection(b: BoardView)
    requires
        ids_unique(b.cards),
        b.selected_card() is Some,
    ensures
        index_of_id(column_cards(b.cards, b.selected_column), b.selected_card().unwrap().id)
            == b.selected_index,
{
    let list = column_cards(b.cards, b.selected_column);
    let c = b.selected_card().unwrap();
    lemma_filter_ids_unique(b.cards, in_column(b.selected_column));
    let i = b.selected_index as int;
    assert(list[i] == c);
    assert(is_first_with_id(list, c.id, i)) by {
        assert forall|j: int| 0 <= j < i implies list[j].id != c.id by {
            assert(list[j].id != list[i].id);
        }
    }
    lemma_index_of_id_unique(list, c.id, i);
}

} // verus!
