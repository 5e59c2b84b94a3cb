use vstd::prelude::*;

use crate::app::{AddCardStep, AppView, Command, EditCardStep, ModeView};
use crate::input::{key_command, KeyEvent, KeyEventKind};
use crate::model::{
    column_cards, ids_unique, in_column, index_of_id, is_first_with_id, lemma_filter_ids_unique,
    lemma_filter_titles, lemma_filter_update_len, lemma_max_id_bounds, lemma_selected_on_board,
    max_id, next_id, spec_column_at_index, spec_column_index, spec_next_column,
    spec_next_priority, titles_present, with_column, with_content, with_priority, BoardView,
    CardView, Column, Priority,
};
use crate::text::{
    is_white_space, split_state, is_blank_spec, lemma_trim_blank, lemma_utf8_len_add, lemma_utf8_len_char, trim_spec, utf8_len,
    words_of,
};
use crate::ui::{wrap_spec, wrap_state};

verus! {

/// Replacing the card at `i` by one in the same column keeps the number of
/// cards in every column.
proof fn lemma_same_column_counts(cards: Seq<CardView>, i: int, c: CardView, column: Column)
    requires
        0 <= i < cards.len(),
        c.column == cards[i].column,
    ensures
        column_cards(cards.update(i, c), column).len() == column_cards(cards, column).len(),
{
    lemma_filter_update_len(cards, i, c, in_column(column));
}

/// The position that `index_of_id` gives, when it gives one, is a card that
/// carries the id.
proof fn lemma_index_of_id_in_range(cards: Seq<CardView>, id: u64)
    ensures
        index_of_id(cards, id) >= 0 ==> is_first_with_id(cards, id, index_of_id(cards, id)),
        index_of_id(cards, id) >= -1,
{
}

/// The board after an edit has as many cards in each column as before.
proof fn lemma_update_keeps_counts(
    b: BoardView,
    id: u64,
    title: Seq<char>,
    description: Seq<char>,
    priority: Priority,
)
    ensures
        b.after_update(id, title, description, priority).selected_cards().len() == b.selected_cards().len(),
        b.after_update(id, title, description, priority).selected_column == b.selected_column,
        b.after_update(id, title, description, priority).selected_index == b.selected_index,
{
    lemma_index_of_id_in_range(b.cards, id);
    let i = index_of_id(b.cards, id);
    if i >= 0 {
        lemma_same_column_counts(b.cards, i, with_content(b.cards[i], title, description, priority), b.selected_column);
    }
}

/// Law: every command keeps the selection valid: it points at a card of the
/// selected column, or at 0 when that column is empty.
pub proof fn law_selection_stays_valid(v: AppView, command: Command)
    requires
        v.board.selection_valid(),
    ensures
        v.step(command).0.board.selection_valid(),
{
    let b = v.board;
    match v.mode {
        ModeView::Normal => {
            if command == Command::CycleSelectedPriority && b.selected_card() is Some {
                lemma_selected_on_board(b);
                let i = index_of_id(b.cards, b.selected_card().unwrap().id);
                lemma_same_column_counts(
                    b.cards,
                    i,
                    with_priority(b.cards[i], spec_next_priority(b.cards[i].priority)),
                    b.selected_column,
                );
            }
        },
        ModeView::AddCard(_) => {},
        ModeView::EditCard(d) => {
            lemma_update_keeps_counts(b, d.card_id, trim_spec(d.title), trim_spec(d.description), d.priority);
        },
    }
}

/// Replacing the card at `i` by one with the same id keeps ids apart.
proof fn lemma_same_id_unique(cards: Seq<CardView>, i: int, c: CardView)
    requires
        0 <= i < cards.len(),
        c.id == cards[i].id,
        ids_unique(cards),
    ensures
        ids_unique(cards.update(i, c)),
{
    let u = cards.update(i, c);
    assert forall|j: int, k: int| 0 <= j < u.len() && 0 <= k < u.len() && j != k implies u[j].id != u[k].id by {
        assert(u[j].id == cards[j].id && u[k].id == cards[k].id);
    }
}

/// Law: no command gives two cards the same id. A new card gets an id above
/// every id on the board; deleting, moving, re-prioritising and editing keep
/// every id. (Left out: creating a card when the largest id is `u64::MAX`,
/// on which the id would overflow.)
pub proof fn law_ids_stay_unique(v: AppView, command: Command)
    requires
        ids_unique(v.board.cards),
        !v.command_overflows(command),
    ensures
        ids_unique(v.step(command).0.board.cards),
{
    let b = v.board;
    match v.mode {
        ModeView::Normal => {
            if b.selected_card() is Some {
                lemma_selected_on_board(b);
                let c = b.selected_card().unwrap();
                let i = index_of_id(b.cards, c.id);
                if command == Command::CycleSelectedPriority {
                    lemma_same_id_unique(b.cards, i, with_priority(b.cards[i], spec_next_priority(b.cards[i].priority)));
                }
                if command == Command::MoveCardForward {
                    lemma_same_id_unique(b.cards, i, with_column(b.cards[i], spec_next_column(b.cards[i].column)));
                }
                if command == Command::DeleteCard {
                    lemma_filter_ids_unique(b.cards, crate::model::id_differs(c.id));
                }
            }
        },
        ModeView::AddCard(d) => {
            if command == Command::ConfirmInput && d.step == AddCardStep::Priority {
                lemma_max_id_bounds(b.cards);
                let after = v.step(command).0.board.cards;
                assert forall|j: int, k: int| 0 <= j < after.len() && 0 <= k < after.len() && j != k
                    implies after[j].id != after[k].id by {
                    if j < b.cards.len() && k < b.cards.len() {
                        assert(after[j] == b.cards[j] && after[k] == b.cards[k]);
                    } else if j < b.cards.len() {
                        assert(after[j] == b.cards[j]);
                        assert(after[k].id == next_id(b.cards));
                    } else {
                        assert(after[k] == b.cards[k]);
                        assert(after[j].id == next_id(b.cards));
                    }
                }
            }
        },
        ModeView::EditCard(d) => {
            lemma_index_of_id_in_range(b.cards, d.card_id);
            let i = index_of_id(b.cards, d.card_id);
            if i >= 0 {
                lemma_same_id_unique(
                    b.cards,
                    i,
                    with_content(b.cards[i], trim_spec(d.title), trim_spec(d.description), d.priority),
                );
            }
        },
    }
}

impl AppView {
    /// A form that has passed its title step holds a title that is not blank.
    pub open spec fn drafts_consistent(self) -> bool {
        match self.mode {
            ModeView::Normal => true,
            ModeView::AddCard(d) => d.step != AddCardStep::Title ==> !is_blank_spec(d.title),
            ModeView::EditCard(d) => d.step != EditCardStep::Title ==> !is_blank_spec(d.title),
        }
    }
}

/// Replacing the card at `i` by one with a title that is not blank keeps
/// every title present.
proof fn lemma_titled_update(cards: Seq<CardView>, i: int, c: CardView)
    requires
        0 <= i < cards.len(),
        !is_blank_spec(c.title),
        titles_present(cards),
    ensures
        titles_present(cards.update(i, c)),
{
    let u = cards.update(i, c);
    assert forall|j: int| 0 <= j < u.len() implies !is_blank_spec(#[trigger] u[j].title) by {
        if j != i {
            assert(u[j] == cards[j]);
        }
    }
}

/// Law: the application never puts a card with a blank title on the board,
/// so every board it reaches from a board that passes `validate_board`
/// passes it too; and a form that has passed its title step keeps a title
/// that is not blank.
pub proof fn law_titles_stay_present(v: AppView, command: Command)
    requires
        titles_present(v.board.cards),
        v.drafts_consistent(),
    ensures
        titles_present(v.step(command).0.board.cards),
        v.step(command).0.drafts_consistent(),
{
    let b = v.board;
    match v.mode {
        ModeView::Normal => {
            if b.selected_card() is Some {
                lemma_selected_on_board(b);
                let c = b.selected_card().unwrap();
                let i = index_of_id(b.cards, c.id);
                if command == Command::CycleSelectedPriority {
                    lemma_titled_update(b.cards, i, with_priority(b.cards[i], spec_next_priority(b.cards[i].priority)));
                }
                if command == Command::MoveCardForward {
                    lemma_titled_update(b.cards, i, with_column(b.cards[i], spec_next_column(b.cards[i].column)));
                }
                if command == Command::DeleteCard {
                    lemma_filter_titles(b.cards, crate::model::id_differs(c.id));
                }
                if command == Command::StartEditCard {
                    assert(!is_blank_spec(c.title)) by {
                        let j = choose|j: int| 0 <= j < b.cards.len() && b.cards[j] == c;
                        assert(!is_blank_spec(b.cards[j].title));
                    }
                }
            }
        },
        ModeView::AddCard(d) => {
            if command == Command::ConfirmInput && d.step == AddCardStep::Priority {
                lemma_trim_blank(d.title);
                let after = v.step(command).0.board.cards;
                assert forall|j: int| 0 <= j < after.len() implies !is_blank_spec(#[trigger] after[j].title) by {
                    if j < b.cards.len() {
                        assert(after[j] == b.cards[j]);
                    }
                }
            }
        },
        ModeView::EditCard(d) => {
            if command == Command::ConfirmInput && d.step == EditCardStep::Priority {
                lemma_trim_blank(d.title);
                lemma_index_of_id_in_range(b.cards, d.card_id);
                let i = index_of_id(b.cards, d.card_id);
                if i >= 0 {
                    lemma_titled_update(
                        b.cards,
                        i,
                        with_content(b.cards[i], trim_spec(d.title), trim_spec(d.description), d.priority),
                    );
                }
            }
        },
    }
}

/// Law: a command that reports no change worth saving leaves the cards as
/// they were (it may still move the selection or open a form).
pub proof fn law_unreported_changes_keep_cards(v: AppView, command: Command)
    ensures
        !v.step(command).1 ==> v.step(command).0.board.cards == v.board.cards,
{
}

/// Law: cancelling a form returns to the board, which it leaves as it was,
/// and reports no change.
pub proof fn law_cancel_keeps_board(v: AppView)
    requires
        v.is_input_mode(),
    ensures
        v.step(Command::CancelInput).0.board == v.board,
        v.step(Command::CancelInput).0.mode == ModeView::Normal,
        !v.step(Command::CancelInput).1,
{
}

/// Law: a key that repeats or is released does nothing.
pub proof fn law_only_presses_act(v: AppView, key: KeyEvent)
    requires
        key.kind != KeyEventKind::Press,
    ensures
        v.step(key_command(key, v.is_input_mode())) == (v, false),
{
}

/// Law: moving a card forward three times brings it back to its column, and
/// cycling a priority three times brings it back to where it was.
pub proof fn law_cycles_have_period_three(column: Column, priority: Priority)
    ensures
        spec_next_column(spec_next_column(spec_next_column(column))) == column,
        spec_next_priority(spec_next_priority(spec_next_priority(priority))) == priority,
{
}

/// Law: a column's place in the fixed order leads back to the column.
pub proof fn law_column_index_round_trip(column: Column)
    ensures
        spec_column_at_index(spec_column_index(column)) == column,
        spec_column_index(column) < 3,
{
}

/// Law: every card stands in exactly one column, so the three column
/// counts add up to the number of cards.
pub proof fn law_column_counts_add_up(cards: Seq<CardView>)
    ensures
        column_cards(cards, Column::Todo).len() + column_cards(cards, Column::Doing).len()
            + column_cards(cards, Column::Done).len() == cards.len(),
    decreases cards.len(),
{
    if cards.len() > 0 {
        let t = cards.drop_last();
        let x = cards.last();
        law_column_counts_add_up(t);
        assert(cards =~= t.push(x));
        t.lemma_filter_push(x, in_column(Column::Todo));
        t.lemma_filter_push(x, in_column(Column::Doing));
        t.lemma_filter_push(x, in_column(Column::Done));
    } else {
        assert(column_cards(cards, Column::Todo).len() == 0) by {
            reveal(Seq::filter);
        }
        assert(column_cards(cards, Column::Doing).len() == 0) by {
            reveal(Seq::filter);
        }
        assert(column_cards(cards, Column::Done).len() == 0) by {
            reveal(Seq::filter);
        }
    }
}

/// Law: a new card's id is above every id on the board.
pub proof fn law_new_id_is_fresh(cards: Seq<CardView>)
    ensures
        forall|i: int| 0 <= i < cards.len() ==> cards[i].id < next_id(cards),
{
    lemma_max_id_bounds(cards);
}

/// Filtering out exactly one element shortens a sequence by one.
proof fn lemma_filter_drops_one<A>(s: Seq<A>, p: spec_fn(A) -> bool, k: int)
    requires
        0 <= k < s.len(),
        !p(s[k]),
        forall|j: int| 0 <= j < s.len() && j != k ==> p(s[j]),
    ensures
        s.filter(p).len() == s.len() - 1,
    decreases s.len(),
{
    reveal(Seq::filter);
    let t = s.drop_last();
    if k == s.len() - 1 {
        assert forall|j: int| 0 <= j < t.len() implies p(t[j]) by {
            assert(t[j] == s[j]);
        }
        assert(t.filter(p) =~= t) by {
            t.lemma_filter_len(p);
            lemma_filter_all(t, p);
        }
    } else {
        assert forall|j: int| 0 <= j < t.len() && j != k implies p(t[j]) by {
            assert(t[j] == s[j]);
        }
        assert(t[k] == s[k]);
        lemma_filter_drops_one(t, p, k);
    }
}

/// Filtering with a predicate that every element meets changes nothing.
proof fn lemma_filter_all<A>(s: Seq<A>, p: spec_fn(A) -> bool)
    requires
        forall|j: int| 0 <= j < s.len() ==> p(s[j]),
    ensures
        s.filter(p) == s,
    decreases s.len(),
{
    reveal(Seq::filter);
    if s.len() > 0 {
        let t = s.drop_last();
        assert forall|j: int| 0 <= j < t.len() implies p(t[j]) by {
            assert(t[j] == s[j]);
        }
        lemma_filter_all(t, p);
        assert(s =~= t.push(s.last()));
    } else {
        assert(s.filter(p) =~= s);
    }
}

/// Law: when no two cards share an id, deleting the selected card removes
/// exactly that one card.
pub proof fn law_delete_removes_one_card(b: BoardView)
    requires
        ids_unique(b.cards),
        b.selected_card() is Some,
    ensures
        b.after_delete().cards.len() == b.cards.len() - 1,
{
    lemma_selected_on_board(b);
    let c = b.selected_card().unwrap();
    let k = index_of_id(b.cards, c.id);
    lemma_filter_drops_one(b.cards, crate::model::id_differs(c.id), k);
}

/// Every line of a layout fits the width or is one of the words.
pub open spec fn line_fits(line: Seq<char>, max_width: nat, words: Seq<Seq<char>>) -> bool {
    utf8_len(line) <= max_width || words.contains(line)
}

proof fn lemma_wrap_state_fits(words: Seq<Seq<char>>, max_width: nat)
    ensures
        forall|i: int| 0 <= i < wrap_state(words, max_width).0.len()
            ==> line_fits(#[trigger] wrap_state(words, max_width).0[i], max_width, words),
        wrap_state(words, max_width).1.len() > 0 ==> line_fits(wrap_state(words, max_width).1, max_width, words),
    decreases words.len(),
{
    if words.len() > 0 {
        let t = words.drop_last();
        let w = words.last();
        lemma_wrap_state_fits(t, max_width);
        let (lines, current) = wrap_state(t, max_width);
        assert(words[words.len() - 1] == w);
        assert forall|l: Seq<char>| t.contains(l) implies words.contains(l) by {
            let j = choose|j: int| 0 <= j < t.len() && t[j] == l;
            assert(words[j] == l);
        }
        let next = wrap_state(words, max_width);
        assert(words.contains(w));
        assert(current + seq![' '] + w =~= current + (seq![' '] + w));
        lemma_utf8_len_add(current, seq![' '] + w);
        lemma_utf8_len_add(seq![' '], w);
        lemma_utf8_len_char(' ');
        assert forall|i: int| 0 <= i < next.0.len() implies line_fits(#[trigger] next.0[i], max_width, words) by {
            if i < lines.len() {
                assert(next.0[i] == lines[i]);
                assert(line_fits(lines[i], max_width, t));
            } else {
                assert(next.0[i] == current);
                assert(line_fits(current, max_width, t));
            }
        }
    }
}

/// Law: every line that `wrap_text` gives fits the width, unless it is a
/// single word that is wider than the width on its own.
pub proof fn law_wrapped_lines_fit(text: Seq<char>, max_width: nat)
    ensures
        forall|i: int| 0 <= i < wrap_spec(text, max_width).len()
            ==> line_fits(#[trigger] wrap_spec(text, max_width)[i], max_width, words_of(text)),
{
    if max_width > 0 {
        let words = words_of(text);
        lemma_wrap_state_fits(words, max_width);
        let (lines, current) = wrap_state(words, max_width);
        let all = if current.len() > 0 { lines.push(current) } else { lines };
        assert forall|i: int| 0 <= i < all.len() implies line_fits(#[trigger] all[i], max_width, words) by {
            if i < lines.len() {
                assert(all[i] == lines[i]);
            }
        }
        if all.len() == 0 {
            assert(utf8_len(Seq::<char>::empty()) == 0);
        }
    } else {
        assert(utf8_len(Seq::<char>::empty()) == 0);
    }
}

/// A word: not empty, and without white space.
pub open spec fn is_word(w: Seq<char>) -> bool {
    w.len() > 0 && forall|k: int| 0 <= k < w.len() ==> !is_white_space(#[trigger] w[k])
}

proof fn lemma_split_state_words(s: Seq<char>)
    ensures
        forall|i: int| 0 <= i < split_state(s).0.len() ==> is_word(#[trigger] split_state(s).0[i]),
        forall|k: int| 0 <= k < split_state(s).1.len() ==> !is_white_space(#[trigger] split_state(s).1[k]),
    decreases s.len(),
{
    if s.len() > 0 {
        lemma_split_state_words(s.drop_last());
        let (words, current) = split_state(s.drop_last());
        let c = s.last();
        if !is_white_space(c) {
            let next = current.push(c);
            assert forall|k: int| 0 <= k < next.len() implies !is_white_space(#[trigger] next[k]) by {
                if k < current.len() {
                    assert(next[k] == current[k]);
                }
            }
        } else if current.len() > 0 {
            let next = words.push(current);
            assert forall|i: int| 0 <= i < next.len() implies is_word(#[trigger] next[i]) by {
                if i < words.len() {
                    assert(next[i] == words[i]);
                }
            }
        }
    }
}

/// Every word of a text is a word: not empty, and without white space.
pub proof fn lemma_words_are_words(s: Seq<char>)
    ensures
        forall|i: int| 0 <= i < words_of(s).len() ==> is_word(#[trigger] words_of(s)[i]),
{
    lemma_split_state_words(s);
    let (words, current) = split_state(s);
    if current.len() > 0 {
        let all = words.push(current);
        assert forall|i: int| 0 <= i < all.len() implies is_word(#[trigger] all[i]) by {
            if i < words.len() {
                assert(all[i] == words[i]);
            }
        }
    }
}

/// Parts joined with one space between each two.
pub open spec fn joined(parts: Seq<Seq<char>>) -> Seq<char>
    decreases parts.len(),
{
    if parts.len() == 0 {
        Seq::empty()
    } else if parts.len() == 1 {
        parts[0]
    } else {
        joined(parts.drop_last()) + seq![' '] + parts.last()
    }
}

proof fn lemma_wrap_state_joined(words: Seq<Seq<char>>, max_width: nat)
    requires
        forall|i: int| 0 <= i < words.len() ==> is_word(#[trigger] words[i]),
    ensures
        words.len() == 0 ==> wrap_state(words, max_width).0.len() == 0 && wrap_state(words, max_width).1.len() == 0,
        words.len() > 0 ==> wrap_state(words, max_width).1.len() > 0
            && joined(wrap_state(words, max_width).0.push(wrap_state(words, max_width).1)) == joined(words),
    decreases words.len(),
{
    if words.len() > 0 {
        let t = words.drop_last();
        let w = words.last();
        assert forall|i: int| 0 <= i < t.len() implies is_word(#[trigger] t[i]) by {
            assert(t[i] == words[i]);
        }
        assert(is_word(words[words.len() - 1]));
        lemma_wrap_state_joined(t, max_width);
        let (lines, current) = wrap_state(t, max_width);
        let (lines2, current2) = wrap_state(words, max_width);
        if t.len() == 0 {
            assert(lines2.push(current2) =~= seq![w]);
        } else {
            assert(words.drop_last() == t);
            let before = lines.push(current);
            if lines2.len() > lines.len() {
                assert(lines2.push(current2).drop_last() =~= before);
            } else {
                assert(current2 == current + seq![' '] + w);
                if lines.len() == 0 {
                    assert(lines2.push(current2) =~= seq![current2]);
                    assert(before =~= seq![current]);
                } else {
                    assert(lines2.push(current2).drop_last() =~= lines);
                    assert(before.drop_last() =~= lines);
                    assert(joined(lines) + seq![' '] + current2 =~= joined(lines) + seq![' '] + current + seq![' '] + w);
                }
            }
        }
    }
}

/// Law: wrapping keeps every word of the text, in order: the lines joined
/// with single spaces are the words joined with single spaces.
pub proof fn law_wrapped_lines_keep_words(text: Seq<char>, max_width: nat)
    requires
        max_width > 0,
    ensures
        joined(wrap_spec(text, max_width)) == joined(words_of(text)),
{
    let words = words_of(text);
    lemma_words_are_words(text);
    lemma_wrap_state_joined(words, max_width);
    if words.len() == 0 {
        assert(wrap_spec(text, max_width) =~= seq![Seq::<char>::empty()]);
    }
}

/// The beginning of a line up to its first space: its first word.
pub open spec fn first_part(line: Seq<char>) -> Seq<char>
    decreases line.len(),
{
    if line.len() == 0 {
        line
    } else if line[0] == ' ' {
        Seq::empty()
    } else {
        seq![line[0]] + first_part(line.drop_first())
    }
}

proof fn lemma_first_part_append(a: Seq<char>, b: Seq<char>)
    ensures
        first_part(a + seq![' '] + b) == first_part(a),
    decreases a.len(),
{
    let whole = a + seq![' '] + b;
    if a.len() == 0 {
        assert(whole[0] == ' ');
    } else {
        assert(whole[0] == a[0]);
        if a[0] != ' ' {
            assert(whole.drop_first() =~= a.drop_first() + seq![' '] + b);
            lemma_first_part_append(a.drop_first(), b);
        }
    }
}

proof fn lemma_first_part_word(w: Seq<char>)
    requires
        forall|k: int| 0 <= k < w.len() ==> !is_white_space(#[trigger] w[k]),
    ensures
        first_part(w) == w,
    decreases w.len(),
{
    if w.len() > 0 {
        assert(!is_white_space(w[0]));
        assert forall|k: int| 0 <= k < w.drop_first().len() implies !is_white_space(#[trigger] w.drop_first()[k]) by {
            assert(w.drop_first()[k] == w[k + 1]);
        }
        lemma_first_part_word(w.drop_first());
        assert(w =~= seq![w[0]] + w.drop_first());
    }
}

/// Each line, with a space and the first word of the line after it, would
/// be wider than the width.
pub open spec fn greedy(lines: Seq<Seq<char>>, max_width: nat) -> bool {
    forall|i: int| 0 <= i < lines.len() - 1
        ==> utf8_len(#[trigger] lines[i]) + 1 + utf8_len(first_part(lines[i + 1])) > max_width
}

proof fn lemma_wrap_state_greedy(words: Seq<Seq<char>>, max_width: nat)
    requires
        forall|i: int| 0 <= i < words.len() ==> is_word(#[trigger] words[i]),
    ensures
        words.len() > 0 ==> greedy(wrap_state(words, max_width).0.push(wrap_state(words, max_width).1), max_width),
    decreases words.len(),
{
    if words.len() > 0 {
        let t = words.drop_last();
        let w = words.last();
        assert forall|i: int| 0 <= i < t.len() implies is_word(#[trigger] t[i]) by {
            assert(t[i] == words[i]);
        }
        assert(is_word(words[words.len() - 1]));
        lemma_wrap_state_greedy(t, max_width);
        lemma_wrap_state_joined(t, max_width);
        lemma_first_part_word(w);
        let (lines, current) = wrap_state(t, max_width);
        let (lines2, current2) = wrap_state(words, max_width);
        let all = lines2.push(current2);
        if t.len() > 0 {
            assert(words.drop_last() == t);
            let before = lines.push(current);
            if lines2.len() > lines.len() {
                assert(all =~= before.push(w));
                assert forall|i: int| 0 <= i < all.len() - 1 implies utf8_len(#[trigger] all[i]) + 1
                    + utf8_len(first_part(all[i + 1])) > max_width by {
                    if i < before.len() - 1 {
                        assert(all[i] == before[i] && all[i + 1] == before[i + 1]);
                    } else {
                        assert(all[i] == current && all[i + 1] == w);
                    }
                }
            } else {
                lemma_first_part_append(current, w);
                assert forall|i: int| 0 <= i < all.len() - 1 implies utf8_len(#[trigger] all[i]) + 1
                    + utf8_len(first_part(all[i + 1])) > max_width by {
                    assert(all[i] == before[i]);
                    if i + 1 < lines.len() {
                        assert(all[i + 1] == before[i + 1]);
                    } else {
                        assert(all[i + 1] == current2);
                        assert(before[i + 1] == current);
                    }
                }
            }
        } else {
            assert(all.len() == 1);
        }
    }
}

/// Law: wrapping is greedy: no line could have taken the first word of the
/// line after it and still fit the width.
pub proof fn law_wrapping_is_greedy(text: Seq<char>, max_width: nat)
    ensures
        greedy(wrap_spec(text, max_width), max_width),
{
    if max_width > 0 {
        let words = words_of(text);
        lemma_words_are_words(text);
        lemma_wrap_state_greedy(words, max_width);
        lemma_wrap_state_joined(words, max_width);
    }
}

} // verus!
