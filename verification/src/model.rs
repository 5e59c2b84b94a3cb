use vstd::prelude::*;

use crate::text::{is_blank_spec, owned};

verus! {

/// The three priority levels of a card.
#[derive(Debug, Clone, Copy, PartialEq, Eq, Structural)]
pub enum Priority {
    Low,
    Medium,
    High,
}

/// The three columns of the board.
#[derive(Debug, Clone, Copy, PartialEq, Eq, Structural)]
pub enum Column {
    Todo,
    Doing,
    Done,
}

/// One task card.
#[derive(Debug, Clone, PartialEq, Eq)]
pub struct Card {
    pub id: u64,
    pub title: String,
    pub description: String,
    pub priority: Priority,
    pub column: Column,
}

/// The whole board: its cards and the current selection (a column, and a
/// position among the cards of that column).
#[derive(Debug, Clone, PartialEq, Eq)]
pub struct Board {
    pub cards: Vec<Card>,
    pub selected_column: Column,
    pub selected_index: usize,
}

// ---------------------------------------------------------------------------
// Mathematical model
// ---------------------------------------------------------------------------

/// A card as plain values.
#[verifier::ext_equal]
pub struct CardView {
    pub id: u64,
    pub title: Seq<char>,
    pub description: Seq<char>,
    pub priority: Priority,
    pub column: Column,
}

/// A board as plain values.
#[verifier::ext_equal]
pub struct BoardView {
    pub cards: Seq<CardView>,
    pub selected_column: Column,
    pub selected_index: nat,
}

impl View for Card {
    type V = CardView;

    open spec fn view(&self) -> CardView {
        CardView {
            id: self.id,
            title: self.title@,
            description: self.description@,
            priority: self.priority,
            column: self.column,
        }
    }
}

/// The views of a sequence of cards.
pub open spec fn cards_view(cards: Seq<Card>) -> Seq<CardView> {
    cards.map_values(|c: Card| c@)
}

/// The views of a sequence of borrowed cards.
pub open spec fn card_refs_view<'a>(cards: Seq<&'a Card>) -> Seq<CardView> {
    cards.map_values(|c: &'a Card| c@)
}

impl View for Board {
    type V = BoardView;

    open spec fn view(&self) -> BoardView {
        BoardView {
            cards: cards_view(self.cards@),
            selected_column: self.selected_column,
            selected_index: self.selected_index as nat,
        }
    }
}

/// The fixed order of the columns.
pub open spec fn spec_columns() -> Seq<Column> {
    seq![Column::Todo, Column::Doing, Column::Done]
}

/// The place of a column in the fixed order.
pub open spec fn spec_column_index(column: Column) -> nat {
    match column {
        Column::Todo => 0,
        Column::Doing => 1,
        Column::Done => 2,
    }
}

/// The column at a place of the fixed order; places past the end give the
/// last column.
pub open spec fn spec_column_at_index(index: nat) -> Column {
    if index == 0 {
        Column::Todo
    } else if index == 1 {
        Column::Doing
    } else {
        Column::Done
    }
}

/// The column after `column`, wrapping from `Done` back to `Todo`.
pub open spec fn spec_next_column(column: Column) -> Column {
    match column {
        Column::Todo => Column::Doing,
        Column::Doing => Column::Done,
        Column::Done => Column::Todo,
    }
}

/// The priority after `priority`, wrapping from `High` back to `Low`.
pub open spec fn spec_next_priority(priority: Priority) -> Priority {
    match priority {
        Priority::Low => Priority::Medium,
        Priority::Medium => Priority::High,
        Priority::High => Priority::Low,
    }
}

/// Whether a card stands in `column`.
pub open spec fn in_column(column: Column) -> spec_fn(CardView) -> bool {
    |c: CardView| c.column == column
}

/// The cards of one column, in board order.
pub open spec fn column_cards(cards: Seq<CardView>, column: Column) -> Seq<CardView> {
    cards.filter(in_column(column))
}

/// Whether a card does not carry `id`.
pub open spec fn id_differs(id: u64) -> spec_fn(CardView) -> bool {
    |c: CardView| c.id != id
}

/// The largest id on the board, or 0 for a board without cards.
pub open spec fn max_id(cards: Seq<CardView>) -> nat
    decreases cards.len(),
{
    if cards.len() == 0 {
        0
    } else {
        let rest = max_id(cards.drop_last());
        if cards.last().id > rest {
            cards.last().id as nat
        } else {
            rest
        }
    }
}

/// The id that the next new card gets.
pub open spec fn next_id(cards: Seq<CardView>) -> nat {
    max_id(cards) + 1
}

/// `i` is the position of the first card that carries `id`.
pub open spec fn is_first_with_id(cards: Seq<CardView>, id: u64, i: int) -> bool {
    &&& 0 <= i < cards.len()
    &&& cards[i].id == id
    &&& forall|j: int| 0 <= j < i ==> cards[j].id != id
}

/// The position of the first card that carries `id`, or -1 when none does.
pub open spec fn index_of_id(cards: Seq<CardView>, id: u64) -> int {
    if exists|i: int| is_first_with_id(cards, id, i) {
        choose|i: int| is_first_with_id(cards, id, i)
    } else {
        -1
    }
}

/// A card with a new column.
pub open spec fn with_column(c: CardView, column: Column) -> CardView {
    CardView { column, ..c }
}

/// A card with a new priority.
pub open spec fn with_priority(c: CardView, priority: Priority) -> CardView {
    CardView { priority, ..c }
}

/// A card with new text and priority.
pub open spec fn with_content(
    c: CardView,
    title: Seq<char>,
    description: Seq<char>,
    priority: Priority,
) -> CardView {
    CardView { title, description, priority, ..c }
}

/// No two cards carry the same id.
pub open spec fn ids_unique(cards: Seq<CardView>) -> bool {
    forall|i: int, j: int| 0 <= i < cards.len() && 0 <= j < cards.len() && i != j
        ==> cards[i].id != cards[j].id
}

/// Every card has a title that is not blank.
pub open spec fn titles_present(cards: Seq<CardView>) -> bool {
    forall|i: int| 0 <= i < cards.len() ==> !is_blank_spec(#[trigger] cards[i].title)
}

impl BoardView {
    /// The cards of the selected column.
    pub open spec fn selected_cards(self) -> Seq<CardView> {
        column_cards(self.cards, self.selected_column)
    }

    /// The selected card, when the selection points at one.
    pub open spec fn selected_card(self) -> Option<CardView> {
        if self.selected_index < self.selected_cards().len() {
            Some(self.selected_cards()[self.selected_index as int])
        } else {
            None
        }
    }

    /// The selection points at a card, or at 0 when the column is empty.
    pub open spec fn selection_valid(self) -> bool {
        if self.selected_cards().len() == 0 {
            self.selected_index == 0
        } else {
            self.selected_index < self.selected_cards().len()
        }
    }

    /// The same board with `cards`.
    pub open spec fn with_cards(self, cards: Seq<CardView>) -> BoardView {
        BoardView { cards, ..self }
    }

    /// The same board with the selection pulled back into the selected column.
    pub open spec fn clamped(self) -> BoardView {
        let n = self.selected_cards().len();
        BoardView {
            selected_index: if n == 0 {
                0
            } else if self.selected_index < n {
                self.selected_index
            } else {
                (n - 1) as nat
            },
            ..self
        }
    }

    /// The board after a new card was appended.
    pub open spec fn with_card_added(
        self,
        title: Seq<char>,
        description: Seq<char>,
        priority: Priority,
        column: Column,
    ) -> BoardView {
        self.with_cards(
            self.cards.push(
                CardView {
                    id: next_id(self.cards) as u64,
                    title,
                    description,
                    priority,
                    column,
                },
            ),
        )
    }

    /// The board after the selected card moved to the next column.
    pub open spec fn after_move_forward(self) -> BoardView {
        match self.selected_card() {
            None => self,
            Some(c) => {
                let i = index_of_id(self.cards, c.id);
                self.with_cards(
                    self.cards.update(i, with_column(self.cards[i], spec_next_column(self.cards[i].column))),
                ).clamped()
            },
        }
    }

    /// The board after every card that carries the selected card's id was removed.
    pub open spec fn after_delete(self) -> BoardView {
        match self.selected_card() {
            None => self,
            Some(c) => self.with_cards(self.cards.filter(id_differs(c.id))).clamped(),
        }
    }

    /// The board after the selected card's priority advanced.
    pub open spec fn after_cycle_priority(self) -> BoardView {
        match self.selected_card() {
            None => self,
            Some(c) => {
                let i = index_of_id(self.cards, c.id);
                self.with_cards(
                    self.cards.update(i, with_priority(self.cards[i], spec_next_priority(self.cards[i].priority))),
                )
            },
        }
    }

    /// The board after the first card that carries `id` got new content.
    pub open spec fn after_update(
        self,
        id: u64,
        title: Seq<char>,
        description: Seq<char>,
        priority: Priority,
    ) -> BoardView {
        let i = index_of_id(self.cards, id);
        if i < 0 {
            self
        } else {
            self.with_cards(self.cards.update(i, with_content(self.cards[i], title, description, priority)))
        }
    }
}

/// The board that a fresh start shows.
pub open spec fn sample_board() -> BoardView {
    BoardView {
        cards: seq![
            CardView {
                id: 1,
                title: "Project skeleton"@,
                description: "Create modules and baseline architecture"@,
                priority: Priority::High,
                column: Column::Todo,
            },
            CardView {
                id: 2,
                title: "Domain model"@,
                description: "Define Card, Column, Priority, Board"@,
                priority: Priority::Medium,
                column: Column::Doing,
            },
            CardView {
                id: 3,
                title: "Compile check"@,
                description: "Verify project builds without runtime features"@,
                priority: Priority::Low,
                column: Column::Done,
            },
        ],
        selected_column: Column::Todo,
        selected_index: 0,
    }
}

// ---------------------------------------------------------------------------
// Facts about the model
// ---------------------------------------------------------------------------

/// The views of `s` with `c` appended are the views of `s` with `c@` appended.
pub proof fn lemma_cards_view_push(s: Seq<Card>, c: Card)
    ensures
        cards_view(s.push(c)) == cards_view(s).push(c@),
{
    assert(cards_view(s.push(c)) =~= cards_view(s).push(c@));
}

/// When a card carries `id`, the first card that carries it exists and is
/// found by `index_of_id`.
pub proof fn lemma_index_of_id_found(cards: Seq<CardView>, id: u64, j: int)
    requires
        0 <= j < cards.len(),
        cards[j].id == id,
    ensures
        is_first_with_id(cards, id, index_of_id(cards, id)),
        0 <= index_of_id(cards, id) <= j,
    decreases j,
{
    if exists|k: int| 0 <= k < j && cards[k].id == id {
        let k = choose|k: int| 0 <= k < j && cards[k].id == id;
        lemma_index_of_id_found(cards, id, k);
    } else {
        assert(is_first_with_id(cards, id, j));
        lemma_index_of_id_unique(cards, id, j);
    }
}

/// The first card that carries `id` is the one `index_of_id` names.
pub proof fn lemma_index_of_id_unique(cards: Seq<CardView>, id: u64, i: int)
    requires
        is_first_with_id(cards, id, i),
    ensures
        index_of_id(cards, id) == i,
{
    let k = choose|k: int| is_first_with_id(cards, id, k);
    assert(is_first_with_id(cards, id, k));
    if k < i {
        assert(cards[k].id != id);
    }
    if i < k {
        assert(cards[i].id != id);
    }
}

/// When no card carries `id`, `index_of_id` is -1.
pub proof fn lemma_index_of_id_absent(cards: Seq<CardView>, id: u64)
    requires
        forall|j: int| 0 <= j < cards.len() ==> cards[j].id != id,
    ensures
        index_of_id(cards, id) == -1,
{
}

/// The selected card stands on the board, and the first card with its id exists.
pub proof fn lemma_selected_on_board(b: BoardView)
    requires
        b.selected_card() is Some,
    ensures
        is_first_with_id(b.cards, b.selected_card().unwrap().id, index_of_id(b.cards, b.selected_card().unwrap().id)),
        exists|j: int| 0 <= j < b.cards.len() && b.cards[j] == b.selected_card().unwrap(),
{
    let c = b.selected_card().unwrap();
    let sel = b.selected_cards();
    assert(sel[b.selected_index as int] == c);
    assert(sel.contains(c));
    b.cards.lemma_filter_contains_rev(in_column(b.selected_column), c);
    let j = choose|j: int| 0 <= j < b.cards.len() && b.cards[j] == c;
    lemma_index_of_id_found(b.cards, c.id, j);
}

/// Filtering out an element that fails the predicate shortens the sequence.
pub proof fn lemma_filter_shrinks<A>(s: Seq<A>, p: spec_fn(A) -> bool, k: int)
    requires
        0 <= k < s.len(),
        !p(s[k]),
    ensures
        s.filter(p).len() < s.len(),
    decreases s.len(),
{
    reveal(Seq::filter);
    s.drop_last().lemma_filter_len(p);
    if k < s.len() - 1 {
        assert(s.drop_last()[k] == s[k]);
        lemma_filter_shrinks(s.drop_last(), p, k);
    }
}

/// `max_id` bounds every id, so `next_id` is above every id.
pub proof fn lemma_max_id_bounds(cards: Seq<CardView>)
    ensures
        forall|i: int| 0 <= i < cards.len() ==> cards[i].id <= max_id(cards),
        cards.len() == 0 || exists|i: int| 0 <= i < cards.len() && cards[i].id == max_id(cards),
    decreases cards.len(),
{
    if cards.len() > 0 {
        lemma_max_id_bounds(cards.drop_last());
        assert forall|i: int| 0 <= i < cards.len() implies cards[i].id <= max_id(cards) by {
            if i < cards.len() - 1 {
                assert(cards.drop_last()[i] == cards[i]);
            }
        }
        if cards.last().id <= max_id(cards.drop_last()) && cards.len() > 1 {
            let i = choose|i: int| 0 <= i < cards.drop_last().len() && cards.drop_last()[i].id == max_id(cards.drop_last());
            assert(cards[i] == cards.drop_last()[i]);
        }
    }
}

/// Law: pulling the selection back into its column always leaves it valid,
/// and touches neither the cards nor the selected column.
pub proof fn law_clamp_makes_selection_valid(b: BoardView)
    ensures
        b.clamped().selection_valid(),
        b.clamped().cards == b.cards,
        b.clamped().selected_column == b.selected_column,
{
}

/// Replacing one element by another that the predicate judges alike keeps
/// the length of the filtered sequence.
pub proof fn lemma_filter_update_len<A>(s: Seq<A>, i: int, x: A, p: spec_fn(A) -> bool)
    requires
        0 <= i < s.len(),
        p(x) == p(s[i]),
    ensures
        s.update(i, x).filter(p).len() == s.filter(p).len(),
    decreases s.len(),
{
    reveal(Seq::filter);
    let u = s.update(i, x);
    if i == s.len() - 1 {
        assert(u.drop_last() =~= s.drop_last());
    } else {
        assert(u.drop_last() =~= s.drop_last().update(i, x));
        assert(u.last() == s.last());
        lemma_filter_update_len(s.drop_last(), i, x, p);
    }
}

/// Filtering keeps ids apart.
pub proof fn lemma_filter_ids_unique(s: Seq<CardView>, p: spec_fn(CardView) -> bool)
    requires
        ids_unique(s),
    ensures
        ids_unique(s.filter(p)),
    decreases s.len(),
{
    if s.len() > 0 {
        let t = s.drop_last();
        let x = s.last();
        assert(ids_unique(t)) by {
            assert forall|i: int, j: int| 0 <= i < t.len() && 0 <= j < t.len() && i != j
                implies t[i].id != t[j].id by {
                assert(t[i] == s[i] && t[j] == s[j]);
            }
        }
        lemma_filter_ids_unique(t, p);
        assert(s =~= t.push(x));
        t.lemma_filter_push(x, p);
        if p(x) {
            let f = t.filter(p);
            assert forall|i: int| 0 <= i < f.len() implies f[i].id != x.id by {
                assert(f.contains(f[i]));
                t.lemma_filter_contains_rev(p, f[i]);
                let k = choose|k: int| 0 <= k < t.len() && t[k] == f[i];
                assert(s[k] == t[k]);
                assert(s[s.len() - 1] == x);
            }
            let g = f.push(x);
            assert forall|i: int, j: int| 0 <= i < g.len() && 0 <= j < g.len() && i != j
                implies g[i].id != g[j].id by {
                if i < f.len() && j < f.len() {
                    assert(g[i] == f[i] && g[j] == f[j]);
                } else if i < f.len() {
                    assert(g[i] == f[i] && g[j] == x);
                } else {
                    assert(g[j] == f[j] && g[i] == x);
                }
            }
        }
    }
}

/// Filtering keeps every title present.
pub proof fn lemma_filter_titles(s: Seq<CardView>, p: spec_fn(CardView) -> bool)
    requires
        titles_present(s),
    ensures
        titles_present(s.filter(p)),
{
    let f = s.filter(p);
    assert forall|i: int| 0 <= i < f.len() implies !is_blank_spec(#[trigger] f[i].title) by {
        assert(f.contains(f[i]));
        s.lemma_filter_contains_rev(p, f[i]);
        let k = choose|k: int| 0 <= k < s.len() && s[k] == f[i];
        assert(!is_blank_spec(s[k].title));
    }
}

// ---------------------------------------------------------------------------
// Operations
// ---------------------------------------------------------------------------

/// The position of the first card that carries `id`.
fn find_card_index(cards: &Vec<Card>, id: u64) -> (r: Option<usize>)
    ensures
        match r {
            Some(i) => is_first_with_id(cards_view(cards@), id, i as int),
            None => forall|j: int| 0 <= j < cards@.len() ==> cards@[j].id != id,
        },
{
    let mut i: usize = 0;
    while i < cards.len()
        invariant
            i <= cards@.len(),
            forall|j: int| 0 <= j < i ==> cards@[j].id != id,
        decreases cards@.len() - i,
    {
        if cards[i].id == id {
            return Some(i);
        }
        i = i + 1;
    }
    None
}

/// Removes every card that carries `id`, keeping the others in order.
fn remove_cards_with_id(cards: &mut Vec<Card>, id: u64)
    ensures
        cards_view(final(cards)@) == cards_view(old(cards)@).filter(id_differs(id)),
{
    let ghost orig = cards_view(cards@);
    let ghost p = id_differs(id);
    let ghost mut j: int = 0;
    let mut i: usize = 0;
    assert(orig.subrange(0, 0).filter(p) =~= Seq::<CardView>::empty()) by {
        reveal(Seq::filter);
    }
    assert(cards_view(cards@) =~= orig.subrange(0, 0).filter(p) + orig.subrange(0, orig.len() as int));
    while i < cards.len()
        invariant
            0 <= j <= orig.len(),
            p == id_differs(id),
            i as int == orig.subrange(0, j).filter(p).len(),
            cards_view(cards@) == orig.subrange(0, j).filter(p) + orig.subrange(j, orig.len() as int),
        decreases orig.len() - j,
    {
        let ghost pre = orig.subrange(0, j).filter(p);
        let ghost suf = orig.subrange(j, orig.len() as int);
        proof {
            assert(cards_view(cards@).len() == pre.len() + suf.len());
            assert(suf.len() > 0);
            assert(cards_view(cards@)[i as int] == suf[0]);
            assert(orig.subrange(0, j + 1) =~= orig.subrange(0, j).push(orig[j]));
            orig.subrange(0, j).lemma_filter_push(orig[j], p);
        }
        if cards[i].id == id {
            let ghost before = cards@;
            cards.remove(i);
            proof {
                assert(cards_view(cards@) =~= cards_view(before).remove(i as int));
                assert(cards_view(cards@) =~= pre + orig.subrange(j + 1, orig.len() as int));
            }
        } else {
            proof {
                assert(cards_view(cards@) =~= pre.push(orig[j]) + orig.subrange(j + 1, orig.len() as int));
            }
            i = i + 1;
        }
        proof {
            j = j + 1;
        }
    }
    proof {
        assert(orig.subrange(0, j) =~= orig);
        assert(cards_view(cards@) =~= orig.filter(p));
    }
}

impl Board {
    /// The three columns in their fixed order.
    pub fn columns() -> (r: [Column; 3])
        ensures
            r@ == spec_columns(),
    {
        let r = [Column::Todo, Column::Doing, Column::Done];
        assert(r@ =~= spec_columns());
        r
    }

    /// The place of `column` in the fixed order.
    pub fn column_index(column: Column) -> (r: usize)
        ensures
            r as nat == spec_column_index(column),
    {
        match column {
            Column::Todo => 0,
            Column::Doing => 1,
            Column::Done => 2,
        }
    }

    /// The column at place `index`; places past the end give the last column.
    pub fn column_at_index(index: usize) -> (r: Column)
        ensures
            r == spec_column_at_index(index as nat),
    {
        let columns = Self::columns();
        let last: usize = 2;
        let i: usize = if index < last {
            index
        } else {
            last
        };
        columns[i]
    }

    /// The column after `column`, wrapping from `Done` to `Todo`.
    pub fn next_column(column: Column) -> (r: Column)
        ensures
            r == spec_next_column(column),
    {
        match column {
            Column::Todo => Column::Doing,
            Column::Doing => Column::Done,
            Column::Done => Column::Todo,
        }
    }

    /// The priority after `priority`, wrapping from `High` to `Low`.
    pub fn next_priority(priority: Priority) -> (r: Priority)
        ensures
            r == spec_next_priority(priority),
    {
        match priority {
            Priority::Low => Priority::Medium,
            Priority::Medium => Priority::High,
            Priority::High => Priority::Low,
        }
    }

    /// The cards of `column`, in board order.
    pub fn cards_in_column(&self, column: Column) -> (r: Vec<&Card>)
        ensures
            card_refs_view(r@) == column_cards(self@.cards, column),
    {
        let mut result: Vec<&Card> = Vec::new();
        let mut i: usize = 0;
        assert(card_refs_view(result@) =~= column_cards(self@.cards.subrange(0, 0), column)) by {
            reveal(Seq::filter);
        }
        while i < self.cards.len()
            invariant
                i <= self.cards@.len(),
                card_refs_view(result@) == column_cards(self@.cards.subrange(0, i as int), column),
            decreases self.cards@.len() - i,
        {
            let card = &self.cards[i];
            proof {
                assert(self@.cards.subrange(0, i + 1) =~= self@.cards.subrange(0, i as int).push(card@));
                self@.cards.subrange(0, i as int).lemma_filter_push(card@, in_column(column));
            }
            if card.column == column {
                let ghost before = result@;
                result.push(card);
                proof {
                    assert(card_refs_view(result@) =~= card_refs_view(before).push(card@));
                }
            }
            i = i + 1;
        }
        assert(self@.cards.subrange(0, i as int) =~= self@.cards);
        result
    }

    /// The cards of the selected column.
    pub fn selected_column_cards(&self) -> (r: Vec<&Card>)
        ensures
            card_refs_view(r@) == self@.selected_cards(),
    {
        self.cards_in_column(self.selected_column)
    }

    /// The selected card, when the selection points at one.
    pub fn selected_card(&self) -> (r: Option<&Card>)
        ensures
            match r {
                Some(c) => self@.selected_card() == Some(c@),
                None => self@.selected_card() is None,
            },
    {
        let cards = self.selected_column_cards();
        if self.selected_index < cards.len() {
            let c: &Card = cards[self.selected_index];
            assert(card_refs_view(cards@)[self.selected_index as int] == c@);
            Some(c)
        } else {
            None
        }
    }

    /// The id of the selected card, when the selection points at one.
    pub fn selected_card_id(&self) -> (r: Option<u64>)
        ensures
            match self@.selected_card() {
                Some(c) => r == Some(c.id),
                None => r is None,
            },
    {
        match self.selected_card() {
            Some(c) => Some(c.id),
            None => None,
        }
    }

    /// Where the selected card stands in the list of `column`'s cards:
    /// nothing when `column` is not the selected column or no card is
    /// selected, else the first position in that list that carries the
    /// selected card's id.
    pub fn selected_item_index(&self, column: Column) -> (r: Option<usize>)
        ensures
            r == (if column != self@.selected_column {
                None
            } else {
                match self@.selected_card() {
                    None => None,
                    Some(c) => Some(index_of_id(column_cards(self@.cards, column), c.id) as usize),
                }
            }),
    {
        if column != self.selected_column {
            return None;
        }
        let selected_id = match self.selected_card_id() {
            Some(id) => id,
            None => return None,
        };
        let cards = self.cards_in_column(column);
        let ghost list = card_refs_view(cards@);
        proof {
            let sel = self@.selected_cards();
            assert(sel[self@.selected_index as int].id == selected_id);
            lemma_index_of_id_found(sel, selected_id, self@.selected_index as int);
        }
        let mut i: usize = 0;
        while i < cards.len()
            invariant
                i <= cards@.len(),
                list == card_refs_view(cards@),
                list == column_cards(self@.cards, column),
                column == self@.selected_column,
                self@.selected_card() is Some,
                self@.selected_card().unwrap().id == selected_id,
                is_first_with_id(list, selected_id, index_of_id(list, selected_id)),
                forall|j: int| 0 <= j < i ==> list[j].id != selected_id,
            decreases cards@.len() - i,
        {
            if cards[i].id == selected_id {
                proof {
                    assert(list[i as int].id == selected_id);
                    assert(is_first_with_id(list, selected_id, i as int));
                    lemma_index_of_id_unique(list, selected_id, i as int);
                }
                return Some(i);
            }
            assert(list[i as int].id == cards@[i as int].id);
            i = i + 1;
        }
        proof {
            let k = index_of_id(list, selected_id);
            assert(list[k].id == selected_id);
        }
        None
    }

    /// Appends a new card and returns its id, one above the largest id on
    /// the board (or 1 on a board without cards).
    pub fn add_card(
        &mut self,
        title: String,
        description: String,
        priority: Priority,
        column: Column,
    ) -> (id: u64)
        requires
            max_id(old(self)@.cards) < u64::MAX,
        ensures
            id == next_id(old(self)@.cards),
            final(self)@ == old(self)@.with_card_added(title@, description@, priority, column),
    {
        let id = self.next_card_id();
        let card = Card { id, title, description, priority, column };
        let ghost before = self.cards@;
        self.cards.push(card);
        proof {
            lemma_cards_view_push(before, card);
        }
        id
    }

    /// Moves the selected card to the next column and pulls the selection
    /// back into its column; tells whether a card was selected.
    pub fn move_selected_card_forward(&mut self) -> (moved: bool)
        ensures
            moved == old(self)@.selected_card() is Some,
            final(self)@ == old(self)@.after_move_forward(),
    {
        let card_id = match self.selected_card_id() {
            Some(id) => id,
            None => return false,
        };
        proof {
            lemma_selected_on_board(self@);
        }
        match find_card_index(&self.cards, card_id) {
            Some(i) => {
                proof {
                    lemma_index_of_id_unique(self@.cards, card_id, i as int);
                }
                let ghost before = self@;
                let column = Self::next_column(self.cards[i].column);
                self.cards[i].column = column;
                assert(self@.cards =~= before.cards.update(
                    i as int,
                    with_column(before.cards[i as int], spec_next_column(before.cards[i as int].column)),
                ));
                self.clamp_selection();
                true
            },
            None => {
                proof {
                    assert(self@.cards[index_of_id(self@.cards, card_id)].id == card_id);
                }
                false
            },
        }
    }

    /// Removes every card that carries the selected card's id and pulls the
    /// selection back into its column; tells whether a card was removed.
    pub fn delete_selected_card(&mut self) -> (deleted: bool)
        ensures
            deleted == old(self)@.selected_card() is Some,
            final(self)@ == old(self)@.after_delete(),
    {
        let card_id = match self.selected_card_id() {
            Some(id) => id,
            None => return false,
        };
        let ghost before = self@;
        proof {
            lemma_selected_on_board(self@);
            let k = index_of_id(self@.cards, card_id);
            lemma_filter_shrinks(self@.cards, id_differs(card_id), k);
        }
        let initial_len = self.cards.len();
        remove_cards_with_id(&mut self.cards, card_id);
        assert(self@ == before.with_cards(before.cards.filter(id_differs(card_id))));
        let changed = self.cards.len() != initial_len;
        if changed {
            self.clamp_selection();
        }
        changed
    }

    /// Advances the selected card's priority; tells whether a card was selected.
    pub fn cycle_selected_card_priority(&mut self) -> (cycled: bool)
        ensures
            cycled == old(self)@.selected_card() is Some,
            final(self)@ == old(self)@.after_cycle_priority(),
    {
        let card_id = match self.selected_card_id() {
            Some(id) => id,
            None => return false,
        };
        proof {
            lemma_selected_on_board(self@);
        }
        match find_card_index(&self.cards, card_id) {
            Some(i) => {
                proof {
                    lemma_index_of_id_unique(self@.cards, card_id, i as int);
                }
                let ghost before = self@;
                let priority = Self::next_priority(self.cards[i].priority);
                self.cards[i].priority = priority;
                assert(self@.cards =~= before.cards.update(
                    i as int,
                    with_priority(before.cards[i as int], spec_next_priority(before.cards[i as int].priority)),
                ));
                true
            },
            None => {
                proof {
                    assert(self@.cards[index_of_id(self@.cards, card_id)].id == card_id);
                }
                false
            },
        }
    }

    /// Gives the first card that carries `card_id` a new title, description
    /// and priority; tells whether such a card exists.
    pub fn update_card(
        &mut self,
        card_id: u64,
        title: String,
        description: String,
        priority: Priority,
    ) -> (updated: bool)
        ensures
            updated == (index_of_id(old(self)@.cards, card_id) >= 0),
            final(self)@ == old(self)@.after_update(card_id, title@, description@, priority),
    {
        match find_card_index(&self.cards, card_id) {
            Some(i) => {
                proof {
                    lemma_index_of_id_unique(self@.cards, card_id, i as int);
                }
                let ghost before = self@;
                let ghost t = title@;
                let ghost d = description@;
                self.cards[i].title = title;
                self.cards[i].description = description;
                self.cards[i].priority = priority;
                assert(self@.cards =~= before.cards.update(
                    i as int,
                    with_content(before.cards[i as int], t, d, priority),
                ));
                true
            },
            None => {
                proof {
                    lemma_index_of_id_absent(self@.cards, card_id);
                }
                false
            },
        }
    }

    /// One above the largest id on the board, or 1 on a board without cards.
    fn next_card_id(&self) -> (r: u64)
        requires
            max_id(self@.cards) < u64::MAX,
        ensures
            r == next_id(self@.cards),
    {
        let mut m: u64 = 0;
        let mut i: usize = 0;
        assert(self@.cards.subrange(0, 0) =~= Seq::<CardView>::empty());
        while i < self.cards.len()
            invariant
                i <= self.cards@.len(),
                m == max_id(self@.cards.subrange(0, i as int)),
            decreases self.cards@.len() - i,
        {
            proof {
                assert(self@.cards.subrange(0, i + 1).drop_last() =~= self@.cards.subrange(0, i as int));
            }
            if self.cards[i].id > m {
                m = self.cards[i].id;
            }
            i = i + 1;
        }
        assert(self@.cards.subrange(0, i as int) =~= self@.cards);
        m + 1
    }

    /// Pulls the selection back into the selected column: 0 when the column
    /// is empty, else at most the position of its last card.
    pub fn clamp_selection(&mut self)
        ensures
            final(self)@ == old(self)@.clamped(),
    {
        let cards_in_column = self.selected_column_cards().len();
        if cards_in_column == 0 {
            self.selected_index = 0;
            return;
        }
        if self.selected_index >= cards_in_column {
            self.selected_index = cards_in_column - 1;
        }
    }

    /// The board that a fresh start shows: three sample cards, one per
    /// column, with the selection on the first.
    pub fn with_sample_cards() -> (r: Self)
        ensures
            r@ == sample_board(),
    {
        let mut cards: Vec<Card> = Vec::new();
        cards.push(
            Card {
                id: 1,
                title: owned("Project skeleton"),
                description: owned("Create modules and baseline architecture"),
                priority: Priority::High,
                column: Column::Todo,
            },
        );
        cards.push(
            Card {
                id: 2,
                title: owned("Domain model"),
                description: owned("Define Card, Column, Priority, Board"),
                priority: Priority::Medium,
                column: Column::Doing,
            },
        );
        cards.push(
            Card {
                id: 3,
                title: owned("Compile check"),
                description: owned("Verify project builds without runtime features"),
                priority: Priority::Low,
                column: Column::Done,
            },
        );
        let r = Board { cards, selected_column: Column::Todo, selected_index: 0 };
        assert(r@.cards =~= sample_board().cards);
        r
    }
}

impl Default for Board {
    fn default() -> (r: Self)
        ensures
            r@ == sample_board(),
    {
        Self::with_sample_cards()
    }
}

} // verus!
