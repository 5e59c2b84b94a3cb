use vstd::prelude::*;

use crate::error::AppError;
use crate::model::{titles_present, Board, CardView};
use crate::text::{decimal, decimal_text, is_blank, is_blank_spec, owned, push_str};

verus! {

/// `i` is the position of the first card whose title is blank.
pub open spec fn is_first_blank(cards: Seq<CardView>, i: int) -> bool {
    &&& 0 <= i < cards.len()
    &&& is_blank_spec(cards[i].title)
    &&& forall|j: int| 0 <= j < i ==> !is_blank_spec(#[trigger] cards[j].title)
}

/// The position of the first card whose title is blank.
pub open spec fn first_blank(cards: Seq<CardView>) -> int {
    choose|i: int| is_first_blank(cards, i)
}

/// The message that reports the card `id` for its blank title.
pub open spec fn empty_title_message(id: u64) -> Seq<char> {
    "card with id "@ + decimal(id as nat) + " has empty title"@
}

proof fn lemma_first_blank_unique(cards: Seq<CardView>, i: int)
    requires
        is_first_blank(cards, i),
    ensures
        first_blank(cards) == i,
{
    let k = first_blank(cards);
    assert(is_first_blank(cards, k));
    if k < i {
        assert(!is_blank_spec(cards[k].title));
    }
    if i < k {
        assert(!is_blank_spec(cards[i].title));
    }
}

/// Accepts a board whose every card has a title that is not blank; else
/// reports the first card with a blank title.
pub fn validate_board(board: &Board) -> (r: Result<(), AppError>)
    ensures
        match r {
            Ok(_) => titles_present(board@.cards),
            Err(AppError::Validation(message)) => !titles_present(board@.cards)
                && message@ == empty_title_message(board@.cards[first_blank(board@.cards)].id),
            Err(_) => false,
        },
{
    let mut i: usize = 0;
    while i < board.cards.len()
        invariant
            i <= board.cards@.len(),
            forall|j: int| 0 <= j < i ==> !is_blank_spec(#[trigger] board@.cards[j].title),
        decreases board.cards@.len() - i,
    {
        let card = &board.cards[i];
        if is_blank(card.title.as_str()) {
            proof {
                assert(board@.cards[i as int] == card@);
                assert(is_first_blank(board@.cards, i as int));
                lemma_first_blank_unique(board@.cards, i as int);
            }
            let mut message = owned("card with id ");
            let id_text = decimal_text(card.id);
            push_str(&mut message, id_text.as_str());
            push_str(&mut message, " has empty title");
            return Err(AppError::Validation(message));
        }
        i = i + 1;
    }
    Ok(())
}

} // verus!
