use vstd::prelude::*;

use crate::app::{App, AppView, ModeView};
use crate::error::AppError;
use crate::model::{sample_board, Board};
use crate::text::{owned, push_str};

verus! {

/// The application at start-up, from the outcome of loading the saved board:
/// the loaded board with a note that it was loaded, or the sample board with
/// the load error's message.
pub fn initialize_app(loaded: Result<Board, AppError>) -> (r: App)
    ensures
        match loaded {
            Ok(board) => r@ == (AppView {
                board: board@,
                should_quit: false,
                mode: ModeView::Normal,
                show_help: false,
                status: "Board loaded from disk"@,
            }),
            Err(error) => r@ == (AppView {
                board: sample_board(),
                should_quit: false,
                mode: ModeView::Normal,
                show_help: false,
                status: error.message_spec(),
            }),
        },
{
    match loaded {
        Ok(board) => App::from_board_with_status(board, owned("Board loaded from disk")),
        Err(error) => {
            let status_message = error.user_message();
            App::from_board_with_status(Board::default(), status_message)
        },
    }
}

/// Shows that saving the board failed, and why.
pub fn report_save_failure(app: &mut App, error: &AppError)
    ensures
        final(app)@ == old(app)@.with_status("Save failed: "@ + error.message_spec()),
{
    let mut message = owned("Save failed: ");
    let reason = error.user_message();
    push_str(&mut message, reason.as_str());
    app.status_message = message;
}

} // verus!
