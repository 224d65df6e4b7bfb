//! Commands that the keyboard layer hands to the dashboard.

use crate::model::AppView;
use crate::state::App;
use vstd::prelude::*;

verus! {

/// A discrete command produced from user input.
#[derive(Debug, Clone, Copy, PartialEq, Eq, Structural)]
pub enum Action {
    Quit,
    MoveUp,
    MoveDown,
    Inspect,
    CycleSort,
    ToggleSortDirection,
    Search,
    Help,
}

impl Action {
    /// What the command makes of a monitoring state. `MoveUp` takes the selection
    /// one row on and `MoveDown` one row back; every other command leaves the state
    /// as it is.
    pub open spec fn effect(self, app: AppView) -> AppView {
        match self {
            Action::MoveUp => app.next_row(),
            Action::MoveDown => app.previous_row(),
            _ => app,
        }
    }
}

/// Returns true if the action is 'Quit', returns false and
/// handles the action otherwise.
pub fn handle_action(action: &Action, app: &mut App) -> (quit: bool)
    requires
        old(app).wf(),
    ensures
        quit == (*action == Action::Quit),
        final(app).wf(),
        final(app)@ == action.effect(old(app)@),
{
    match action {
        Action::Quit => {
            return true;
        },
        Action::MoveUp => {
            app.next_row();
        },
        Action::MoveDown => {
            app.previous_row();
        },
        Action::Inspect => {
            return false;
        },
        Action::CycleSort => {
            return false;
        },
        Action::ToggleSortDirection => {
            return false;
        },
        Action::Search => {
            return false;
        },
        Action::Help => {
            return false;
        },
    }
    false
}

} // verus!
