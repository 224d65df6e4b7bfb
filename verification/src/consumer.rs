//! What the consumer loop does between two frames: it handles the command that the
//! input gave, if any, and applies the results that wait in the channel, without
//! ever blocking.

use crate::actions::{handle_action, Action};
use crate::backend::{CheckResult, CheckResultView};
use crate::model::AppView;
use crate::state::App;
use tokio::sync::mpsc::Receiver;
use vstd::prelude::*;

verus! {

/// The receiving half of tokio's bounded channel. Nothing inside it is visible to
/// the verifier; it is only handed on to [`try_receive`].
#[verifier::external_type_specification]
#[verifier::external_body]
#[verifier::reject_recursive_types(T)]
pub struct ExReceiver<T>(tokio::sync::mpsc::Receiver<T>);

/// Calls `tokio::sync::mpsc::Receiver::try_recv`, which takes the next waiting
/// message out of the channel without blocking. `None` stands for both of its
/// errors: a channel that is empty for now, and one that is empty and closed.
/// Which message comes, if any, depends on what the senders did: nothing is
/// claimed of it.
#[verifier::external_body]
fn try_receive(rx: &mut Receiver<CheckResult>) -> (next: Option<CheckResult>) {
    rx.try_recv().ok()
}

/// How long one turn of the consumer loop waits for input, in milliseconds.
pub const TICK_MILLIS: u64 = 250;

/// How a draining pass ended.
#[derive(Debug)]
pub struct Drained {
    /// How many results were applied.
    pub applied: usize,
    /// A result that was received but could not be counted, because the number of
    /// checks of its endpoint is at the greatest that a `u64` holds. The pass ends
    /// with it.
    pub refused: Option<CheckResult>,
}

/// Applies the results that wait in the channel, in the order in which they come
/// out of it, until the channel has none left, `limit` results were applied, or a
/// result cannot be counted. No call in it blocks.
pub fn drain_results(app: &mut App, rx: &mut Receiver<CheckResult>, limit: usize) -> (outcome:
    Drained)
    requires
        old(app).wf(),
    ensures
        final(app).wf(),
        outcome.applied <= limit,
        exists|rs: Seq<CheckResultView>|
            rs.len() == outcome.applied && #[trigger] old(app)@.apply_all(rs) == final(app)@,
        outcome.refused matches Some(r) ==> !final(app)@.has_room(r@.name),
{
    let ghost start = app@;
    let ghost mut taken: Seq<CheckResultView> = Seq::empty();
    let mut applied: usize = 0;
    while applied < limit
        invariant
            start == old(app)@,
            app.wf(),
            applied <= limit,
            taken.len() == applied,
            start.apply_all(taken) == app@,
        decreases limit - applied,
    {
        match try_receive(rx) {
            Some(result) => {
                let ghost entry = result@;
                match app.try_on_result(result) {
                    Ok(_) => {
                        proof {
                            assert(taken.push(entry).drop_last() =~= taken);
                            taken = taken.push(entry);
                        }
                        applied = applied + 1;
                    },
                    Err(back) => {
                        return Drained { applied, refused: Some(back) };
                    },
                }
            },
            None => {
                return Drained { applied, refused: None };
            },
        }
    }
    Drained { applied, refused: None }
}

/// What the consumer loop does next.
#[derive(Debug)]
pub enum Step {
    /// The loop ends.
    Quit,
    /// The loop goes on with the next frame, after this draining pass.
    Continue(Drained),
}

/// The monitoring state after the command that the input gave, if any.
pub open spec fn after_input(app: AppView, action: Option<Action>) -> AppView {
    match action {
        Some(a) => a.effect(app),
        None => app,
    }
}

/// One turn of the consumer loop after its frame was drawn and its input was
/// polled. `Quit` ends the loop at once, with the state as it is. Any other command
/// is handled, and with or without a command the channel is then drained as
/// [`drain_results`] does.
pub fn step(
    app: &mut App,
    action: Option<Action>,
    rx: &mut Receiver<CheckResult>,
    limit: usize,
) -> (next: Step)
    requires
        old(app).wf(),
    ensures
        final(app).wf(),
        next is Quit <==> action == Some(Action::Quit),
        next is Quit ==> final(app)@ == old(app)@,
        next matches Step::Continue(drained) ==> {
            &&& drained.applied <= limit
            &&& exists|rs: Seq<CheckResultView>|
                rs.len() == drained.applied && #[trigger] after_input(
                    old(app)@,
                    action,
                ).apply_all(rs) == final(app)@
            &&& drained.refused matches Some(r) ==> !final(app)@.has_room(r@.name)
        },
{
    let ghost handled = after_input(app@, action);
    match action {
        Some(a) => {
            if handle_action(&a, app) {
                return Step::Quit;
            }
        },
        None => {},
    }
    assert(app@ == handled);
    let drained = drain_results(app, rx, limit);
    Step::Continue(drained)
}

} // verus!
