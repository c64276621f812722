//! What the stream asks the task around it to do.

use vstd::prelude::*;

use crate::command::Command;
use crate::command::CommandView;
use crate::json::Json;
use crate::json::{JsonView, items_view};

verus! {

/// What an action is.
pub enum ActionView {
    Subscribe,
    Send(CommandView),
    SetScreencasting(bool),
    AnnounceStatus,
    SetActiveUrl(Seq<char>),
    Broadcast(JsonView),
    BroadcastFrame(JsonView),
    FormatConsole { level: Seq<char>, args: Seq<JsonView> },
    NotifyAgain,
}

/// One thing for the task to do. Actions are done in order, and one that fails does
/// not keep the next from being done.
pub enum Action {
    /// Take the client in the slot, with its events since the slot was read.
    Subscribe,
    /// Send a command to the browser. Whatever it answers is ignored.
    Send(Command),
    /// Say whether a screencast is running.
    SetScreencasting(bool),
    /// Broadcast the status of the session that was just attached.
    AnnounceStatus,
    /// Set the address of the active tabs.
    SetActiveUrl(String),
    /// Send the text of a message to every viewer.
    Broadcast(Json),
    /// Keep the text of a message as the last frame, and send it to every viewer.
    BroadcastFrame(Json),
    /// Format the arguments of a console call, and broadcast the message that comes of
    /// it, if any.
    FormatConsole { level: String, args: Vec<Json> },
    /// Wake the stream up once more.
    NotifyAgain,
}

impl View for Action {
    type V = ActionView;

    open spec fn view(&self) -> ActionView {
        match self {
            Action::Subscribe => ActionView::Subscribe,
            Action::Send(command) => ActionView::Send(command@),
            Action::SetScreencasting(on) => ActionView::SetScreencasting(*on),
            Action::AnnounceStatus => ActionView::AnnounceStatus,
            Action::SetActiveUrl(url) => ActionView::SetActiveUrl(url@),
            Action::Broadcast(message) => ActionView::Broadcast(message@),
            Action::BroadcastFrame(message) => ActionView::BroadcastFrame(message@),
            Action::FormatConsole { level, args } => ActionView::FormatConsole {
                level: level@,
                args: items_view(args@),
            },
            Action::NotifyAgain => ActionView::NotifyAgain,
        }
    }
}

/// What a list of actions is.
pub open spec fn actions_view(actions: Seq<Action>) -> Seq<ActionView> {
    actions.map_values(|action: Action| action@)
}

/// A list without actions.
pub(crate) fn no_actions() -> (actions: Vec<Action>)
    ensures
        actions_view(actions@) == Seq::<ActionView>::empty(),
{
    let actions: Vec<Action> = Vec::new();
    proof {
        assert(actions_view(actions@) =~= Seq::<ActionView>::empty());
    }
    actions
}

/// Adds an action to a list.
pub(crate) fn add_action(actions: &mut Vec<Action>, action: Action)
    ensures
        actions_view(final(actions)@) == actions_view(old(actions)@).push(action@),
{
    let ghost before = actions@;
    actions.push(action);
    proof {
        assert(actions_view(actions@) =~= actions_view(before).push(action@));
    }
}

/// A list of actions is each of them in its place.
pub proof fn law_actions_keep_their_order(actions: Seq<Action>, i: int)
    ensures
        actions_view(actions).len() == actions.len(),
        0 <= i < actions.len() ==> actions_view(actions)[i] == actions[i]@,
{
}

/// An action is what it holds.
pub proof fn law_an_action_is_what_it_holds(
    command: Command,
    on: bool,
    text: String,
    message: Json,
    args: Vec<Json>,
)
    ensures
        Action::Subscribe@ == ActionView::Subscribe,
        Action::Send(command)@ == ActionView::Send(command@),
        Action::SetScreencasting(on)@ == ActionView::SetScreencasting(on),
        Action::AnnounceStatus@ == ActionView::AnnounceStatus,
        Action::SetActiveUrl(text)@ == ActionView::SetActiveUrl(text@),
        Action::Broadcast(message)@ == ActionView::Broadcast(message@),
        Action::BroadcastFrame(message)@ == ActionView::BroadcastFrame(message@),
        (Action::FormatConsole { level: text, args })@ == (ActionView::FormatConsole {
            level: text@,
            args: items_view(args@),
        }),
        Action::NotifyAgain@ == ActionView::NotifyAgain,
{
}

} // verus!
