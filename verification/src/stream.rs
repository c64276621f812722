//! The stream as a state machine: what it does on each wake-up.
//!
//! The task around it waits for the next thing to happen, hands it over as a
//! [`Wake`], does the actions that come back, and waits again, until the stream has
//! stopped.

use vstd::prelude::*;

use crate::action::{Action, add_action, no_actions};
use crate::action::{ActionView, actions_view};
use crate::command::{copy_text, enable_tools_for, start_for, stop_for};
use crate::command::{
    CommandView,
    law_starting_carries_what_is_asked,
    start_command,
    stop_command,
    tools_command,
};
use crate::event::{Event, handle_event};
use crate::event::{
    EventView,
    event_actions,
    event_table,
    law_events_keep_the_screencast,
    text_or_empty,
};
use crate::in_flight::InFlightTools;
use crate::in_flight::{InFlightView, lemma_record_keeps_bound, lemma_take_keeps_bound};
use crate::json::{Json, JsonView, NumberView};
use crate::message::build_status;
use crate::message::status_message;
use crate::text::same_text;

verus! {

/// The quality that screencast frames are asked for.
pub const SCREENCAST_QUALITY: i64 = 80;

/// What is in the slot that holds the client of the browser.
#[derive(Debug, Clone, Copy, PartialEq, Eq, Structural)]
pub enum ClientSlot {
    /// No client.
    Empty,
    /// The client to which the stream is attached.
    Attached,
    /// Another client.
    Other,
}

/// What the shared state is.
pub struct SharedView {
    pub client_count: nat,
    pub client: ClientSlot,
    pub session_id: Option<Seq<char>>,
    pub width: u32,
    pub height: u32,
    pub scale_changed: bool,
    pub capture_width: u32,
    pub capture_height: u32,
    pub engine: Seq<char>,
    pub screencasting: bool,
}

/// The state that the stream shares with the rest of the program, as read on waking up.
pub struct Shared {
    /// How many viewers are connected.
    pub client_count: usize,
    pub client: ClientSlot,
    /// The session of the page.
    pub session_id: Option<String>,
    /// The width of the viewport in CSS pixels.
    pub width: u32,
    /// The height of the viewport in CSS pixels.
    pub height: u32,
    /// Whether the scale of the viewport differs from the one at which the stream was
    /// attached.
    pub scale_changed: bool,
    /// The width of the viewport in device pixels.
    pub capture_width: u32,
    /// The height of the viewport in device pixels.
    pub capture_height: u32,
    /// The engine of the browser.
    pub engine: String,
    /// Whether a screencast is said to be running.
    pub screencasting: bool,
}

impl View for Shared {
    type V = SharedView;

    open spec fn view(&self) -> SharedView {
        SharedView {
            client_count: self.client_count as nat,
            client: self.client,
            session_id: self.session_id.deep_view(),
            width: self.width,
            height: self.height,
            scale_changed: self.scale_changed,
            capture_width: self.capture_width,
            capture_height: self.capture_height,
            engine: self.engine@,
            screencasting: self.screencasting,
        }
    }
}

/// What a wake-up is.
pub enum WakeView {
    Shutdown { closed: bool, requested: bool, shared: SharedView },
    Notified { shared: SharedView },
    Event { event: EventView, now: u64 },
    Lagged,
    Closed,
}

/// What woke the stream up.
pub enum Wake {
    /// The shutdown channel was closed, or its value changed.
    Shutdown { closed: bool, requested: bool, shared: Shared },
    /// The shared state may have changed.
    Notified { shared: Shared },
    /// The browser reported something, at a time in milliseconds.
    Event { event: Event, now: u64 },
    /// Events were lost, since they came faster than they were handled.
    Lagged,
    /// No more events will come from the client.
    Closed,
}

impl View for Wake {
    type V = WakeView;

    open spec fn view(&self) -> WakeView {
        match self {
            Wake::Shutdown { closed, requested, shared } => WakeView::Shutdown {
                closed: *closed,
                requested: *requested,
                shared: shared@,
            },
            Wake::Notified { shared } => WakeView::Notified { shared: shared@ },
            Wake::Event { event, now } => WakeView::Event { event: event@, now: *now },
            Wake::Lagged => WakeView::Lagged,
            Wake::Closed => WakeView::Closed,
        }
    }
}

/// Whether an engine can do a screencast and has page tools.
pub open spec fn is_chrome(engine: Seq<char>) -> bool {
    engine == "chrome"@
}

/// What an attachment to a client is.
pub struct SessionView {
    pub session_id: Option<Seq<char>>,
    pub width: u32,
    pub height: u32,
    pub engine: Seq<char>,
    pub in_flight: InFlightView,
}

/// An attachment to a client, with what held when it was made.
pub struct Session {
    pub session_id: Option<String>,
    pub width: u32,
    pub height: u32,
    pub engine: String,
    /// The invocations of page tools under way. They are remembered for as long as the
    /// attachment lasts.
    pub in_flight: InFlightTools,
}

impl View for Session {
    type V = SessionView;

    open spec fn view(&self) -> SessionView {
        SessionView {
            session_id: self.session_id.deep_view(),
            width: self.width,
            height: self.height,
            engine: self.engine@,
            in_flight: self.in_flight@,
        }
    }
}

impl Session {
    /// The message that tells the viewers what the stream is attached to.
    pub fn status(&self, recording: bool) -> (message: Json)
        ensures
            message@ == status_message(
                self@.width,
                self@.height,
                self@.engine,
                is_chrome(self@.engine),
                recording,
            ),
    {
        let screencasting = same_text(self.engine.as_str(), "chrome");
        build_status(self.width, self.height, self.engine.as_str(), screencasting, recording)
    }
}

/// What the stream is.
pub enum StreamView {
    Idle,
    Attached(SessionView),
    Stopped,
}

/// The stream: waiting for a viewer and a client, attached to a client, or stopped.
pub enum Stream {
    Idle,
    Attached(Session),
    Stopped,
}

impl View for Stream {
    type V = StreamView;

    open spec fn view(&self) -> StreamView {
        match self {
            Stream::Idle => StreamView::Idle,
            Stream::Attached(session) => StreamView::Attached(session@),
            Stream::Stopped => StreamView::Stopped,
        }
    }
}

impl StreamView {
    /// A stream whose table of invocations is within its bound.
    pub open spec fn wf(self) -> bool {
        match self {
            StreamView::Attached(session) => session.in_flight.wf(),
            _ => true,
        }
    }
}

/// Ends a screencast: the browser is told where there is one to tell.
pub open spec fn stop_actions(tell: bool, session: Option<Seq<char>>) -> Seq<ActionView> {
    if tell {
        seq![ActionView::Send(stop_command(session)), ActionView::SetScreencasting(false)]
    } else {
        seq![ActionView::SetScreencasting(false)]
    }
}

/// Ends the screencast that was left running while the stream was idle.
pub open spec fn idle_stop_actions(shared: SharedView) -> Seq<ActionView> {
    if shared.screencasting {
        stop_actions(shared.client != ClientSlot::Empty, shared.session_id)
    } else {
        seq![]
    }
}

/// Attaches to the client in the slot. A screencast is asked for at the size in device
/// pixels, so that a high-resolution display loses nothing.
pub open spec fn attach_actions(shared: SharedView) -> Seq<ActionView> {
    if is_chrome(shared.engine) {
        seq![
            ActionView::Subscribe,
            ActionView::Send(
                start_command(
                    shared.session_id,
                    "jpeg"@,
                    SCREENCAST_QUALITY as int,
                    shared.capture_width as int,
                    shared.capture_height as int,
                ),
            ),
            ActionView::Send(tools_command(shared.session_id)),
            ActionView::SetScreencasting(true),
            ActionView::AnnounceStatus,
        ]
    } else {
        seq![
            ActionView::Subscribe,
            ActionView::SetScreencasting(false),
            ActionView::AnnounceStatus,
        ]
    }
}

/// The attachment to the client in the slot.
pub open spec fn attached_to(shared: SharedView) -> SessionView {
    SessionView {
        session_id: shared.session_id,
        width: shared.width,
        height: shared.height,
        engine: shared.engine,
        in_flight: InFlightView::empty(),
    }
}

/// An idle stream attaches where there are viewers and a client, and ends what was left
/// running where there are no viewers.
pub open spec fn idle_woken(shared: SharedView) -> (StreamView, Seq<ActionView>) {
    if shared.client_count == 0 {
        (StreamView::Idle, idle_stop_actions(shared))
    } else if shared.client == ClientSlot::Empty {
        (StreamView::Idle, seq![])
    } else {
        (StreamView::Attached(attached_to(shared)), attach_actions(shared))
    }
}

/// Whether the client, the session or the viewport is no longer the one that the stream
/// is attached to.
pub open spec fn has_changed(session: SessionView, shared: SharedView) -> bool {
    ||| shared.client != ClientSlot::Attached
    ||| shared.session_id != session.session_id
    ||| shared.width != session.width
    ||| shared.height != session.height
    ||| shared.scale_changed
}

/// An attached stream lets go where the last viewer has left, and where something has
/// changed, in which case it asks to be woken up to attach anew.
pub open spec fn attached_woken(session: SessionView, shared: SharedView) -> (
    StreamView,
    Seq<ActionView>,
) {
    let stopped = stop_actions(is_chrome(session.engine), session.session_id);
    if shared.client_count == 0 {
        (StreamView::Idle, stopped)
    } else if has_changed(session, shared) {
        (StreamView::Idle, stopped.push(ActionView::NotifyAgain))
    } else {
        (StreamView::Attached(session), seq![])
    }
}

/// The attachment after an event.
pub open spec fn session_after(session: SessionView, event: EventView) -> SessionView {
    SessionView { in_flight: event_table(session.in_flight, event), ..session }
}

/// What a stream becomes on a wake-up, and what it asks for.
pub open spec fn step(stream: StreamView, wake: WakeView) -> (StreamView, Seq<ActionView>) {
    match (stream, wake) {
        (StreamView::Idle, WakeView::Shutdown { closed, requested, shared }) => if closed
            || requested {
            (StreamView::Stopped, idle_stop_actions(shared))
        } else {
            idle_woken(shared)
        },
        (StreamView::Idle, WakeView::Notified { shared }) => idle_woken(shared),
        (
            StreamView::Attached(session),
            WakeView::Shutdown { closed, requested, shared },
        ) => if closed || requested {
            (
                StreamView::Stopped,
                stop_actions(is_chrome(session.engine), shared.session_id),
            )
        } else {
            (stream, seq![])
        },
        (StreamView::Attached(session), WakeView::Notified { shared }) => attached_woken(
            session,
            shared,
        ),
        (StreamView::Attached(session), WakeView::Event { event, now }) => (
            StreamView::Attached(session_after(session, event)),
            event_actions(session.in_flight, session.width, session.height, event, now),
        ),
        (StreamView::Attached(_), WakeView::Closed) => (StreamView::Idle, seq![]),
        _ => (stream, seq![]),
    }
}

/// Whether two optional texts are the same.
fn same_optional(a: &Option<String>, b: &Option<String>) -> (same: bool)
    ensures
        same == (a.deep_view() == b.deep_view()),
{
    match (a, b) {
        (Some(a), Some(b)) => same_text(a.as_str(), b.as_str()),
        (None, None) => true,
        _ => false,
    }
}

fn stop(tell: bool, session: Option<String>) -> (actions: Vec<Action>)
    ensures
        actions_view(actions@) == stop_actions(tell, session.deep_view()),
{
    let mut actions = no_actions();
    if tell {
        add_action(&mut actions, Action::Send(stop_for(session)));
    }
    add_action(&mut actions, Action::SetScreencasting(false));
    actions
}

fn idle_stop(shared: Shared) -> (actions: Vec<Action>)
    ensures
        actions_view(actions@) == idle_stop_actions(shared@),
{
    if shared.screencasting {
        let tell = match shared.client {
            ClientSlot::Empty => false,
            _ => true,
        };
        stop(tell, shared.session_id)
    } else {
        no_actions()
    }
}

fn attach(shared: Shared) -> (done: (Stream, Vec<Action>))
    ensures
        done.0@ == StreamView::Attached(attached_to(shared@)),
        actions_view(done.1@) == attach_actions(shared@),
{
    let chrome = same_text(shared.engine.as_str(), "chrome");
    let mut actions = no_actions();
    add_action(&mut actions, Action::Subscribe);
    if chrome {
        let start = start_for(
            copy_text(&shared.session_id),
            "jpeg",
            SCREENCAST_QUALITY,
            shared.capture_width as i64,
            shared.capture_height as i64,
        );
        add_action(&mut actions, Action::Send(start));
        let enable = enable_tools_for(copy_text(&shared.session_id));
        add_action(&mut actions, Action::Send(enable));
    }
    add_action(&mut actions, Action::SetScreencasting(chrome));
    add_action(&mut actions, Action::AnnounceStatus);
    let session = Session {
        session_id: shared.session_id,
        width: shared.width,
        height: shared.height,
        engine: shared.engine,
        in_flight: InFlightTools::default(),
    };
    (Stream::Attached(session), actions)
}

fn wake_idle(shared: Shared) -> (done: (Stream, Vec<Action>))
    ensures
        (done.0@, actions_view(done.1@)) == idle_woken(shared@),
{
    if shared.client_count == 0 {
        (Stream::Idle, idle_stop(shared))
    } else {
        match shared.client {
            ClientSlot::Empty => (Stream::Idle, no_actions()),
            _ => attach(shared),
        }
    }
}

fn wake_attached(session: Session, shared: Shared) -> (done: (Stream, Vec<Action>))
    ensures
        (done.0@, actions_view(done.1@)) == attached_woken(session@, shared@),
{
    let chrome = same_text(session.engine.as_str(), "chrome");
    if shared.client_count == 0 {
        return (Stream::Idle, stop(chrome, session.session_id));
    }
    let client_changed = match shared.client {
        ClientSlot::Attached => false,
        _ => true,
    };
    let session_changed = !same_optional(&shared.session_id, &session.session_id);
    let viewport_changed = shared.width != session.width || shared.height != session.height
        || shared.scale_changed;
    if client_changed || session_changed || viewport_changed {
        let mut actions = stop(chrome, session.session_id);
        add_action(&mut actions, Action::NotifyAgain);
        (Stream::Idle, actions)
    } else {
        (Stream::Attached(session), no_actions())
    }
}

impl Stream {
    /// Takes one wake-up: gives the stream as it is then, and what is to be done, in
    /// order.
    pub fn step(self, wake: Wake) -> (done: (Stream, Vec<Action>))
        requires
            self@.wf(),
        ensures
            (done.0@, actions_view(done.1@)) == step(self@, wake@),
            done.0@.wf(),
    {
        match self {
            Stream::Idle => match wake {
                Wake::Shutdown { closed, requested, shared } => {
                    if closed || requested {
                        (Stream::Stopped, idle_stop(shared))
                    } else {
                        wake_idle(shared)
                    }
                },
                Wake::Notified { shared } => wake_idle(shared),
                _ => (Stream::Idle, no_actions()),
            },
            Stream::Attached(session) => match wake {
                Wake::Shutdown { closed, requested, shared } => {
                    if closed || requested {
                        let chrome = same_text(session.engine.as_str(), "chrome");
                        (Stream::Stopped, stop(chrome, shared.session_id))
                    } else {
                        (Stream::Attached(session), no_actions())
                    }
                },
                Wake::Notified { shared } => wake_attached(session, shared),
                Wake::Event { event, now } => {
                    let mut session = session;
                    let actions = handle_event(
                        &mut session.in_flight,
                        session.width,
                        session.height,
                        event,
                        now,
                    );
                    (Stream::Attached(session), actions)
                },
                Wake::Lagged => (Stream::Attached(session), no_actions()),
                Wake::Closed => (Stream::Idle, no_actions()),
            },
            Stream::Stopped => (Stream::Stopped, no_actions()),
        }
    }
}

/// The stream after several wake-ups, the first one first.
pub open spec fn run(stream: StreamView, wakes: Seq<WakeView>) -> StreamView
    decreases wakes.len(),
{
    if wakes.len() == 0 {
        stream
    } else {
        run(step(stream, wakes.first()).0, wakes.drop_first())
    }
}

/// Whether a screencast is said to be running after some actions were done.
pub open spec fn said_after(said: bool, actions: Seq<ActionView>) -> bool
    decreases actions.len(),
{
    if actions.len() == 0 {
        said
    } else {
        match actions.last() {
            ActionView::SetScreencasting(on) => on,
            _ => said_after(said, actions.drop_last()),
        }
    }
}

/// Whether the actions send a command.
pub open spec fn sends(actions: Seq<ActionView>, command: CommandView) -> bool {
    actions.contains(ActionView::Send(command))
}

/// The shared state that a wake-up carries.
pub open spec fn shared_in(wake: WakeView) -> Option<SharedView> {
    match wake {
        WakeView::Shutdown { shared, .. } => Some(shared),
        WakeView::Notified { shared } => Some(shared),
        _ => None,
    }
}

/// What is said about the screencast fits the stream: an attached one has a screencast
/// running exactly where its engine can do one, and a stopped one has none.
pub open spec fn fits(stream: StreamView, said: bool) -> bool {
    match stream {
        StreamView::Attached(session) => said == is_chrome(session.engine),
        StreamView::Stopped => !said,
        StreamView::Idle => true,
    }
}

/// Whatever happens, the table of invocations stays within its bound.
pub proof fn law_every_state_is_bounded(stream: StreamView, wakes: Seq<WakeView>)
    requires
        stream.wf(),
    ensures
        run(stream, wakes).wf(),
    decreases wakes.len(),
{
    if wakes.len() > 0 {
        let wake = wakes.first();
        if let (StreamView::Attached(session), WakeView::Event { event, now }) = (stream, wake) {
            if event.method == "WebMCP.toolInvoked"@ {
                lemma_record_keeps_bound(
                    session.in_flight,
                    text_or_empty(event.params, "invocationId"@),
                    text_or_empty(event.params, "toolName"@),
                    text_or_empty(event.params, "frameId"@),
                );
            }
            lemma_take_keeps_bound(
                session.in_flight,
                text_or_empty(event.params, "invocationId"@),
            );
        }
        law_every_state_is_bounded(step(stream, wake).0, wakes.drop_first());
    }
}

/// A shutdown that is asked for, or whose channel is closed, stops the stream in every
/// state, and no screencast is said to run afterwards.
pub proof fn law_shutdown_stops(
    stream: StreamView,
    closed: bool,
    requested: bool,
    shared: SharedView,
    said: bool,
)
    requires
        closed || requested,
        fits(stream, said),
        said == shared.screencasting,
    ensures
        ({
            let (next, actions) = step(
                stream,
                WakeView::Shutdown { closed, requested, shared },
            );
            &&& next == StreamView::Stopped
            &&& !said_after(said, actions)
        }),
{
    reveal_with_fuel(said_after, 3);
}

/// A stream that has stopped stays so and asks for nothing.
pub proof fn law_stopped_is_final(wake: WakeView)
    ensures
        step(StreamView::Stopped, wake) == (StreamView::Stopped, Seq::<ActionView>::empty()),
{
}

/// What is said about the screencast fits the stream after every wake-up.
pub proof fn law_what_is_said_fits(stream: StreamView, wake: WakeView, said: bool)
    requires
        fits(stream, said),
        shared_in(wake) matches Some(shared) ==> shared.screencasting == said,
    ensures
        ({
            let (next, actions) = step(stream, wake);
            fits(next, said_after(said, actions))
        }),
{
    reveal_with_fuel(said_after, 6);
    if let (StreamView::Attached(session), WakeView::Event { event, now }) = (stream, wake) {
        law_events_keep_the_screencast(
            session.in_flight,
            session.width,
            session.height,
            event,
            now,
        );
        lemma_unsaid(
            event_actions(session.in_flight, session.width, session.height, event, now),
            said,
        );
    }
}

proof fn lemma_unsaid(actions: Seq<ActionView>, said: bool)
    requires
        forall|i: int|
            0 <= i < actions.len() ==> !((#[trigger] actions[i]) is SetScreencasting),
    ensures
        said_after(said, actions) == said,
    decreases actions.len(),
{
    if actions.len() > 0 {
        assert(actions.last() == actions[actions.len() - 1]);
        assert forall|i: int| 0 <= i < actions.drop_last().len() implies !((
        #[trigger] actions.drop_last()[i]) is SetScreencasting) by {
            assert(actions.drop_last()[i] == actions[i]);
        }
        lemma_unsaid(actions.drop_last(), said);
    }
}

/// Without viewers nothing is streamed: on being notified the stream is idle, no
/// screencast is said to run, and one that was running is stopped in the browser where
/// there is one to tell.
pub proof fn law_no_viewers_no_screencast(stream: StreamView, shared: SharedView, said: bool)
    requires
        shared.client_count == 0,
        stream != StreamView::Stopped,
        fits(stream, said),
        shared.screencasting == said,
    ensures
        ({
            let (next, actions) = step(stream, WakeView::Notified { shared });
            &&& next == StreamView::Idle
            &&& !said_after(said, actions)
            &&& match stream {
                StreamView::Attached(session) => said ==> sends(
                    actions,
                    stop_command(session.session_id),
                ),
                _ => said && shared.client != ClientSlot::Empty ==> sends(
                    actions,
                    stop_command(shared.session_id),
                ),
            }
        }),
{
    reveal_with_fuel(said_after, 3);
    let (next, actions) = step(stream, WakeView::Notified { shared });
    if actions.len() > 1 {
        assert(actions[0] is Send);
    }
}

/// A stream that lets go of its client by a shutdown or a notification tells the browser
/// to stop exactly where it had a screencast running, and sends it nothing else.
pub proof fn law_letting_go_stops_the_screencast(session: SessionView, wake: WakeView)
    requires
        wake is Shutdown || wake is Notified,
        !(step(StreamView::Attached(session), wake).0 is Attached),
    ensures
        ({
            let actions = step(StreamView::Attached(session), wake).1;
            let told = if wake is Shutdown {
                shared_in(wake)->0.session_id
            } else {
                session.session_id
            };
            &&& is_chrome(session.engine) <==> sends(actions, stop_command(told))
            &&& forall|command: CommandView|
                sends(actions, command) ==> command == stop_command(told)
            &&& !said_after(is_chrome(session.engine), actions)
        }),
{
    reveal_with_fuel(said_after, 4);
    let actions = step(StreamView::Attached(session), wake).1;
    if is_chrome(session.engine) {
        assert(actions[0] is Send);
    }
}

/// Only the engine that can do a screencast is asked for one and for its page tools; of
/// any other nothing is asked.
pub proof fn law_only_chrome_is_asked(shared: SharedView)
    ensures
        ({
            let actions = attach_actions(shared);
            let start = start_command(
                shared.session_id,
                "jpeg"@,
                SCREENCAST_QUALITY as int,
                shared.capture_width as int,
                shared.capture_height as int,
            );
            let tools = tools_command(shared.session_id);
            &&& is_chrome(shared.engine) ==> sends(actions, start) && sends(actions, tools)
            &&& forall|command: CommandView|
                sends(actions, command) ==> is_chrome(shared.engine) && (command == start
                    || command == tools)
        }),
{
    let actions = attach_actions(shared);
    if is_chrome(shared.engine) {
        assert(actions[1] is Send);
        assert(actions[2] is Send);
    }
}

/// A viewport, session or client that changed while there are viewers makes the stream
/// let go and ask to be woken up; on that wake-up it attaches to what is there then,
/// with an empty table of invocations.
pub proof fn law_a_change_leads_to_a_new_attachment(
    session: SessionView,
    shared: SharedView,
    later: SharedView,
)
    requires
        shared.client_count > 0,
        has_changed(session, shared),
        later.client_count > 0,
        later.client != ClientSlot::Empty,
    ensures
        ({
            let (next, actions) = step(
                StreamView::Attached(session),
                WakeView::Notified { shared },
            );
            &&& next == StreamView::Idle
            &&& actions.len() > 0 && actions.last() == ActionView::NotifyAgain
            &&& step(next, WakeView::Notified { shared: later }) == (
                StreamView::Attached(attached_to(later)),
                attach_actions(later),
            )
        }),
{
}

/// A notification that changes nothing of what the stream is attached to leaves it as it
/// is and asks for nothing.
pub proof fn law_no_change_is_quiet(session: SessionView, shared: SharedView)
    requires
        shared.client_count > 0,
        !has_changed(session, shared),
    ensures
        step(StreamView::Attached(session), WakeView::Notified { shared }) == (
            StreamView::Attached(session),
            Seq::<ActionView>::empty(),
        ),
{
}

/// A stream attaches on no other occasion than being woken up idle with a viewer and a
/// client there.
pub proof fn law_attaching_takes_a_viewer_and_a_client(stream: StreamView, wake: WakeView)
    requires
        !(stream is Attached),
        step(stream, wake).0 is Attached,
    ensures
        stream == StreamView::Idle,
        shared_in(wake) matches Some(shared) && shared.client_count > 0 && shared.client
            != ClientSlot::Empty && step(stream, wake).0 == StreamView::Attached(
            attached_to(shared),
        ),
{
}

/// Only the engine called `chrome` can do a screencast.
pub proof fn law_chrome_is_the_engine_called_so(engine: Seq<char>)
    ensures
        is_chrome(engine) <==> engine == "chrome"@,
{
}

/// The shared state is what it holds, each thing for itself.
pub proof fn law_shared_is_what_it_holds(shared: Shared)
    ensures
        shared@.client_count == shared.client_count,
        shared@.client == shared.client,
        shared.session_id matches Some(id) ==> shared@.session_id == Some(id@),
        shared.session_id is None ==> shared@.session_id is None,
        shared@.width == shared.width,
        shared@.height == shared.height,
        shared@.scale_changed == shared.scale_changed,
        shared@.capture_width == shared.capture_width,
        shared@.capture_height == shared.capture_height,
        shared@.engine == shared.engine@,
        shared@.screencasting == shared.screencasting,
{
}

/// An attachment is what it holds, each thing for itself, and so is a stream.
pub proof fn law_a_session_is_what_it_holds(session: Session)
    ensures
        session.session_id matches Some(id) ==> session@.session_id == Some(id@),
        session.session_id is None ==> session@.session_id is None,
        session@.width == session.width,
        session@.height == session.height,
        session@.engine == session.engine@,
        session@.in_flight == session.in_flight@,
        Stream::Attached(session)@ == StreamView::Attached(session@),
        Stream::Idle@ == StreamView::Idle,
        Stream::Stopped@ == StreamView::Stopped,
{
}

/// A wake-up is what it holds.
pub proof fn law_a_wake_up_is_what_it_holds(
    closed: bool,
    requested: bool,
    shared: Shared,
    event: Event,
    now: u64,
)
    ensures
        (Wake::Shutdown { closed, requested, shared })@ == (WakeView::Shutdown {
            closed,
            requested,
            shared: shared@,
        }),
        (Wake::Notified { shared })@ == (WakeView::Notified { shared: shared@ }),
        (Wake::Event { event, now })@ == (WakeView::Event { event: event@, now }),
        Wake::Lagged@ == WakeView::Lagged,
        Wake::Closed@ == WakeView::Closed,
{
}

/// The actions begin with the command that stops the screencast of a session, where there
/// is one to tell, and then say that none is running.
pub open spec fn begins_with_stop(
    actions: Seq<ActionView>,
    told: bool,
    session: Option<Seq<char>>,
) -> bool {
    if told {
        &&& actions.len() >= 2
        &&& actions[0] is Send
        &&& actions[0]->Send_0.method == "Page.stopScreencast"@
        &&& actions[0]->Send_0.params is None
        &&& actions[0]->Send_0.session == session
        &&& actions[1] == ActionView::SetScreencasting(false)
    } else {
        &&& actions.len() >= 1
        &&& actions[0] == ActionView::SetScreencasting(false)
    }
}

/// An idle stream that is shut down stops, and one that is woken up without viewers stays
/// idle; both end a screencast that is said to run, in the session of the moment, and do
/// nothing where none is.
pub proof fn law_an_idle_stream_ends_what_runs(
    closed: bool,
    requested: bool,
    shared: SharedView,
)
    ensures
        ({
            let (next, actions) = step(
                StreamView::Idle,
                WakeView::Shutdown { closed, requested, shared },
            );
            closed || requested ==> {
                &&& next == StreamView::Stopped
                &&& !shared.screencasting ==> actions.len() == 0
                &&& shared.screencasting ==> actions.len() == if shared.client
                    == ClientSlot::Empty {
                    1nat
                } else {
                    2nat
                }
                &&& shared.screencasting ==> begins_with_stop(
                    actions,
                    shared.client != ClientSlot::Empty,
                    shared.session_id,
                )
            }
        }),
        ({
            let (next, actions) = step(StreamView::Idle, WakeView::Notified { shared });
            shared.client_count == 0 ==> {
                &&& next == StreamView::Idle
                &&& !shared.screencasting ==> actions.len() == 0
                &&& shared.screencasting ==> actions.len() == if shared.client
                    == ClientSlot::Empty {
                    1nat
                } else {
                    2nat
                }
                &&& shared.screencasting ==> begins_with_stop(
                    actions,
                    shared.client != ClientSlot::Empty,
                    shared.session_id,
                )
            }
        }),
{
}

/// A change of the shutdown value that does not ask for a shutdown wakes an idle stream up
/// like any notification, and leaves an attached one as it is.
pub proof fn law_a_shutdown_not_asked_for(session: SessionView, shared: SharedView)
    ensures
        ({
            let wake = WakeView::Shutdown { closed: false, requested: false, shared };
            &&& step(StreamView::Idle, wake) == step(
                StreamView::Idle,
                WakeView::Notified { shared },
            )
            &&& step(StreamView::Attached(session), wake).0 == StreamView::Attached(session)
            &&& step(StreamView::Attached(session), wake).1.len() == 0
        }),
{
}

/// An idle stream with viewers but no client waits.
pub proof fn law_an_idle_stream_waits_for_a_client(shared: SharedView)
    requires
        shared.client == ClientSlot::Empty,
        shared.client_count > 0,
    ensures
        step(StreamView::Idle, WakeView::Notified { shared }).0 == StreamView::Idle,
        step(StreamView::Idle, WakeView::Notified { shared }).1.len() == 0,
{
}

/// An idle stream with a viewer and a client attaches with the session, the viewport and
/// the engine of the moment, remembering no invocation. It subscribes first and announces
/// its status last, once it is said whether a screencast runs. In between `chrome` is
/// asked for JPEG frames of quality 80 in device pixels and for page tools, any other
/// engine for nothing.
pub proof fn law_attaching(shared: SharedView)
    requires
        shared.client_count > 0,
        shared.client != ClientSlot::Empty,
    ensures
        ({
            let (next, actions) = step(StreamView::Idle, WakeView::Notified { shared });
            let chrome = shared.engine == "chrome"@;
            &&& next is Attached
            &&& next->Attached_0.session_id == shared.session_id
            &&& next->Attached_0.width == shared.width
            &&& next->Attached_0.height == shared.height
            &&& next->Attached_0.engine == shared.engine
            &&& next->Attached_0.in_flight.order.len() == 0
            &&& next->Attached_0.in_flight.by_id.dom() == Set::<Seq<char>>::empty()
            &&& actions.len() == if chrome {
                5nat
            } else {
                3nat
            }
            &&& actions[0] == ActionView::Subscribe
            &&& actions[actions.len() - 2] == ActionView::SetScreencasting(chrome)
            &&& actions[actions.len() - 1] == ActionView::AnnounceStatus
            &&& chrome ==> {
                let start = actions[1]->Send_0;
                let params = start.params->0;
                &&& actions[1] is Send
                &&& start.method == "Page.startScreencast"@
                &&& start.session == shared.session_id
                &&& start.params is Some
                &&& params is Object
                &&& params->Object_0.dom() == set![
                    "format"@,
                    "quality"@,
                    "maxWidth"@,
                    "maxHeight"@,
                    "everyNthFrame"@,
                ]
                &&& params.get("format"@) == Some(JsonView::Text("jpeg"@))
                &&& params.get("quality"@) == Some(JsonView::Number(NumberView::Integer(80)))
                &&& params.get("maxWidth"@) == Some(
                    JsonView::Number(NumberView::Integer(shared.capture_width as int)),
                )
                &&& params.get("maxHeight"@) == Some(
                    JsonView::Number(NumberView::Integer(shared.capture_height as int)),
                )
                &&& params.get("everyNthFrame"@) == Some(
                    JsonView::Number(NumberView::Integer(1)),
                )
                &&& actions[2] is Send
                &&& actions[2]->Send_0.method == "WebMCP.enable"@
                &&& actions[2]->Send_0.params is None
                &&& actions[2]->Send_0.session == shared.session_id
            }
        }),
{
    law_starting_carries_what_is_asked(
        shared.session_id,
        "jpeg"@,
        SCREENCAST_QUALITY as int,
        shared.capture_width as int,
        shared.capture_height as int,
    );
    assert(InFlightView::empty().by_id.dom() =~= Set::<Seq<char>>::empty());
}

/// An attached stream that is shut down stops, and ends the screencast of `chrome` in the
/// session of the moment.
pub proof fn law_an_attached_stream_is_shut_down(
    session: SessionView,
    closed: bool,
    requested: bool,
    shared: SharedView,
)
    requires
        closed || requested,
    ensures
        ({
            let (next, actions) = step(
                StreamView::Attached(session),
                WakeView::Shutdown { closed, requested, shared },
            );
            let chrome = session.engine == "chrome"@;
            &&& next == StreamView::Stopped
            &&& actions.len() == if chrome {
                2nat
            } else {
                1nat
            }
            &&& begins_with_stop(actions, chrome, shared.session_id)
        }),
{
}

/// An attached stream that is notified after the last viewer has left becomes idle, and
/// ends the screencast of `chrome` in the session that it was attached to.
pub proof fn law_the_last_viewer_ends_the_attachment(session: SessionView, shared: SharedView)
    requires
        shared.client_count == 0,
    ensures
        ({
            let (next, actions) = step(
                StreamView::Attached(session),
                WakeView::Notified { shared },
            );
            let chrome = session.engine == "chrome"@;
            &&& next == StreamView::Idle
            &&& actions.len() == if chrome {
                2nat
            } else {
                1nat
            }
            &&& begins_with_stop(actions, chrome, session.session_id)
        }),
{
}

/// A client, a session, a width, a height or a scale that is not the one that the stream is
/// attached to, in whichever direction it changed, makes an attached stream with viewers
/// idle: it ends the screencast of `chrome` in the session that it was attached to, and
/// asks last to be woken up again.
pub proof fn law_any_difference_ends_the_attachment(session: SessionView, shared: SharedView)
    requires
        shared.client_count > 0,
        shared.client != ClientSlot::Attached || shared.session_id != session.session_id
            || shared.width < session.width || shared.width > session.width || shared.height
            < session.height || shared.height > session.height || shared.scale_changed,
    ensures
        ({
            let (next, actions) = step(
                StreamView::Attached(session),
                WakeView::Notified { shared },
            );
            let chrome = session.engine == "chrome"@;
            &&& next == StreamView::Idle
            &&& actions.len() == if chrome {
                3nat
            } else {
                2nat
            }
            &&& begins_with_stop(actions, chrome, session.session_id)
            &&& actions[actions.len() - 1] == ActionView::NotifyAgain
        }),
{
}

/// A stream that stays attached after a notification has a viewer and is attached to what
/// is there: the same client, session, width, height and scale. It is then as it was, and
/// nothing is done. With all of these the same it does stay attached.
pub proof fn law_staying_attached_means_no_difference(session: SessionView, shared: SharedView)
    ensures
        ({
            let (next, actions) = step(
                StreamView::Attached(session),
                WakeView::Notified { shared },
            );
            &&& next is Attached <==> shared.client_count > 0 && shared.client
                == ClientSlot::Attached && shared.session_id == session.session_id
                && shared.width == session.width && shared.height == session.height
                && !shared.scale_changed
            &&& next is Attached ==> next == StreamView::Attached(session) && actions.len() == 0
            &&& !(next is Stopped)
        }),
{
}

/// An event keeps a stream attached to what it was attached to, and calls for what the
/// event calls for in a viewport of that size.
pub proof fn law_an_event_keeps_the_attachment(
    session: SessionView,
    event: EventView,
    now: u64,
)
    ensures
        ({
            let (next, actions) = step(
                StreamView::Attached(session),
                WakeView::Event { event, now },
            );
            &&& next is Attached
            &&& next->Attached_0.session_id == session.session_id
            &&& next->Attached_0.width == session.width
            &&& next->Attached_0.height == session.height
            &&& next->Attached_0.engine == session.engine
            &&& next->Attached_0.in_flight == event_table(session.in_flight, event)
            &&& actions == event_actions(
                session.in_flight,
                session.width,
                session.height,
                event,
                now,
            )
        }),
{
}

/// Lost events change nothing, and the end of the events makes an attached stream idle and
/// calls for nothing. Neither these nor an event wake an idle stream up.
pub proof fn law_lost_and_ended_events(session: SessionView, event: EventView, now: u64)
    ensures
        ({
            let lagged = step(StreamView::Attached(session), WakeView::Lagged);
            let closed = step(StreamView::Attached(session), WakeView::Closed);
            &&& lagged.0 == StreamView::Attached(session)
            &&& lagged.1.len() == 0
            &&& closed.0 == StreamView::Idle
            &&& closed.1.len() == 0
        }),
        step(StreamView::Idle, WakeView::Lagged).0 == StreamView::Idle,
        step(StreamView::Idle, WakeView::Lagged).1.len() == 0,
        step(StreamView::Idle, WakeView::Closed).0 == StreamView::Idle,
        step(StreamView::Idle, WakeView::Closed).1.len() == 0,
        step(StreamView::Idle, WakeView::Event { event, now }).0 == StreamView::Idle,
        step(StreamView::Idle, WakeView::Event { event, now }).1.len() == 0,
{
}

} // verus!
