//! What the browser reports, and what comes of it.

use vstd::prelude::*;
use vstd::utf8::encode_utf8;

use crate::action::{Action, add_action, no_actions};
use crate::action::{ActionView, actions_view};
use crate::command::{ack_for, copy_text};
use crate::command::{ack_command, law_an_acknowledgement_carries_its_number};
use crate::in_flight::InFlightTools;
use crate::in_flight::{
    Happening,
    InFlightView,
    ToolView,
    law_a_new_invocation_is_the_newest,
    law_found_once,
    law_remembered_until_crowded_out,
    later,
    lemma_record_keeps_bound,
    never_crowded,
};
use crate::json::Json;
use crate::json::{JsonView, NumberView};
use crate::keys::lemma_event_methods;
use crate::message::{
    build_frame,
    build_page_error,
    build_tool_invoked,
    build_tool_responded,
    build_url,
};
use crate::message::{
    frame_message,
    law_a_frame_message_reads_back,
    law_a_page_error_message_reads_back,
    law_a_tool_invoked_message_reads_back,
    law_a_tool_responded_message_reads_back,
    law_a_url_message_reads_back,
    metadata_real,
    metadata_timestamp,
    page_error_message,
    tool_invoked_message,
    tool_responded_message,
    url_message,
};
use crate::payload::{webmcp_error_text, webmcp_payload_text};
use crate::payload::{error_text, payload_text, truncated};
use crate::text::same_text;
use crate::value::json_text;

verus! {

/// What an event of the browser is.
pub struct EventView {
    pub method: Seq<char>,
    pub params: JsonView,
    pub session: Option<Seq<char>>,
}

/// An event of the browser.
pub struct Event {
    pub method: String,
    pub params: Json,
    pub session: Option<String>,
}

impl View for Event {
    type V = EventView;

    open spec fn view(&self) -> EventView {
        EventView {
            method: self.method@,
            params: self.params@,
            session: self.session.deep_view(),
        }
    }
}

/// The string member under a key, or the empty string.
pub open spec fn text_or_empty(params: JsonView, key: Seq<char>) -> Seq<char> {
    match params.text_at(key) {
        Some(text) => text,
        None => Seq::empty(),
    }
}

/// A navigation tells the viewers the new address where it is of the main frame, that
/// is of one that names no parent.
pub open spec fn on_frame_navigated(params: JsonView, now: u64) -> Seq<ActionView> {
    match params.get("frame"@) {
        Some(frame) if text_or_empty(frame, "parentId"@).len() == 0 => match frame.text_at(
            "url"@,
        ) {
            Some(url) => seq![
                ActionView::SetActiveUrl(url),
                ActionView::Broadcast(url_message(url, now)),
            ],
            None => seq![],
        },
        _ => seq![],
    }
}

/// A screencast frame is acknowledged to the session that it came from, and passed on.
pub open spec fn on_screencast_frame(
    params: JsonView,
    session: Option<Seq<char>>,
    width: u32,
    height: u32,
) -> Seq<ActionView> {
    let acked = match params.i64_at("sessionId"@) {
        Some(id) => seq![ActionView::Send(ack_command(session, id))],
        None => seq![],
    };
    match params.text_at("data"@) {
        Some(data) => acked.push(
            ActionView::BroadcastFrame(
                frame_message(data, params.get("metadata"@), width, height),
            ),
        ),
        None => acked,
    }
}

/// The level of a console call.
pub open spec fn console_level(params: JsonView) -> Seq<char> {
    match params.text_at("type"@) {
        Some(level) => level,
        None => "log"@,
    }
}

/// The arguments of a console call.
pub open spec fn console_args(params: JsonView) -> Seq<JsonView> {
    match params.get("args"@) {
        Some(JsonView::Array(args)) => args,
        _ => seq![],
    }
}

/// What an uncaught exception says: the description of what was thrown, or else the
/// summary of the report.
pub open spec fn exception_text(params: JsonView) -> Seq<char> {
    match params.get("exceptionDetails"@) {
        Some(details) => match details.get("exception"@) {
            Some(exception) if exception.text_at("description"@) is Some => exception.text_at(
                "description"@,
            )->0,
            _ => match details.text_at("text"@) {
                Some(text) => text,
                None => "Unknown error"@,
            },
        },
        None => "Unknown error"@,
    }
}

/// A position in the report of an uncaught exception.
pub open spec fn exception_position(params: JsonView, key: Seq<char>) -> Option<i64> {
    match params.get("exceptionDetails"@) {
        Some(details) => details.i64_at(key),
        None => None,
    }
}

/// The message about an invocation.
pub open spec fn invoked_message(params: JsonView, now: u64) -> JsonView {
    tool_invoked_message(
        text_or_empty(params, "invocationId"@),
        text_or_empty(params, "toolName"@),
        text_or_empty(params, "frameId"@),
        text_or_empty(params, "input"@),
        now,
    )
}

/// The table after an invocation, which is remembered where it has an identifier.
pub open spec fn after_invoked(table: InFlightView, params: JsonView) -> InFlightView {
    if text_or_empty(params, "invocationId"@).len() > 0 {
        table.record(
            text_or_empty(params, "invocationId"@),
            text_or_empty(params, "toolName"@),
            text_or_empty(params, "frameId"@),
        )
    } else {
        table
    }
}

/// The output of a tool, as text, where there is one.
pub open spec fn output_text(params: JsonView) -> Option<Seq<char>> {
    match params.get("output"@) {
        Some(output) => Some(payload_text(output)),
        None => None,
    }
}

/// The message about a response. The tool is the one that the table names.
pub open spec fn responded_message(table: InFlightView, params: JsonView, now: u64) -> JsonView {
    let invocation = text_or_empty(params, "invocationId"@);
    tool_responded_message(
        invocation,
        table.find(invocation),
        text_or_empty(params, "status"@),
        output_text(params),
        error_text(params),
        now,
    )
}

/// The actions that an event calls for, with the size of the viewport and the time.
pub open spec fn event_actions(
    table: InFlightView,
    width: u32,
    height: u32,
    event: EventView,
    now: u64,
) -> Seq<ActionView> {
    if event.method == "Page.frameNavigated"@ {
        on_frame_navigated(event.params, now)
    } else if event.method == "Page.screencastFrame"@ {
        on_screencast_frame(event.params, event.session, width, height)
    } else if event.method == "Runtime.consoleAPICalled"@ {
        seq![
            ActionView::FormatConsole {
                level: console_level(event.params),
                args: console_args(event.params),
            },
        ]
    } else if event.method == "Runtime.exceptionThrown"@ {
        seq![
            ActionView::Broadcast(
                page_error_message(
                    exception_text(event.params),
                    exception_position(event.params, "lineNumber"@),
                    exception_position(event.params, "columnNumber"@),
                    now,
                ),
            ),
        ]
    } else if event.method == "WebMCP.toolInvoked"@ {
        seq![ActionView::Broadcast(invoked_message(event.params, now))]
    } else if event.method == "WebMCP.toolResponded"@ {
        seq![ActionView::Broadcast(responded_message(table, event.params, now))]
    } else {
        seq![]
    }
}

/// The table after an event.
pub open spec fn event_table(table: InFlightView, event: EventView) -> InFlightView {
    if event.method == "WebMCP.toolInvoked"@ {
        after_invoked(table, event.params)
    } else if event.method == "WebMCP.toolResponded"@ {
        table.taken(text_or_empty(event.params, "invocationId"@))
    } else {
        table
    }
}

fn read_text(params: &Json, key: &str) -> (text: String)
    ensures
        text@ == text_or_empty(params@, key@),
{
    match params.text_at(key) {
        Some(text) => text.to_owned(),
        None => String::new(),
    }
}

fn frame_navigated(params: &Json, now: u64) -> (actions: Vec<Action>)
    ensures
        actions_view(actions@) == on_frame_navigated(params@, now),
{
    let mut actions = no_actions();
    if let Some(frame) = params.get("frame") {
        let parent = read_text(frame, "parentId");
        if parent.as_str().is_empty() {
            if let Some(url) = frame.text_at("url") {
                add_action(&mut actions, Action::SetActiveUrl(url.to_owned()));
                add_action(&mut actions, Action::Broadcast(build_url(url, now)));
            }
        }
    }
    actions
}

fn screencast_frame(
    params: &Json,
    session: &Option<String>,
    width: u32,
    height: u32,
) -> (actions: Vec<Action>)
    ensures
        actions_view(actions@) == on_screencast_frame(
            params@,
            session.deep_view(),
            width,
            height,
        ),
{
    let mut actions = no_actions();
    if let Some(id) = params.i64_at("sessionId") {
        add_action(&mut actions, Action::Send(ack_for(copy_text(session), id)));
    }
    if let Some(data) = params.text_at("data") {
        let message = build_frame(data, params.get("metadata"), width, height);
        add_action(&mut actions, Action::BroadcastFrame(message));
    }
    actions
}

fn console_called(params: Json) -> (action: Action)
    ensures
        action@ == (ActionView::FormatConsole {
            level: console_level(params@),
            args: console_args(params@),
        }),
{
    let level = match params.text_at("type") {
        Some(level) => level.to_owned(),
        None => "log".to_owned(),
    };
    let args = match params.into_member("args") {
        Some(Json::Array(args)) => args,
        _ => {
            let args: Vec<Json> = Vec::new();
            args
        },
    };
    Action::FormatConsole { level, args }
}

fn exception_thrown(params: &Json, now: u64) -> (message: Json)
    ensures
        message@ == page_error_message(
            exception_text(params@),
            exception_position(params@, "lineNumber"@),
            exception_position(params@, "columnNumber"@),
            now,
        ),
{
    let mut text: &str = "Unknown error";
    let mut line: Option<i64> = None;
    let mut column: Option<i64> = None;
    if let Some(details) = params.get("exceptionDetails") {
        line = details.i64_at("lineNumber");
        column = details.i64_at("columnNumber");
        let description = match details.get("exception") {
            Some(exception) => exception.text_at("description"),
            None => None,
        };
        if let Some(description) = description {
            text = description;
        } else if let Some(summary) = details.text_at("text") {
            text = summary;
        }
    }
    build_page_error(text, line, column, now)
}

fn tool_invoked(table: &mut InFlightTools, params: &Json, now: u64) -> (message: Json)
    requires
        old(table)@.wf(),
    ensures
        message@ == invoked_message(params@, now),
        final(table)@ == after_invoked(old(table)@, params@),
        final(table)@.wf(),
{
    let invocation = read_text(params, "invocationId");
    let tool = read_text(params, "toolName");
    let frame = read_text(params, "frameId");
    if !invocation.as_str().is_empty() {
        table.record(invocation.as_str(), tool.as_str(), frame.as_str());
    }
    build_tool_invoked(
        invocation.as_str(),
        tool.as_str(),
        frame.as_str(),
        read_text(params, "input"),
        now,
    )
}

fn tool_responded(table: &mut InFlightTools, params: &Json, now: u64) -> (message: Json)
    requires
        old(table)@.wf(),
    ensures
        message@ == responded_message(old(table)@, params@, now),
        final(table)@ == old(table)@.taken(text_or_empty(params@, "invocationId"@)),
        final(table)@.wf(),
{
    let invocation = read_text(params, "invocationId");
    let status = read_text(params, "status");
    let found = table.take(invocation.as_str());
    let output = match params.get("output") {
        Some(output) => Some(webmcp_payload_text(output)),
        None => None,
    };
    let error = webmcp_error_text(params);
    build_tool_responded(invocation.as_str(), found, status.as_str(), output, error, now)
}

/// The methods about tools are none of the others, nor each other.
pub(crate) proof fn lemma_tool_methods()
    ensures
        "WebMCP.toolInvoked"@ != "WebMCP.toolResponded"@,
        "WebMCP.toolInvoked"@ != "Page.frameNavigated"@,
        "WebMCP.toolInvoked"@ != "Page.screencastFrame"@,
        "WebMCP.toolInvoked"@ != "Runtime.consoleAPICalled"@,
        "WebMCP.toolInvoked"@ != "Runtime.exceptionThrown"@,
        "WebMCP.toolResponded"@ != "Page.frameNavigated"@,
        "WebMCP.toolResponded"@ != "Page.screencastFrame"@,
        "WebMCP.toolResponded"@ != "Runtime.consoleAPICalled"@,
        "WebMCP.toolResponded"@ != "Runtime.exceptionThrown"@,
{
    reveal_strlit("Page.frameNavigated");
    reveal_strlit("Page.screencastFrame");
    reveal_strlit("Runtime.consoleAPICalled");
    reveal_strlit("Runtime.exceptionThrown");
    reveal_strlit("WebMCP.toolInvoked");
    reveal_strlit("WebMCP.toolResponded");
    assert("Page.frameNavigated"@[0] == 'P');
    assert("Page.screencastFrame"@[0] == 'P');
    assert("Runtime.consoleAPICalled"@[0] == 'R');
    assert("Runtime.exceptionThrown"@[0] == 'R');
    assert("WebMCP.toolInvoked"@[0] == 'W');
    assert("WebMCP.toolResponded"@[0] == 'W');
    assert("WebMCP.toolInvoked"@[11] == 'I');
    assert("WebMCP.toolResponded"@[11] == 'R');
}

/// Handles an event of the browser: gives the actions that it calls for, and keeps the
/// table of invocations.
pub fn handle_event(
    table: &mut InFlightTools,
    width: u32,
    height: u32,
    event: Event,
    now: u64,
) -> (actions: Vec<Action>)
    requires
        old(table)@.wf(),
    ensures
        actions_view(actions@) == event_actions(old(table)@, width, height, event@, now),
        final(table)@ == event_table(old(table)@, event@),
        final(table)@.wf(),
{
    proof {
        lemma_tool_methods();
    }
    let method = event.method.as_str();
    if same_text(method, "Page.frameNavigated") {
        return frame_navigated(&event.params, now);
    }
    if same_text(method, "Page.screencastFrame") {
        return screencast_frame(&event.params, &event.session, width, height);
    }
    let mut actions = no_actions();
    if same_text(method, "Runtime.consoleAPICalled") {
        add_action(&mut actions, console_called(event.params));
    } else if same_text(method, "Runtime.exceptionThrown") {
        add_action(&mut actions, Action::Broadcast(exception_thrown(&event.params, now)));
    } else if same_text(method, "WebMCP.toolInvoked") {
        add_action(&mut actions, Action::Broadcast(tool_invoked(table, &event.params, now)));
    } else if same_text(method, "WebMCP.toolResponded") {
        add_action(&mut actions, Action::Broadcast(tool_responded(table, &event.params, now)));
    }
    actions
}

/// What an event means for the table of invocations.
pub open spec fn happening(event: EventView) -> Option<Happening> {
    let invocation = text_or_empty(event.params, "invocationId"@);
    if event.method == "WebMCP.toolInvoked"@ && invocation.len() > 0 {
        Some(
            Happening::Record(
                invocation,
                text_or_empty(event.params, "toolName"@),
                text_or_empty(event.params, "frameId"@),
            ),
        )
    } else if event.method == "WebMCP.toolResponded"@ {
        Some(Happening::Take(invocation))
    } else {
        None
    }
}

/// What several events mean for the table of invocations.
pub open spec fn happenings(events: Seq<EventView>) -> Seq<Happening>
    decreases events.len(),
{
    if events.len() == 0 {
        Seq::empty()
    } else {
        match happening(events.first()) {
            Some(first) => seq![first] + happenings(events.drop_first()),
            None => happenings(events.drop_first()),
        }
    }
}

/// The table after several events, the first one first.
pub open spec fn table_after(table: InFlightView, events: Seq<EventView>) -> InFlightView
    decreases events.len(),
{
    if events.len() == 0 {
        table
    } else {
        table_after(event_table(table, events.first()), events.drop_first())
    }
}

proof fn lemma_table_after(table: InFlightView, events: Seq<EventView>)
    ensures
        table_after(table, events) == table.after_all(happenings(events)),
    decreases events.len(),
{
    lemma_tool_methods();
    if events.len() > 0 {
        let rest = events.drop_first();
        lemma_table_after(event_table(table, events.first()), rest);
        if let Some(first) = happening(events.first()) {
            let all = seq![first] + happenings(rest);
            assert(all.first() == first);
            assert(all.drop_first() =~= happenings(rest));
        }
    }
}

/// Whether an event is about an invocation.
pub open spec fn is_about(event: EventView, invocation: Seq<char>) -> bool {
    match happening(event) {
        Some(happening) => happening.invocation() == invocation,
        None => false,
    }
}

proof fn lemma_happenings_about_others(events: Seq<EventView>, invocation: Seq<char>)
    requires
        forall|i: int| 0 <= i < events.len() ==> !is_about(#[trigger] events[i], invocation),
    ensures
        forall|i: int|
            0 <= i < happenings(events).len() ==> (#[trigger] happenings(events)[i]).invocation()
                != invocation,
    decreases events.len(),
{
    if events.len() > 0 {
        let rest = events.drop_first();
        assert(events.first() == events[0]);
        assert(!is_about(events[0], invocation));
        assert forall|i: int| 0 <= i < rest.len() implies !is_about(
            #[trigger] rest[i],
            invocation,
        ) by {
            assert(rest[i] == events[i + 1]);
        }
        lemma_happenings_about_others(rest, invocation);
        assert forall|i: int| 0 <= i < happenings(events).len() implies (
        #[trigger] happenings(events)[i]).invocation() != invocation by {
            match happening(events.first()) {
                Some(first) => {
                    assert(happenings(events) == seq![first] + happenings(rest));
                    if i == 0 {
                        assert(happenings(events)[i] == first);
                        assert(first.invocation() != invocation);
                    } else {
                        assert(happenings(events)[i] == happenings(rest)[i - 1]);
                        assert(happenings(rest)[i - 1].invocation() != invocation);
                    }
                },
                None => {
                    assert(happenings(events) == happenings(rest));
                    assert(happenings(rest)[i].invocation() != invocation);
                },
            }
        }
    }
}

/// A response to an invocation names its tool and frame, whatever other events come in
/// between, unless at some time as many others that came later are under way as the
/// table remembers. A second response to the same invocation names none.
pub proof fn law_a_response_names_its_tool(
    table: InFlightView,
    invoked: EventView,
    between: Seq<EventView>,
    responded: EventView,
    width: u32,
    height: u32,
    now: u64,
)
    requires
        table.wf(),
        invoked.method == "WebMCP.toolInvoked"@,
        text_or_empty(invoked.params, "invocationId"@).len() > 0,
        never_crowded(
            later(event_table(table, invoked), text_or_empty(invoked.params, "invocationId"@)),
            happenings(between),
        ),
        forall|i: int|
            0 <= i < between.len() ==> !is_about(
                #[trigger] between[i],
                text_or_empty(invoked.params, "invocationId"@),
            ),
        responded.method == "WebMCP.toolResponded"@,
        text_or_empty(responded.params, "invocationId"@) == text_or_empty(
            invoked.params,
            "invocationId"@,
        ),
    ensures
        ({
            let seen = table_after(event_table(table, invoked), between);
            let answered = event_table(seen, responded);
            let named = |found: Option<ToolView>|
                seq![
                    ActionView::Broadcast(
                        tool_responded_message(
                            text_or_empty(responded.params, "invocationId"@),
                            found,
                            text_or_empty(responded.params, "status"@),
                            output_text(responded.params),
                            error_text(responded.params),
                            now,
                        ),
                    ),
                ];
            &&& event_actions(seen, width, height, responded, now) == named(
                Some(
                    (
                        text_or_empty(invoked.params, "toolName"@),
                        text_or_empty(invoked.params, "frameId"@),
                    ),
                ),
            )
            &&& event_actions(answered, width, height, responded, now) == named(None)
        }),
{
    lemma_tool_methods();
    let invocation = text_or_empty(invoked.params, "invocationId"@);
    let tool = text_or_empty(invoked.params, "toolName"@);
    let frame = text_or_empty(invoked.params, "frameId"@);
    lemma_table_after(event_table(table, invoked), between);
    lemma_happenings_about_others(between, invocation);
    lemma_record_keeps_bound(table, invocation, tool, frame);
    law_found_once(table, invocation, tool, frame);
    law_remembered_until_crowded_out(
        event_table(table, invoked),
        invocation,
        happenings(between),
    );
}

/// A response to an invocation that was not under way before names its tool and frame,
/// whatever other events come in between, unless at some time as many of the invocations
/// among these are under way as the table remembers.
pub proof fn law_a_response_names_a_new_tool(
    table: InFlightView,
    invoked: EventView,
    between: Seq<EventView>,
    responded: EventView,
    now: u64,
)
    requires
        table.wf(),
        invoked.method == "WebMCP.toolInvoked"@,
        text_or_empty(invoked.params, "invocationId"@).len() > 0,
        table.find(text_or_empty(invoked.params, "invocationId"@)) is None,
        never_crowded(Seq::empty(), happenings(between)),
        forall|i: int|
            0 <= i < between.len() ==> !is_about(
                #[trigger] between[i],
                text_or_empty(invoked.params, "invocationId"@),
            ),
        responded.method == "WebMCP.toolResponded"@,
        text_or_empty(responded.params, "invocationId"@) == text_or_empty(
            invoked.params,
            "invocationId"@,
        ),
    ensures
        responded_message(
            table_after(event_table(table, invoked), between),
            responded.params,
            now,
        ) == tool_responded_message(
            text_or_empty(responded.params, "invocationId"@),
            Some(
                (
                    text_or_empty(invoked.params, "toolName"@),
                    text_or_empty(invoked.params, "frameId"@),
                ),
            ),
            text_or_empty(responded.params, "status"@),
            output_text(responded.params),
            error_text(responded.params),
            now,
        ),
{
    lemma_tool_methods();
    let invocation = text_or_empty(invoked.params, "invocationId"@);
    let tool = text_or_empty(invoked.params, "toolName"@);
    let frame = text_or_empty(invoked.params, "frameId"@);
    lemma_table_after(event_table(table, invoked), between);
    lemma_happenings_about_others(between, invocation);
    lemma_record_keeps_bound(table, invocation, tool, frame);
    law_found_once(table, invocation, tool, frame);
    law_a_new_invocation_is_the_newest(table, invocation, tool, frame);
    law_remembered_until_crowded_out(
        event_table(table, invoked),
        invocation,
        happenings(between),
    );
}

/// An event that is not about a tool leaves the table as it is.
pub proof fn law_other_events_keep_the_table(table: InFlightView, event: EventView)
    requires
        happening(event) is None,
    ensures
        event_table(table, event) == table,
{
}

/// An event of a kind that is not known calls for nothing.
pub proof fn law_unknown_events_are_ignored(
    table: InFlightView,
    width: u32,
    height: u32,
    event: EventView,
    now: u64,
)
    requires
        event.method != "Page.frameNavigated"@,
        event.method != "Page.screencastFrame"@,
        event.method != "Runtime.consoleAPICalled"@,
        event.method != "Runtime.exceptionThrown"@,
        event.method != "WebMCP.toolInvoked"@,
        event.method != "WebMCP.toolResponded"@,
    ensures
        event_actions(table, width, height, event, now) == Seq::<ActionView>::empty(),
        event_table(table, event) == table,
{
}

/// An event never starts or stops a screencast, nor says that one runs or not: the only
/// command it calls for is the acknowledgement of a frame.
pub proof fn law_events_keep_the_screencast(
    table: InFlightView,
    width: u32,
    height: u32,
    event: EventView,
    now: u64,
)
    ensures
        forall|i: int|
            0 <= i < event_actions(table, width, height, event, now).len() ==> match (
            #[trigger] event_actions(table, width, height, event, now)[i]) {
                ActionView::Send(command) => command.method == "Page.screencastFrameAck"@
                    && command.session == event.session,
                ActionView::SetScreencasting(_) => false,
                ActionView::Subscribe => false,
                _ => true,
            },
{
}

/// A text is read as it is, and what is no text, or not there, as the empty one.
pub proof fn law_what_is_no_text_is_empty(params: JsonView, key: Seq<char>)
    ensures
        match params.get(key) {
            Some(JsonView::Text(text)) => text_or_empty(params, key) == text,
            _ => text_or_empty(params, key).len() == 0,
        },
{
}

/// An event is its method, its parameters and its session.
pub proof fn law_an_event_is_what_it_holds(event: Event)
    ensures
        event@.method == event.method@,
        event@.params == event.params@,
        event.session matches Some(session) ==> event@.session == Some(session@),
        event.session is None ==> event@.session is None,
{
}

/// A navigation of a frame with an address that names no parent, or an empty one, is told:
/// the active tabs get the address, and so do the viewers, with the time. It makes no
/// difference what else the event or the frame holds.
pub proof fn law_a_main_frame_navigation_is_told(
    table: InFlightView,
    width: u32,
    height: u32,
    event: EventView,
    now: u64,
    frame: JsonView,
    url: Seq<char>,
)
    requires
        event.method == "Page.frameNavigated"@,
        event.params.get("frame"@) == Some(frame),
        frame.get("url"@) == Some(JsonView::Text(url)),
        match frame.get("parentId"@) {
            Some(JsonView::Text(parent)) => parent.len() == 0,
            _ => true,
        },
    ensures
        ({
            let actions = event_actions(table, width, height, event, now);
            &&& actions.len() == 2
            &&& actions[0] == ActionView::SetActiveUrl(url)
            &&& actions[1] is Broadcast
            &&& actions[1]->Broadcast_0 is Object
            &&& actions[1]->Broadcast_0->Object_0.dom() == set!["type"@, "url"@, "timestamp"@]
            &&& actions[1]->Broadcast_0.get("type"@) == Some(JsonView::Text("url"@))
            &&& actions[1]->Broadcast_0.get("url"@) == Some(JsonView::Text(url))
            &&& actions[1]->Broadcast_0.get("timestamp"@) == Some(
                JsonView::Number(NumberView::Integer(now as int)),
            )
        }),
{
    lemma_event_methods();
    law_a_url_message_reads_back(url, now);
}

/// A navigation is not told where it has no frame, where the frame has a parent, or where
/// the frame has no address.
pub proof fn law_other_navigations_are_not_told(
    table: InFlightView,
    width: u32,
    height: u32,
    event: EventView,
    now: u64,
)
    requires
        event.method == "Page.frameNavigated"@,
        match event.params.get("frame"@) {
            Some(frame) => {
                ||| frame.get("parentId"@) matches Some(JsonView::Text(parent)) && parent.len() > 0
                ||| !(frame.get("url"@) matches Some(JsonView::Text(_)))
            },
            None => true,
        },
    ensures
        event_actions(table, width, height, event, now).len() == 0,
{
    lemma_event_methods();
}

/// A screencast frame with a number is acknowledged first, to the session that it came
/// from; one with data is passed on, the data as it came and of whatever length, with the
/// size of the viewport; and nothing else is done.
pub proof fn law_a_frame_is_acknowledged_and_passed_on(
    table: InFlightView,
    width: u32,
    height: u32,
    event: EventView,
    now: u64,
)
    requires
        event.method == "Page.screencastFrame"@,
    ensures
        ({
            let actions = event_actions(table, width, height, event, now);
            let acked = match event.params.get("sessionId"@) {
                Some(JsonView::Number(NumberView::Integer(id))) => i64::MIN <= id <= i64::MAX,
                _ => false,
            };
            let passed_on = event.params.get("data"@) matches Some(JsonView::Text(_));
            &&& actions.len() == (if acked {
                1int
            } else {
                0
            }) + (if passed_on {
                1int
            } else {
                0
            })
            &&& acked ==> {
                &&& actions[0] is Send
                &&& actions[0]->Send_0.method == "Page.screencastFrameAck"@
                &&& actions[0]->Send_0.session == event.session
                &&& actions[0]->Send_0.params is Some
                &&& actions[0]->Send_0.params->0 is Object
                &&& actions[0]->Send_0.params->0->Object_0.dom() == set!["sessionId"@]
                &&& actions[0]->Send_0.params->0.get("sessionId"@) == event.params.get(
                    "sessionId"@,
                )
            }
            &&& passed_on ==> {
                let about = actions.last()->BroadcastFrame_0.get("metadata"@)->0;
                let metadata = event.params.get("metadata"@);
                &&& actions.last() is BroadcastFrame
                &&& actions.last()->BroadcastFrame_0.get("type"@) == Some(
                    JsonView::Text("frame"@),
                )
                &&& actions.last()->BroadcastFrame_0.get("data"@) == event.params.get("data"@)
                &&& actions.last()->BroadcastFrame_0.get("metadata"@) is Some
                &&& about.get("deviceWidth"@) == Some(
                    JsonView::Number(NumberView::Integer(width as int)),
                )
                &&& about.get("deviceHeight"@) == Some(
                    JsonView::Number(NumberView::Integer(height as int)),
                )
                &&& about.get("offsetTop"@) == Some(metadata_real(metadata, "offsetTop"@, 0))
                &&& about.get("pageScaleFactor"@) == Some(
                    metadata_real(metadata, "pageScaleFactor"@, 1),
                )
                &&& about.get("scrollOffsetX"@) == Some(
                    metadata_real(metadata, "scrollOffsetX"@, 0),
                )
                &&& about.get("scrollOffsetY"@) == Some(
                    metadata_real(metadata, "scrollOffsetY"@, 0),
                )
                &&& about.get("timestamp"@) == Some(metadata_timestamp(metadata))
            }
        }),
{
    lemma_event_methods();
    if let Some(JsonView::Number(NumberView::Integer(id))) = event.params.get("sessionId"@) {
        if i64::MIN <= id <= i64::MAX {
            law_an_acknowledgement_carries_its_number(event.session, id as i64);
        }
    }
    if let Some(JsonView::Text(data)) = event.params.get("data"@) {
        law_a_frame_message_reads_back(data, event.params.get("metadata"@), width, height);
    }
}

/// A console call is handed on with its level, `log` where it has none, and with its
/// arguments, all of them and in their order.
pub proof fn law_a_console_call_is_handed_on(
    table: InFlightView,
    width: u32,
    height: u32,
    event: EventView,
    now: u64,
)
    requires
        event.method == "Runtime.consoleAPICalled"@,
    ensures
        ({
            let actions = event_actions(table, width, height, event, now);
            &&& actions.len() == 1
            &&& actions[0] is FormatConsole
            &&& match event.params.get("type"@) {
                Some(JsonView::Text(level)) => actions[0]->level == level,
                _ => actions[0]->level == "log"@,
            }
            &&& match event.params.get("args"@) {
                Some(JsonView::Array(args)) => actions[0]->args == args,
                _ => actions[0]->args.len() == 0,
            }
        }),
{
    lemma_event_methods();
}

/// An uncaught exception is told with the description of what was thrown, or else with the
/// summary of the report, or else as unknown.
pub proof fn law_an_exception_is_told_with_its_text(
    table: InFlightView,
    width: u32,
    height: u32,
    event: EventView,
    now: u64,
)
    requires
        event.method == "Runtime.exceptionThrown"@,
    ensures
        ({
            let actions = event_actions(table, width, height, event, now);
            &&& actions.len() == 1
            &&& actions[0] is Broadcast
            &&& actions[0]->Broadcast_0 is Object
            &&& actions[0]->Broadcast_0->Object_0.dom() == set![
                "type"@,
                "text"@,
                "line"@,
                "column"@,
                "timestamp"@,
            ]
            &&& actions[0]->Broadcast_0.get("type"@) == Some(JsonView::Text("page_error"@))
            &&& actions[0]->Broadcast_0.get("timestamp"@) == Some(
                JsonView::Number(NumberView::Integer(now as int)),
            )
            &&& match event.params.get("exceptionDetails"@) {
                Some(details) => {
                    let thrown = match details.get("exception"@) {
                        Some(exception) => exception.get("description"@),
                        None => None,
                    };
                    if thrown matches Some(JsonView::Text(_)) {
                        actions[0]->Broadcast_0.get("text"@) == thrown
                    } else if details.get("text"@) matches Some(JsonView::Text(_)) {
                        actions[0]->Broadcast_0.get("text"@) == details.get("text"@)
                    } else {
                        actions[0]->Broadcast_0.get("text"@) == Some(
                            JsonView::Text("Unknown error"@),
                        )
                    }
                },
                None => actions[0]->Broadcast_0.get("text"@) == Some(
                    JsonView::Text("Unknown error"@),
                ),
            }
        }),
{
    lemma_event_methods();
    law_a_page_error_message_reads_back(
        exception_text(event.params),
        exception_position(event.params, "lineNumber"@),
        exception_position(event.params, "columnNumber"@),
        now,
    );
}

/// The line of an uncaught exception is the line of its report and the column is the
/// column of its report; each is `null` where the report has no such integer.
pub proof fn law_an_exception_is_told_with_its_position(
    table: InFlightView,
    width: u32,
    height: u32,
    event: EventView,
    now: u64,
)
    requires
        event.method == "Runtime.exceptionThrown"@,
    ensures
        ({
            let message = event_actions(table, width, height, event, now)[0]->Broadcast_0;
            match event.params.get("exceptionDetails"@) {
                Some(details) => {
                    &&& match details.get("lineNumber"@) {
                        Some(JsonView::Number(NumberView::Integer(i))) if i64::MIN <= i
                            <= i64::MAX => message.get("line"@) == details.get("lineNumber"@),
                        _ => message.get("line"@) == Some(JsonView::Null),
                    }
                    &&& match details.get("columnNumber"@) {
                        Some(JsonView::Number(NumberView::Integer(i))) if i64::MIN <= i
                            <= i64::MAX => message.get("column"@) == details.get("columnNumber"@),
                        _ => message.get("column"@) == Some(JsonView::Null),
                    }
                },
                None => message.get("line"@) == Some(JsonView::Null) && message.get("column"@)
                    == Some(JsonView::Null),
            }
        }),
{
    lemma_event_methods();
    law_a_page_error_message_reads_back(
        exception_text(event.params),
        exception_position(event.params, "lineNumber"@),
        exception_position(event.params, "columnNumber"@),
        now,
    );
}

/// An invocation is told with its identifier, its tool, its frame and its input, and is
/// remembered under its identifier where it has one.
pub proof fn law_an_invocation_is_told_and_remembered(
    table: InFlightView,
    width: u32,
    height: u32,
    event: EventView,
    now: u64,
)
    requires
        event.method == "WebMCP.toolInvoked"@,
    ensures
        ({
            let actions = event_actions(table, width, height, event, now);
            let invocation = text_or_empty(event.params, "invocationId"@);
            let tool = text_or_empty(event.params, "toolName"@);
            let frame = text_or_empty(event.params, "frameId"@);
            let input = text_or_empty(event.params, "input"@);
            let message = actions[0]->Broadcast_0;
            &&& actions.len() == 1
            &&& actions[0] is Broadcast
            &&& message.get("type"@) == Some(JsonView::Text("webmcp-tool-invoked"@))
            &&& message.get("invocation"@) == Some(JsonView::Text(invocation))
            &&& message.get("tool"@) == Some(JsonView::Text(tool))
            &&& message.get("frame"@) == Some(JsonView::Text(frame))
            &&& message.get("input"@) == Some(JsonView::Text(truncated(input)))
            &&& message.get("truncated"@) == Some(
                JsonView::Bool(encode_utf8(input).len() > 16384),
            )
            &&& message.get("timestamp"@) == Some(
                JsonView::Number(NumberView::Integer(now as int)),
            )
            &&& event_table(table, event) == if invocation.len() > 0 {
                table.record(invocation, tool, frame)
            } else {
                table
            }
        }),
{
    lemma_event_methods();
    law_a_tool_invoked_message_reads_back(
        text_or_empty(event.params, "invocationId"@),
        text_or_empty(event.params, "toolName"@),
        text_or_empty(event.params, "frameId"@),
        text_or_empty(event.params, "input"@),
        now,
    );
}

/// A response is told with its identifier, with the tool and frame that the table names,
/// with its own status whatever else it holds, and with its output and its error; the
/// invocation is then forgotten.
pub proof fn law_a_response_is_told_and_forgotten(
    table: InFlightView,
    width: u32,
    height: u32,
    event: EventView,
    now: u64,
)
    requires
        event.method == "WebMCP.toolResponded"@,
    ensures
        ({
            let actions = event_actions(table, width, height, event, now);
            let invocation = text_or_empty(event.params, "invocationId"@);
            let status = event.params.get("status"@);
            let message = actions[0]->Broadcast_0;
            &&& actions.len() == 1
            &&& actions[0] is Broadcast
            &&& message.get("type"@) == Some(JsonView::Text("webmcp-tool-responded"@))
            &&& message.get("invocation"@) == Some(JsonView::Text(invocation))
            &&& table.by_id.contains_key(invocation) ==> {
                &&& message.get("tool"@) == Some(JsonView::Text(table.by_id[invocation].0))
                &&& message.get("frame"@) == Some(JsonView::Text(table.by_id[invocation].1))
            }
            &&& !table.by_id.contains_key(invocation) ==> {
                &&& message.get("tool"@) == Some(JsonView::Null)
                &&& message.get("frame"@) == Some(JsonView::Null)
            }
            &&& status == Some(JsonView::Text("Completed"@)) ==> message.get("status"@) == Some(
                JsonView::Text("completed"@),
            )
            &&& status == Some(JsonView::Text("Canceled"@)) ==> message.get("status"@) == Some(
                JsonView::Text("canceled"@),
            )
            &&& status == Some(JsonView::Text("Error"@)) ==> message.get("status"@) == Some(
                JsonView::Text("error"@),
            )
            &&& status != Some(JsonView::Text("Completed"@)) && status != Some(
                JsonView::Text("Canceled"@),
            ) && status != Some(JsonView::Text("Error"@)) ==> message.get("status"@) == Some(
                JsonView::Text("unknown"@),
            )
            &&& match event.params.get("output"@) {
                Some(JsonView::Text(text)) => message.get("output"@) == Some(
                    JsonView::Text(truncated(text)),
                ),
                Some(other) => message.get("output"@) == Some(
                    JsonView::Text(truncated(json_text(other))),
                ),
                None => message.get("output"@) == Some(JsonView::Null),
            }
            &&& match error_text(event.params) {
                Some(text) => message.get("error"@) == Some(JsonView::Text(truncated(text))),
                None => message.get("error"@) == Some(JsonView::Null),
            }
            &&& message.get("truncated"@) == Some(
                JsonView::Bool(
                    (match event.params.get("output"@) {
                        Some(JsonView::Text(text)) => encode_utf8(text).len() > 16384,
                        Some(other) => encode_utf8(json_text(other)).len() > 16384,
                        None => false,
                    }) || (match error_text(event.params) {
                        Some(text) => encode_utf8(text).len() > 16384,
                        None => false,
                    }),
                ),
            )
            &&& message.get("timestamp"@) == Some(
                JsonView::Number(NumberView::Integer(now as int)),
            )
            &&& event_table(table, event) == table.taken(invocation)
        }),
{
    lemma_event_methods();
    reveal_strlit("Completed");
    reveal_strlit("Canceled");
    reveal_strlit("Error");
    assert("Completed"@.len() == 9 && "Canceled"@.len() == 8 && "Error"@.len() == 5);
    let invocation = text_or_empty(event.params, "invocationId"@);
    law_a_tool_responded_message_reads_back(
        invocation,
        table.find(invocation),
        text_or_empty(event.params, "status"@),
        output_text(event.params),
        error_text(event.params),
        now,
    );
}

/// Only the events about tools change the table.
pub proof fn law_only_tool_events_change_the_table(table: InFlightView, event: EventView)
    requires
        event.method != "WebMCP.toolInvoked"@,
        event.method != "WebMCP.toolResponded"@,
    ensures
        event_table(table, event) == table,
{
}

} // verus!
