//! Commands to the browser.

use vstd::prelude::*;

use crate::json::Json;
use crate::json::{JsonView, NumberView, integer};
use crate::keys::lemma_start_keys;

verus! {

/// What a command to the browser is.
pub struct CommandView {
    pub method: Seq<char>,
    pub params: Option<JsonView>,
    pub session: Option<Seq<char>>,
}

/// A command to the browser: a method, its parameters, and the session it is for.
pub struct Command {
    pub method: String,
    pub params: Option<Json>,
    pub session: Option<String>,
}

impl View for Command {
    type V = CommandView;

    open spec fn view(&self) -> CommandView {
        CommandView {
            method: self.method@,
            params: self.params.deep_view(),
            session: self.session.deep_view(),
        }
    }
}

/// The command that starts a screencast of every frame.
pub open spec fn start_command(
    session: Option<Seq<char>>,
    format: Seq<char>,
    quality: int,
    max_width: int,
    max_height: int,
) -> CommandView {
    CommandView {
        method: "Page.startScreencast"@,
        params: Some(
            JsonView::Object(
                map![
                    "format"@ => JsonView::Text(format),
                    "quality"@ => integer(quality),
                    "maxWidth"@ => integer(max_width),
                    "maxHeight"@ => integer(max_height),
                    "everyNthFrame"@ => integer(1),
                ],
            ),
        ),
        session,
    }
}

/// The command that stops a screencast.
pub open spec fn stop_command(session: Option<Seq<char>>) -> CommandView {
    CommandView { method: "Page.stopScreencast"@, params: None, session }
}

/// The command that acknowledges a screencast frame.
pub open spec fn ack_command(session: Option<Seq<char>>, screencast_session_id: i64) -> CommandView {
    CommandView {
        method: "Page.screencastFrameAck"@,
        params: Some(
            JsonView::Object(map!["sessionId"@ => integer(screencast_session_id as int)]),
        ),
        session,
    }
}

/// The command that turns on the events about page tools.
pub open spec fn tools_command(session: Option<Seq<char>>) -> CommandView {
    CommandView { method: "WebMCP.enable"@, params: None, session }
}

/// An optional text, copied.
pub(crate) fn copy_text(text: &Option<String>) -> (copy: Option<String>)
    ensures
        copy.deep_view() == text.deep_view(),
{
    match text {
        Some(text) => Some(text.clone()),
        None => None,
    }
}

/// A command without parameters.
fn bare(method: &str, session: Option<String>) -> (command: Command)
    ensures
        command@ == (CommandView {
            method: method@,
            params: None,
            session: session.deep_view(),
        }),
{
    Command { method: method.to_owned(), params: None, session }
}

/// The command that starts a screencast, for a session or for the browser.
pub(crate) fn start_for(
    session: Option<String>,
    format: &str,
    quality: i64,
    max_width: i64,
    max_height: i64,
) -> (command: Command)
    ensures
        command@ == start_command(
            session.deep_view(),
            format@,
            quality as int,
            max_width as int,
            max_height as int,
        ),
{
    let mut params = Json::object();
    params.insert("format", Json::text(format));
    params.insert("quality", Json::signed(quality));
    params.insert("maxWidth", Json::signed(max_width));
    params.insert("maxHeight", Json::signed(max_height));
    params.insert("everyNthFrame", Json::unsigned(1));
    Command { method: "Page.startScreencast".to_owned(), params: Some(params), session }
}

/// The command that stops a screencast, for a session or for the browser.
pub(crate) fn stop_for(session: Option<String>) -> (command: Command)
    ensures
        command@ == stop_command(session.deep_view()),
{
    bare("Page.stopScreencast", session)
}

/// The command that acknowledges a screencast frame, for a session or for the browser.
pub(crate) fn ack_for(session: Option<String>, screencast_session_id: i64) -> (command: Command)
    ensures
        command@ == ack_command(session.deep_view(), screencast_session_id),
{
    let mut params = Json::object();
    params.insert("sessionId", Json::signed(screencast_session_id));
    Command { method: "Page.screencastFrameAck".to_owned(), params: Some(params), session }
}

/// The command that turns on the events about page tools.
pub(crate) fn enable_tools_for(session: Option<String>) -> (command: Command)
    ensures
        command@ == tools_command(session.deep_view()),
{
    bare("WebMCP.enable", session)
}

/// The command that starts a screencast of a session.
pub fn start_screencast(
    session_id: &str,
    format: &str,
    quality: i32,
    max_width: i32,
    max_height: i32,
) -> (command: Command)
    ensures
        command@ == start_command(
            Some(session_id@),
            format@,
            quality as int,
            max_width as int,
            max_height as int,
        ),
{
    start_for(
        Some(session_id.to_owned()),
        format,
        quality as i64,
        max_width as i64,
        max_height as i64,
    )
}

/// The command that stops the screencast of a session.
pub fn stop_screencast(session_id: &str) -> (command: Command)
    ensures
        command@ == stop_command(Some(session_id@)),
{
    stop_for(Some(session_id.to_owned()))
}

/// The command that acknowledges a screencast frame of a session.
pub fn ack_screencast_frame(session_id: &str, screencast_session_id: i64) -> (command: Command)
    ensures
        command@ == ack_command(Some(session_id@), screencast_session_id),
{
    ack_for(Some(session_id.to_owned()), screencast_session_id)
}

/// The command that starts a screencast carries what it was asked with, and asks for every
/// frame.
pub proof fn law_starting_carries_what_is_asked(
    session: Option<Seq<char>>,
    format: Seq<char>,
    quality: int,
    max_width: int,
    max_height: int,
)
    ensures
        ({
            let command = start_command(session, format, quality, max_width, max_height);
            &&& command.method == "Page.startScreencast"@
            &&& command.session == session
            &&& command.params is Some
            &&& command.params->0 is Object
            &&& command.params->0->Object_0.dom() == set![
                "format"@,
                "quality"@,
                "maxWidth"@,
                "maxHeight"@,
                "everyNthFrame"@,
            ]
            &&& command.params->0.get("format"@) == Some(JsonView::Text(format))
            &&& command.params->0.get("quality"@) == Some(
                JsonView::Number(NumberView::Integer(quality)),
            )
            &&& command.params->0.get("maxWidth"@) == Some(
                JsonView::Number(NumberView::Integer(max_width)),
            )
            &&& command.params->0.get("maxHeight"@) == Some(
                JsonView::Number(NumberView::Integer(max_height)),
            )
            &&& command.params->0.get("everyNthFrame"@) == Some(
                JsonView::Number(NumberView::Integer(1)),
            )
        }),
{
    lemma_start_keys();
    let command = start_command(session, format, quality, max_width, max_height);
    assert(command.params->0->Object_0.dom() =~= set![
        "format"@,
        "quality"@,
        "maxWidth"@,
        "maxHeight"@,
        "everyNthFrame"@,
    ]);
}

/// The commands that stop a screencast and that turn on page tools have no parameters and
/// go to the session that was asked for.
pub proof fn law_bare_commands_carry_their_session(session: Option<Seq<char>>)
    ensures
        stop_command(session).method == "Page.stopScreencast"@,
        stop_command(session).params is None,
        stop_command(session).session == session,
        tools_command(session).method == "WebMCP.enable"@,
        tools_command(session).params is None,
        tools_command(session).session == session,
{
}

/// The acknowledgement of a frame carries the number of the screencast and nothing else.
pub proof fn law_an_acknowledgement_carries_its_number(session: Option<Seq<char>>, id: i64)
    ensures
        ({
            let command = ack_command(session, id);
            &&& command.method == "Page.screencastFrameAck"@
            &&& command.session == session
            &&& command.params is Some
            &&& command.params->0 is Object
            &&& command.params->0->Object_0.dom() == set!["sessionId"@]
            &&& command.params->0.get("sessionId"@) == Some(
                JsonView::Number(NumberView::Integer(id as int)),
            )
        }),
{
    assert(ack_command(session, id).params->0->Object_0.dom() =~= set!["sessionId"@]);
}

/// A command is its method, its parameters and its session.
pub proof fn law_a_command_is_what_it_holds(command: Command)
    ensures
        command@.method == command.method@,
        command.params matches Some(params) ==> command@.params == Some(params@),
        command.params is None ==> command@.params is None,
        command.session matches Some(session) ==> command@.session == Some(session@),
        command.session is None ==> command@.session is None,
{
}

} // verus!
