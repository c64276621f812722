//! Messages to the viewers.

use vstd::prelude::*;
use vstd::utf8::encode_utf8;

use crate::json::Json;
use crate::json::{
    JsonView,
    NumberView,
    double,
    integer,
    integer_or_null,
    items_view,
    lemma_items_view,
    nearest_double,
    text_or_null,
};
use crate::keys::{
    lemma_console_keys,
    lemma_frame_keys,
    lemma_metadata_keys,
    lemma_page_error_keys,
    lemma_status_keys,
    lemma_tool_invoked_keys,
    lemma_tool_responded_keys,
    lemma_url_keys,
};
use crate::in_flight::ToolView;
use crate::payload::{truncate_payload, webmcp_status};
use crate::payload::{
    WEBMCP_PAYLOAD_LIMIT,
    byte_len,
    is_oversized,
    law_each_status_has_its_token,
    law_the_limit_is_in_bytes,
    law_truncation_is_the_longest_fit,
    status_token,
    truncated,
};

verus! {

/// Says that the stream is connected, and to what.
pub open spec fn status_message(
    width: u32,
    height: u32,
    engine: Seq<char>,
    screencasting: bool,
    recording: bool,
) -> JsonView {
    JsonView::Object(
        map![
            "type"@ => JsonView::Text("status"@),
            "connected"@ => JsonView::Bool(true),
            "screencasting"@ => JsonView::Bool(screencasting),
            "viewportWidth"@ => integer(width as int),
            "viewportHeight"@ => integer(height as int),
            "engine"@ => JsonView::Text(engine),
            "recording"@ => JsonView::Bool(recording),
        ],
    )
}

/// Builds the message that the stream is connected.
pub fn build_status(
    width: u32,
    height: u32,
    engine: &str,
    screencasting: bool,
    recording: bool,
) -> (message: Json)
    ensures
        message@ == status_message(width, height, engine@, screencasting, recording),
{
    let mut message = Json::object();
    message.insert("type", Json::text("status"));
    message.insert("connected", Json::Bool(true));
    message.insert("screencasting", Json::Bool(screencasting));
    message.insert("viewportWidth", Json::unsigned(width as u64));
    message.insert("viewportHeight", Json::unsigned(height as u64));
    message.insert("engine", Json::text(engine));
    message.insert("recording", Json::Bool(recording));
    message
}

/// Says where the page went.
pub open spec fn url_message(url: Seq<char>, now: u64) -> JsonView {
    JsonView::Object(
        map![
            "type"@ => JsonView::Text("url"@),
            "url"@ => JsonView::Text(url),
            "timestamp"@ => integer(now as int),
        ],
    )
}

/// Builds the message that says where the page went.
pub fn build_url(url: &str, now: u64) -> (message: Json)
    ensures
        message@ == url_message(url@, now),
{
    let mut message = Json::object();
    message.insert("type", Json::text("url"));
    message.insert("url", Json::text(url));
    message.insert("timestamp", Json::unsigned(now));
    message
}

/// A double out of a frame's metadata, or the one nearest to an integer where the
/// metadata has no such number.
pub open spec fn metadata_real(metadata: Option<JsonView>, key: Seq<char>, default: int) -> JsonView {
    match metadata {
        Some(metadata) => match metadata.real_at(key) {
            Some(number) => JsonView::Number(number),
            None => double(default),
        },
        None => double(default),
    }
}

/// A frame's own time: the unsigned integer in its metadata, or zero.
pub open spec fn metadata_timestamp(metadata: Option<JsonView>) -> JsonView {
    match metadata {
        Some(metadata) => match metadata.u64_at("timestamp"@) {
            Some(timestamp) => integer(timestamp as int),
            None => integer(0),
        },
        None => integer(0),
    }
}

/// One frame of the screencast.
pub open spec fn frame_message(
    data: Seq<char>,
    metadata: Option<JsonView>,
    width: u32,
    height: u32,
) -> JsonView {
    JsonView::Object(
        map![
            "type"@ => JsonView::Text("frame"@),
            "data"@ => JsonView::Text(data),
            "metadata"@ => JsonView::Object(map![
                "offsetTop"@ => metadata_real(metadata, "offsetTop"@, 0),
                "pageScaleFactor"@ => metadata_real(metadata, "pageScaleFactor"@, 1),
                "deviceWidth"@ => integer(width as int),
                "deviceHeight"@ => integer(height as int),
                "scrollOffsetX"@ => metadata_real(metadata, "scrollOffsetX"@, 0),
                "scrollOffsetY"@ => metadata_real(metadata, "scrollOffsetY"@, 0),
                "timestamp"@ => metadata_timestamp(metadata),
            ]),
        ],
    )
}

fn read_real(metadata: Option<&Json>, key: &str, default: u64) -> (value: Json)
    ensures
        value@ == metadata_real(metadata.deep_view(), key@, default as int),
{
    if let Some(metadata) = metadata {
        if let Some(value) = metadata.real_at(key) {
            return value;
        }
    }
    Json::double(default)
}

fn read_timestamp(metadata: Option<&Json>) -> (value: Json)
    ensures
        value@ == metadata_timestamp(metadata.deep_view()),
{
    if let Some(metadata) = metadata {
        if let Some(timestamp) = metadata.u64_at("timestamp") {
            return Json::unsigned(timestamp);
        }
    }
    Json::unsigned(0)
}

/// Builds the message of one frame.
pub fn build_frame(data: &str, metadata: Option<&Json>, width: u32, height: u32) -> (message: Json)
    ensures
        message@ == frame_message(data@, metadata.deep_view(), width, height),
{
    let mut about = Json::object();
    about.insert("offsetTop", read_real(metadata, "offsetTop", 0));
    about.insert("pageScaleFactor", read_real(metadata, "pageScaleFactor", 1));
    about.insert("deviceWidth", Json::unsigned(width as u64));
    about.insert("deviceHeight", Json::unsigned(height as u64));
    about.insert("scrollOffsetX", read_real(metadata, "scrollOffsetX", 0));
    about.insert("scrollOffsetY", read_real(metadata, "scrollOffsetY", 0));
    about.insert("timestamp", read_timestamp(metadata));
    let mut message = Json::object();
    message.insert("type", Json::text("frame"));
    message.insert("data", Json::text(data));
    message.insert("metadata", about);
    message
}

/// What the page wrote to its console: nothing where the formatted text is empty, and
/// the raw arguments only where there are any.
pub open spec fn console_message(
    level: Seq<char>,
    text: Seq<char>,
    args: Seq<JsonView>,
    now: u64,
) -> Option<JsonView> {
    let message = JsonView::Object(
        map![
            "type"@ => JsonView::Text("console"@),
            "level"@ => JsonView::Text(level),
            "text"@ => JsonView::Text(text),
            "timestamp"@ => integer(now as int),
        ],
    );
    if text.len() == 0 {
        None
    } else if args.len() == 0 {
        Some(message)
    } else {
        Some(message.insert("args"@, JsonView::Array(args)))
    }
}

/// Builds the message of a console call from its level, its raw arguments and the text
/// into which they were formatted.
pub fn build_console(level: &str, text: &str, args: Vec<Json>, now: u64) -> (message: Option<Json>)
    ensures
        message.deep_view() == console_message(level@, text@, items_view(args@), now),
{
    if text.is_empty() {
        return None;
    }
    let mut message = Json::object();
    message.insert("type", Json::text("console"));
    message.insert("level", Json::text(level));
    message.insert("text", Json::text(text));
    message.insert("timestamp", Json::unsigned(now));
    proof {
        lemma_items_view(args@);
    }
    if !args.is_empty() {
        message.insert("args", Json::Array(args));
    }
    Some(message)
}

/// An exception that the page did not catch.
pub open spec fn page_error_message(
    text: Seq<char>,
    line: Option<i64>,
    column: Option<i64>,
    now: u64,
) -> JsonView {
    JsonView::Object(
        map![
            "type"@ => JsonView::Text("page_error"@),
            "text"@ => JsonView::Text(text),
            "line"@ => integer_or_null(line),
            "column"@ => integer_or_null(column),
            "timestamp"@ => integer(now as int),
        ],
    )
}

/// Builds the message of an uncaught exception.
pub fn build_page_error(
    text: &str,
    line: Option<i64>,
    column: Option<i64>,
    now: u64,
) -> (message: Json)
    ensures
        message@ == page_error_message(text@, line, column, now),
{
    let mut message = Json::object();
    message.insert("type", Json::text("page_error"));
    message.insert("text", Json::text(text));
    message.insert("line", Json::signed_or_null(line));
    message.insert("column", Json::signed_or_null(column));
    message.insert("timestamp", Json::unsigned(now));
    message
}

/// A page tool was invoked.
pub open spec fn tool_invoked_message(
    invocation: Seq<char>,
    tool: Seq<char>,
    frame: Seq<char>,
    input: Seq<char>,
    now: u64,
) -> JsonView {
    JsonView::Object(
        map![
            "type"@ => JsonView::Text("webmcp-tool-invoked"@),
            "invocation"@ => JsonView::Text(invocation),
            "tool"@ => JsonView::Text(tool),
            "frame"@ => JsonView::Text(frame),
            "input"@ => JsonView::Text(truncated(input)),
            "truncated"@ => JsonView::Bool(is_oversized(input)),
            "timestamp"@ => integer(now as int),
        ],
    )
}

/// Builds the message that a page tool was invoked.
pub fn build_tool_invoked(
    invocation: &str,
    tool: &str,
    frame: &str,
    input: String,
    now: u64,
) -> (message: Json)
    ensures
        message@ == tool_invoked_message(invocation@, tool@, frame@, input@, now),
{
    let (input, cut) = truncate_payload(input);
    let mut message = Json::object();
    message.insert("type", Json::text("webmcp-tool-invoked"));
    message.insert("invocation", Json::text(invocation));
    message.insert("tool", Json::text(tool));
    message.insert("frame", Json::text(frame));
    message.insert("input", Json::Text(input));
    message.insert("truncated", Json::Bool(cut));
    message.insert("timestamp", Json::unsigned(now));
    message
}

/// An optional payload, cut to the limit.
pub open spec fn cut(text: Option<Seq<char>>) -> Option<Seq<char>> {
    match text {
        Some(text) => Some(truncated(text)),
        None => None,
    }
}

/// Whether an optional payload is there and too long to go out whole.
pub open spec fn is_cut(text: Option<Seq<char>>) -> bool {
    match text {
        Some(text) => is_oversized(text),
        None => false,
    }
}

fn cut_payload(text: Option<String>) -> (done: (Option<String>, bool))
    ensures
        done.0.deep_view() == cut(text.deep_view()),
        done.1 == is_cut(text.deep_view()),
{
    match text {
        Some(text) => {
            let (text, dropped) = truncate_payload(text);
            (Some(text), dropped)
        },
        None => (None, false),
    }
}

/// A page tool has finished. Its name and frame are there where the invocation was
/// seen and is still remembered.
pub open spec fn tool_responded_message(
    invocation: Seq<char>,
    found: Option<ToolView>,
    status: Seq<char>,
    output: Option<Seq<char>>,
    error: Option<Seq<char>>,
    now: u64,
) -> JsonView {
    JsonView::Object(
        map![
            "type"@ => JsonView::Text("webmcp-tool-responded"@),
            "invocation"@ => JsonView::Text(invocation),
            "tool"@ => (match found {
                Some(found) => JsonView::Text(found.0),
                None => JsonView::Null,
            }),
            "frame"@ => (match found {
                Some(found) => JsonView::Text(found.1),
                None => JsonView::Null,
            }),
            "status"@ => JsonView::Text(status_token(status)),
            "output"@ => text_or_null(cut(output)),
            "error"@ => text_or_null(cut(error)),
            "truncated"@ => JsonView::Bool(is_cut(output) || is_cut(error)),
            "timestamp"@ => integer(now as int),
        ],
    )
}

/// Builds the message that a page tool has finished.
pub fn build_tool_responded(
    invocation: &str,
    found: Option<(String, String)>,
    status: &str,
    output: Option<String>,
    error: Option<String>,
    now: u64,
) -> (message: Json)
    ensures
        message@ == tool_responded_message(
            invocation@,
            found.deep_view(),
            status@,
            output.deep_view(),
            error.deep_view(),
            now,
        ),
{
    let (tool, frame) = match found {
        Some((tool, frame)) => (Some(tool), Some(frame)),
        None => (None, None),
    };
    let (output, output_cut) = cut_payload(output);
    let (error, error_cut) = cut_payload(error);
    let mut message = Json::object();
    message.insert("type", Json::text("webmcp-tool-responded"));
    message.insert("invocation", Json::text(invocation));
    message.insert("tool", Json::text_or_null(tool));
    message.insert("frame", Json::text_or_null(frame));
    message.insert("status", Json::text(webmcp_status(status)));
    message.insert("output", Json::text_or_null(output));
    message.insert("error", Json::text_or_null(error));
    message.insert("truncated", Json::Bool(output_cut || error_cut));
    message.insert("timestamp", Json::unsigned(now));
    message
}

/// What goes out of a page's payloads is within the limit, and where any of it was
/// dropped the message says so.
pub proof fn law_tool_payloads_are_capped(
    invocation: Seq<char>,
    tool: Seq<char>,
    frame: Seq<char>,
    input: Seq<char>,
    found: Option<ToolView>,
    status: Seq<char>,
    output: Option<Seq<char>>,
    error: Option<Seq<char>>,
    now: u64,
)
    ensures
        ({
            let message = tool_invoked_message(invocation, tool, frame, input, now);
            let sent = message.text_at("input"@);
            &&& sent is Some
            &&& byte_len(sent->0) <= WEBMCP_PAYLOAD_LIMIT
            &&& sent->0.is_prefix_of(input)
            &&& message.get("truncated"@) == Some(JsonView::Bool(sent != Some(input)))
        }),
        ({
            let message = tool_responded_message(invocation, found, status, output, error, now);
            let sent_output = message.text_at("output"@);
            let sent_error = message.text_at("error"@);
            &&& sent_output is Some == output is Some
            &&& sent_error is Some == error is Some
            &&& output is Some ==> byte_len(sent_output->0) <= WEBMCP_PAYLOAD_LIMIT
                && sent_output->0.is_prefix_of(output->0)
            &&& error is Some ==> byte_len(sent_error->0) <= WEBMCP_PAYLOAD_LIMIT
                && sent_error->0.is_prefix_of(error->0)
            &&& message.get("truncated"@) == Some(
                JsonView::Bool(sent_output != output || sent_error != error),
            )
        }),
{
    law_truncation_is_the_longest_fit(input);
    if let Some(output) = output {
        law_truncation_is_the_longest_fit(output);
    }
    if let Some(error) = error {
        law_truncation_is_the_longest_fit(error);
    }
    lemma_payload_keys();
}

/// A response to an invocation that is not remembered names no tool and no frame; one
/// that is remembered names both.
pub proof fn law_only_known_tools_are_named(
    invocation: Seq<char>,
    found: Option<ToolView>,
    status: Seq<char>,
    output: Option<Seq<char>>,
    error: Option<Seq<char>>,
    now: u64,
)
    ensures
        ({
            let message = tool_responded_message(invocation, found, status, output, error, now);
            match found {
                Some(found) => message.text_at("tool"@) == Some(found.0) && message.text_at(
                    "frame"@,
                ) == Some(found.1),
                None => message.get("tool"@) == Some(JsonView::Null) && message.get("frame"@)
                    == Some(JsonView::Null),
            }
        }),
{
    lemma_payload_keys();
}

/// The keys of the messages about tools that are read back here differ from those that
/// are set after them.
proof fn lemma_payload_keys()
    ensures
        "input"@ != "truncated"@,
        "input"@ != "timestamp"@,
        "truncated"@ != "timestamp"@,
        "output"@ != "error"@,
        "output"@ != "truncated"@,
        "output"@ != "timestamp"@,
        "error"@ != "truncated"@,
        "error"@ != "timestamp"@,
        "tool"@ != "frame"@,
        "tool"@ != "status"@,
        "tool"@ != "output"@,
        "tool"@ != "error"@,
        "tool"@ != "truncated"@,
        "tool"@ != "timestamp"@,
        "frame"@ != "status"@,
        "frame"@ != "output"@,
        "frame"@ != "error"@,
        "frame"@ != "truncated"@,
        "frame"@ != "timestamp"@,
{
    reveal_strlit("input");
    reveal_strlit("truncated");
    reveal_strlit("timestamp");
    reveal_strlit("output");
    reveal_strlit("error");
    reveal_strlit("tool");
    reveal_strlit("frame");
    reveal_strlit("status");
    assert("truncated"@[1] == 'r' && "timestamp"@[1] == 'i');
    assert("input"@.len() == 5 && "output"@.len() == 6 && "error"@.len() == 5);
    assert("truncated"@.len() == 9 && "timestamp"@.len() == 9);
    assert("tool"@.len() == 4 && "frame"@.len() == 5 && "status"@.len() == 6);
    assert("frame"@[0] == 'f' && "error"@[0] == 'e');
}

/// A status message says what the stream is attached to, each thing under its own key.
pub proof fn law_a_status_message_reads_back(
    width: u32,
    height: u32,
    engine: Seq<char>,
    screencasting: bool,
    recording: bool,
)
    ensures
        ({
            let message = status_message(width, height, engine, screencasting, recording);
            &&& message is Object
            &&& message->Object_0.dom() == set![
                "type"@,
                "connected"@,
                "screencasting"@,
                "viewportWidth"@,
                "viewportHeight"@,
                "engine"@,
                "recording"@,
            ]
            &&& message.get("type"@) == Some(JsonView::Text("status"@))
            &&& message.get("connected"@) == Some(JsonView::Bool(true))
            &&& message.get("screencasting"@) == Some(JsonView::Bool(screencasting))
            &&& message.get("viewportWidth"@) == Some(
                JsonView::Number(NumberView::Integer(width as int)),
            )
            &&& message.get("viewportHeight"@) == Some(
                JsonView::Number(NumberView::Integer(height as int)),
            )
            &&& message.get("engine"@) == Some(JsonView::Text(engine))
            &&& message.get("recording"@) == Some(JsonView::Bool(recording))
        }),
{
    lemma_status_keys();
    let message = status_message(width, height, engine, screencasting, recording);
    assert(message->Object_0.dom() =~= set![
        "type"@,
        "connected"@,
        "screencasting"@,
        "viewportWidth"@,
        "viewportHeight"@,
        "engine"@,
        "recording"@,
    ]);
}

/// A message about an address carries that address, whole, and the time.
pub proof fn law_a_url_message_reads_back(
    url: Seq<char>,
    now: u64,
)
    ensures
        ({
            let message = url_message(url, now);
            &&& message is Object
            &&& message->Object_0.dom() == set![
                "type"@,
                "url"@,
                "timestamp"@,
            ]
            &&& message.get("type"@) == Some(JsonView::Text("url"@))
            &&& message.get("url"@) == Some(JsonView::Text(url))
            &&& message.get("timestamp"@) == Some(JsonView::Number(NumberView::Integer(now as int)))
        }),
{
    lemma_url_keys();
    let message = url_message(url, now);
    assert(message->Object_0.dom() =~= set![
        "type"@,
        "url"@,
        "timestamp"@,
    ]);
}

/// A double out of a frame's metadata is the one that is there, the one nearest to the
/// integer that is there, or else the one nearest to the default.
pub proof fn law_metadata_doubles(metadata: Option<JsonView>, key: Seq<char>, default: int)
    ensures
        match metadata {
            Some(about) => match about.get(key) {
                Some(JsonView::Number(NumberView::Real(bits))) => metadata_real(
                    metadata,
                    key,
                    default,
                ) == JsonView::Number(NumberView::Real(bits)),
                Some(JsonView::Number(NumberView::Integer(i))) => metadata_real(
                    metadata,
                    key,
                    default,
                ) == JsonView::Number(NumberView::Real(nearest_double(i))),
                _ => metadata_real(metadata, key, default) == JsonView::Number(
                    NumberView::Real(nearest_double(default)),
                ),
            },
            None => metadata_real(metadata, key, default) == JsonView::Number(
                NumberView::Real(nearest_double(default)),
            ),
        },
{
}

/// The time in a frame's metadata is the unsigned integer that is there, or else zero.
pub proof fn law_metadata_time(metadata: Option<JsonView>)
    ensures
        match metadata {
            Some(about) => match about.get("timestamp"@) {
                Some(JsonView::Number(NumberView::Integer(i))) if 0 <= i <= u64::MAX =>
                    metadata_timestamp(metadata) == JsonView::Number(NumberView::Integer(i)),
                _ => metadata_timestamp(metadata) == JsonView::Number(NumberView::Integer(0)),
            },
            None => metadata_timestamp(metadata) == JsonView::Number(NumberView::Integer(0)),
        },
{
}

/// A frame message carries the data of the frame as it came, of whatever length, and about
/// the frame the size of the viewport and what the frame's own metadata says.
pub proof fn law_a_frame_message_reads_back(
    data: Seq<char>,
    metadata: Option<JsonView>,
    width: u32,
    height: u32,
)
    ensures
        ({
            let message = frame_message(data, metadata, width, height);
            &&& message is Object
            &&& message->Object_0.dom() == set![
                "type"@,
                "data"@,
                "metadata"@,
            ]
            &&& message.get("type"@) == Some(JsonView::Text("frame"@))
            &&& message.get("data"@) == Some(JsonView::Text(data))
            &&& message.get("metadata"@) is Some
            &&& message.get("metadata"@)->0 is Object
            &&& message.get("metadata"@)->0->Object_0.dom() == set![
                "offsetTop"@,
                "pageScaleFactor"@,
                "deviceWidth"@,
                "deviceHeight"@,
                "scrollOffsetX"@,
                "scrollOffsetY"@,
                "timestamp"@,
            ]
            &&& message.get("metadata"@)->0.get("offsetTop"@) == Some(
                metadata_real(metadata, "offsetTop"@, 0),
            )
            &&& message.get("metadata"@)->0.get("pageScaleFactor"@) == Some(
                metadata_real(metadata, "pageScaleFactor"@, 1),
            )
            &&& message.get("metadata"@)->0.get("deviceWidth"@) == Some(
                JsonView::Number(NumberView::Integer(width as int)),
            )
            &&& message.get("metadata"@)->0.get("deviceHeight"@) == Some(
                JsonView::Number(NumberView::Integer(height as int)),
            )
            &&& message.get("metadata"@)->0.get("scrollOffsetX"@) == Some(
                metadata_real(metadata, "scrollOffsetX"@, 0),
            )
            &&& message.get("metadata"@)->0.get("scrollOffsetY"@) == Some(
                metadata_real(metadata, "scrollOffsetY"@, 0),
            )
            &&& message.get("metadata"@)->0.get("timestamp"@) == Some(metadata_timestamp(metadata))
        }),
{
    lemma_frame_keys();
    lemma_metadata_keys();
    let message = frame_message(data, metadata, width, height);
    assert(message.get("metadata"@)->0->Object_0.dom() =~= set![
        "offsetTop"@,
        "pageScaleFactor"@,
        "deviceWidth"@,
        "deviceHeight"@,
        "scrollOffsetX"@,
        "scrollOffsetY"@,
        "timestamp"@,
    ]);
    assert(message->Object_0.dom() =~= set![
        "type"@,
        "data"@,
        "metadata"@,
    ]);
}

/// A console message carries its level and its text, whole, and the raw arguments exactly
/// where there are any. Without text there is none.
pub proof fn law_a_console_message_reads_back(
    level: Seq<char>,
    text: Seq<char>,
    args: Seq<JsonView>,
    now: u64,
)
    ensures
        console_message(level, text, args, now) is Some <==> text.len() > 0,
        text.len() > 0 ==> {
            let message = console_message(level, text, args, now)->0;
            &&& message is Object
            &&& message->Object_0.dom() == if args.len() > 0 {
                set!["type"@, "level"@, "text"@, "timestamp"@, "args"@]
            } else {
                set!["type"@, "level"@, "text"@, "timestamp"@]
            }
            &&& message.get("type"@) == Some(JsonView::Text("console"@))
            &&& message.get("level"@) == Some(JsonView::Text(level))
            &&& message.get("text"@) == Some(JsonView::Text(text))
            &&& message.get("timestamp"@) == Some(
                JsonView::Number(NumberView::Integer(now as int)),
            )
            &&& args.len() > 0 ==> message.get("args"@) == Some(JsonView::Array(args))
        },
{
    lemma_console_keys();
    if text.len() > 0 {
        let members = console_message(level, text, args, now)->0->Object_0;
        if args.len() > 0 {
            assert(members.dom() =~= set!["type"@, "level"@, "text"@, "timestamp"@, "args"@]);
        } else {
            assert(members.dom() =~= set!["type"@, "level"@, "text"@, "timestamp"@]);
        }
    }
}

/// A message about an exception carries its text, and its line and its column, each under
/// its own key and `null` where it is not known.
pub proof fn law_a_page_error_message_reads_back(
    text: Seq<char>,
    line: Option<i64>,
    column: Option<i64>,
    now: u64,
)
    ensures
        ({
            let message = page_error_message(text, line, column, now);
            &&& message is Object
            &&& message->Object_0.dom() == set![
                "type"@,
                "text"@,
                "line"@,
                "column"@,
                "timestamp"@,
            ]
            &&& message.get("type"@) == Some(JsonView::Text("page_error"@))
            &&& message.get("text"@) == Some(JsonView::Text(text))
            &&& line matches Some(at) ==> message.get("line"@) == Some(
                JsonView::Number(NumberView::Integer(at as int)),
            )
            &&& line is None ==> message.get("line"@) == Some(JsonView::Null)
            &&& column matches Some(at) ==> message.get("column"@) == Some(
                JsonView::Number(NumberView::Integer(at as int)),
            )
            &&& column is None ==> message.get("column"@) == Some(JsonView::Null)
            &&& message.get("timestamp"@) == Some(JsonView::Number(NumberView::Integer(now as int)))
        }),
{
    lemma_page_error_keys();
    let message = page_error_message(text, line, column, now);
    assert(message->Object_0.dom() =~= set![
        "type"@,
        "text"@,
        "line"@,
        "column"@,
        "timestamp"@,
    ]);
}

/// A message about an invocation carries its identifier, its tool and its frame as they
/// are, and of its input what the limit of sixteen kibibytes lets through.
pub proof fn law_a_tool_invoked_message_reads_back(
    invocation: Seq<char>,
    tool: Seq<char>,
    frame: Seq<char>,
    input: Seq<char>,
    now: u64,
)
    ensures
        ({
            let message = tool_invoked_message(invocation, tool, frame, input, now);
            &&& message is Object
            &&& message->Object_0.dom() == set![
                "type"@,
                "invocation"@,
                "tool"@,
                "frame"@,
                "input"@,
                "truncated"@,
                "timestamp"@,
            ]
            &&& message.get("type"@) == Some(JsonView::Text("webmcp-tool-invoked"@))
            &&& message.get("invocation"@) == Some(JsonView::Text(invocation))
            &&& message.get("tool"@) == Some(JsonView::Text(tool))
            &&& message.get("frame"@) == Some(JsonView::Text(frame))
            &&& message.get("input"@) == Some(JsonView::Text(truncated(input)))
            &&& encode_utf8(input).len() <= 16384 ==> message.get("input"@) == Some(
                JsonView::Text(input),
            )
            &&& message.get("truncated"@) == Some(JsonView::Bool(encode_utf8(input).len() > 16384))
            &&& message.get("timestamp"@) == Some(JsonView::Number(NumberView::Integer(now as int)))
        }),
{
    lemma_tool_invoked_keys();
    law_the_limit_is_in_bytes(input, input);
    let message = tool_invoked_message(invocation, tool, frame, input, now);
    assert(message->Object_0.dom() =~= set![
        "type"@,
        "invocation"@,
        "tool"@,
        "frame"@,
        "input"@,
        "truncated"@,
        "timestamp"@,
    ]);
}

/// A message about a response carries the identifier and the tool and frame that were found,
/// a status that depends on nothing but the status of the response, and of output and error
/// what the limit of sixteen kibibytes lets through.
pub proof fn law_a_tool_responded_message_reads_back(
    invocation: Seq<char>,
    found: Option<ToolView>,
    status: Seq<char>,
    output: Option<Seq<char>>,
    error: Option<Seq<char>>,
    now: u64,
)
    ensures
        ({
            let message = tool_responded_message(invocation, found, status, output, error, now);
            &&& message is Object
            &&& message->Object_0.dom() == set![
                "type"@,
                "invocation"@,
                "tool"@,
                "frame"@,
                "status"@,
                "output"@,
                "error"@,
                "truncated"@,
                "timestamp"@,
            ]
            &&& message.get("type"@) == Some(JsonView::Text("webmcp-tool-responded"@))
            &&& message.get("invocation"@) == Some(JsonView::Text(invocation))
            &&& found matches Some(named) ==> message.get("tool"@) == Some(JsonView::Text(named.0))
            &&& found matches Some(named) ==> message.get("frame"@) == Some(JsonView::Text(named.1))
            &&& found is None ==> message.get("tool"@) == Some(JsonView::Null)
            &&& found is None ==> message.get("frame"@) == Some(JsonView::Null)
            &&& status == "Completed"@ ==> message.get("status"@) == Some(
                JsonView::Text("completed"@),
            )
            &&& status == "Canceled"@ ==> message.get("status"@) == Some(
                JsonView::Text("canceled"@),
            )
            &&& status == "Error"@ ==> message.get("status"@) == Some(JsonView::Text("error"@))
            &&& status != "Completed"@ && status != "Canceled"@ && status != "Error"@
                ==> message.get("status"@) == Some(
                JsonView::Text("unknown"@),
            )
            &&& output matches Some(text) ==> message.get("output"@) == Some(
                JsonView::Text(truncated(text)),
            )
            &&& output matches Some(text) ==> (encode_utf8(text).len() <= 16384
                ==> message.get("output"@) == Some(
                JsonView::Text(text),
            ))
            &&& output is None ==> message.get("output"@) == Some(JsonView::Null)
            &&& error matches Some(text) ==> message.get("error"@) == Some(
                JsonView::Text(truncated(text)),
            )
            &&& error matches Some(text) ==> (encode_utf8(text).len() <= 16384
                ==> message.get("error"@) == Some(
                JsonView::Text(text),
            ))
            &&& error is None ==> message.get("error"@) == Some(JsonView::Null)
            &&& message.get("truncated"@) == Some(
                JsonView::Bool(
                    (output matches Some(text) && encode_utf8(text).len() > 16384) || (
                    error matches Some(text) && encode_utf8(text).len() > 16384),
                ),
            )
            &&& message.get("timestamp"@) == Some(JsonView::Number(NumberView::Integer(now as int)))
        }),
{
    lemma_tool_responded_keys();
    law_each_status_has_its_token(status);
    if let Some(text) = output {
        law_the_limit_is_in_bytes(text, text);
    }
    if let Some(text) = error {
        law_the_limit_is_in_bytes(text, text);
    }
    let message = tool_responded_message(invocation, found, status, output, error, now);
    assert(message->Object_0.dom() =~= set![
        "type"@,
        "invocation"@,
        "tool"@,
        "frame"@,
        "status"@,
        "output"@,
        "error"@,
        "truncated"@,
        "timestamp"@,
    ]);
}

} // verus!
