//! String literals that differ: the keys of the messages and the methods of the events.

use vstd::prelude::*;

verus! {

/// The keys of a status message differ.
pub(crate) proof fn lemma_status_keys()
    ensures
        "type"@ != "connected"@,
        "type"@ != "screencasting"@,
        "type"@ != "viewportWidth"@,
        "type"@ != "viewportHeight"@,
        "type"@ != "engine"@,
        "type"@ != "recording"@,
        "connected"@ != "screencasting"@,
        "connected"@ != "viewportWidth"@,
        "connected"@ != "viewportHeight"@,
        "connected"@ != "engine"@,
        "connected"@ != "recording"@,
        "screencasting"@ != "viewportWidth"@,
        "screencasting"@ != "viewportHeight"@,
        "screencasting"@ != "engine"@,
        "screencasting"@ != "recording"@,
        "viewportWidth"@ != "viewportHeight"@,
        "viewportWidth"@ != "engine"@,
        "viewportWidth"@ != "recording"@,
        "viewportHeight"@ != "engine"@,
        "viewportHeight"@ != "recording"@,
        "engine"@ != "recording"@,
{
    reveal_strlit("type");
    reveal_strlit("connected");
    reveal_strlit("screencasting");
    reveal_strlit("viewportWidth");
    reveal_strlit("viewportHeight");
    reveal_strlit("engine");
    reveal_strlit("recording");
    assert("type"@.len() == 4);
    assert("connected"@.len() == 9);
    assert("screencasting"@.len() == 13);
    assert("viewportWidth"@.len() == 13);
    assert("viewportHeight"@.len() == 14);
    assert("engine"@.len() == 6);
    assert("recording"@.len() == 9);
    assert("connected"@[0] == 'c');
    assert("recording"@[0] == 'r');
    assert("screencasting"@[0] == 's');
    assert("viewportWidth"@[0] == 'v');
}

/// The keys of a message about an address differ.
pub(crate) proof fn lemma_url_keys()
    ensures
        "type"@ != "url"@,
        "type"@ != "timestamp"@,
        "url"@ != "timestamp"@,
{
    reveal_strlit("type");
    reveal_strlit("url");
    reveal_strlit("timestamp");
    assert("type"@.len() == 4);
    assert("url"@.len() == 3);
    assert("timestamp"@.len() == 9);
}

/// The keys of a frame message differ.
pub(crate) proof fn lemma_frame_keys()
    ensures
        "type"@ != "data"@,
        "type"@ != "metadata"@,
        "data"@ != "metadata"@,
{
    reveal_strlit("type");
    reveal_strlit("data");
    reveal_strlit("metadata");
    assert("type"@.len() == 4);
    assert("data"@.len() == 4);
    assert("metadata"@.len() == 8);
    assert("data"@[0] == 'd');
    assert("type"@[0] == 't');
}

/// The keys of a frame's metadata differ.
pub(crate) proof fn lemma_metadata_keys()
    ensures
        "offsetTop"@ != "pageScaleFactor"@,
        "offsetTop"@ != "deviceWidth"@,
        "offsetTop"@ != "deviceHeight"@,
        "offsetTop"@ != "scrollOffsetX"@,
        "offsetTop"@ != "scrollOffsetY"@,
        "offsetTop"@ != "timestamp"@,
        "pageScaleFactor"@ != "deviceWidth"@,
        "pageScaleFactor"@ != "deviceHeight"@,
        "pageScaleFactor"@ != "scrollOffsetX"@,
        "pageScaleFactor"@ != "scrollOffsetY"@,
        "pageScaleFactor"@ != "timestamp"@,
        "deviceWidth"@ != "deviceHeight"@,
        "deviceWidth"@ != "scrollOffsetX"@,
        "deviceWidth"@ != "scrollOffsetY"@,
        "deviceWidth"@ != "timestamp"@,
        "deviceHeight"@ != "scrollOffsetX"@,
        "deviceHeight"@ != "scrollOffsetY"@,
        "deviceHeight"@ != "timestamp"@,
        "scrollOffsetX"@ != "scrollOffsetY"@,
        "scrollOffsetX"@ != "timestamp"@,
        "scrollOffsetY"@ != "timestamp"@,
{
    reveal_strlit("offsetTop");
    reveal_strlit("pageScaleFactor");
    reveal_strlit("deviceWidth");
    reveal_strlit("deviceHeight");
    reveal_strlit("scrollOffsetX");
    reveal_strlit("scrollOffsetY");
    reveal_strlit("timestamp");
    assert("offsetTop"@.len() == 9);
    assert("pageScaleFactor"@.len() == 15);
    assert("deviceWidth"@.len() == 11);
    assert("deviceHeight"@.len() == 12);
    assert("scrollOffsetX"@.len() == 13);
    assert("scrollOffsetY"@.len() == 13);
    assert("timestamp"@.len() == 9);
    assert("offsetTop"@[0] == 'o');
    assert("scrollOffsetX"@[12] == 'X');
    assert("scrollOffsetY"@[12] == 'Y');
    assert("timestamp"@[0] == 't');
}

/// The keys of a console message differ.
pub(crate) proof fn lemma_console_keys()
    ensures
        "type"@ != "level"@,
        "type"@ != "text"@,
        "type"@ != "timestamp"@,
        "type"@ != "args"@,
        "level"@ != "text"@,
        "level"@ != "timestamp"@,
        "level"@ != "args"@,
        "text"@ != "timestamp"@,
        "text"@ != "args"@,
        "timestamp"@ != "args"@,
{
    reveal_strlit("type");
    reveal_strlit("level");
    reveal_strlit("text");
    reveal_strlit("timestamp");
    reveal_strlit("args");
    assert("type"@.len() == 4);
    assert("level"@.len() == 5);
    assert("text"@.len() == 4);
    assert("timestamp"@.len() == 9);
    assert("args"@.len() == 4);
    assert("args"@[0] == 'a');
    assert("text"@[0] == 't');
    assert("text"@[1] == 'e');
    assert("type"@[0] == 't');
    assert("type"@[1] == 'y');
}

/// The keys of a message about an exception differ.
pub(crate) proof fn lemma_page_error_keys()
    ensures
        "type"@ != "text"@,
        "type"@ != "line"@,
        "type"@ != "column"@,
        "type"@ != "timestamp"@,
        "text"@ != "line"@,
        "text"@ != "column"@,
        "text"@ != "timestamp"@,
        "line"@ != "column"@,
        "line"@ != "timestamp"@,
        "column"@ != "timestamp"@,
{
    reveal_strlit("type");
    reveal_strlit("text");
    reveal_strlit("line");
    reveal_strlit("column");
    reveal_strlit("timestamp");
    assert("type"@.len() == 4);
    assert("text"@.len() == 4);
    assert("line"@.len() == 4);
    assert("column"@.len() == 6);
    assert("timestamp"@.len() == 9);
    assert("line"@[0] == 'l');
    assert("text"@[0] == 't');
    assert("text"@[1] == 'e');
    assert("type"@[0] == 't');
    assert("type"@[1] == 'y');
}

/// The keys of a message about an invocation differ.
pub(crate) proof fn lemma_tool_invoked_keys()
    ensures
        "type"@ != "invocation"@,
        "type"@ != "tool"@,
        "type"@ != "frame"@,
        "type"@ != "input"@,
        "type"@ != "truncated"@,
        "type"@ != "timestamp"@,
        "invocation"@ != "tool"@,
        "invocation"@ != "frame"@,
        "invocation"@ != "input"@,
        "invocation"@ != "truncated"@,
        "invocation"@ != "timestamp"@,
        "tool"@ != "frame"@,
        "tool"@ != "input"@,
        "tool"@ != "truncated"@,
        "tool"@ != "timestamp"@,
        "frame"@ != "input"@,
        "frame"@ != "truncated"@,
        "frame"@ != "timestamp"@,
        "input"@ != "truncated"@,
        "input"@ != "timestamp"@,
        "truncated"@ != "timestamp"@,
{
    reveal_strlit("type");
    reveal_strlit("invocation");
    reveal_strlit("tool");
    reveal_strlit("frame");
    reveal_strlit("input");
    reveal_strlit("truncated");
    reveal_strlit("timestamp");
    assert("type"@.len() == 4);
    assert("invocation"@.len() == 10);
    assert("tool"@.len() == 4);
    assert("frame"@.len() == 5);
    assert("input"@.len() == 5);
    assert("truncated"@.len() == 9);
    assert("timestamp"@.len() == 9);
    assert("frame"@[0] == 'f');
    assert("input"@[0] == 'i');
    assert("timestamp"@[1] == 'i');
    assert("tool"@[1] == 'o');
    assert("truncated"@[1] == 'r');
    assert("type"@[1] == 'y');
}

/// The keys of a message about a response differ.
pub(crate) proof fn lemma_tool_responded_keys()
    ensures
        "type"@ != "invocation"@,
        "type"@ != "tool"@,
        "type"@ != "frame"@,
        "type"@ != "status"@,
        "type"@ != "output"@,
        "type"@ != "error"@,
        "type"@ != "truncated"@,
        "type"@ != "timestamp"@,
        "invocation"@ != "tool"@,
        "invocation"@ != "frame"@,
        "invocation"@ != "status"@,
        "invocation"@ != "output"@,
        "invocation"@ != "error"@,
        "invocation"@ != "truncated"@,
        "invocation"@ != "timestamp"@,
        "tool"@ != "frame"@,
        "tool"@ != "status"@,
        "tool"@ != "output"@,
        "tool"@ != "error"@,
        "tool"@ != "truncated"@,
        "tool"@ != "timestamp"@,
        "frame"@ != "status"@,
        "frame"@ != "output"@,
        "frame"@ != "error"@,
        "frame"@ != "truncated"@,
        "frame"@ != "timestamp"@,
        "status"@ != "output"@,
        "status"@ != "error"@,
        "status"@ != "truncated"@,
        "status"@ != "timestamp"@,
        "output"@ != "error"@,
        "output"@ != "truncated"@,
        "output"@ != "timestamp"@,
        "error"@ != "truncated"@,
        "error"@ != "timestamp"@,
        "truncated"@ != "timestamp"@,
{
    reveal_strlit("type");
    reveal_strlit("invocation");
    reveal_strlit("tool");
    reveal_strlit("frame");
    reveal_strlit("status");
    reveal_strlit("output");
    reveal_strlit("error");
    reveal_strlit("truncated");
    reveal_strlit("timestamp");
    assert("type"@.len() == 4);
    assert("invocation"@.len() == 10);
    assert("tool"@.len() == 4);
    assert("frame"@.len() == 5);
    assert("status"@.len() == 6);
    assert("output"@.len() == 6);
    assert("error"@.len() == 5);
    assert("truncated"@.len() == 9);
    assert("timestamp"@.len() == 9);
    assert("error"@[0] == 'e');
    assert("frame"@[0] == 'f');
    assert("output"@[0] == 'o');
    assert("status"@[0] == 's');
    assert("timestamp"@[1] == 'i');
    assert("tool"@[1] == 'o');
    assert("truncated"@[1] == 'r');
    assert("type"@[1] == 'y');
}

/// The parameters of the command that starts a screencast differ.
pub(crate) proof fn lemma_start_keys()
    ensures
        "format"@ != "quality"@,
        "format"@ != "maxWidth"@,
        "format"@ != "maxHeight"@,
        "format"@ != "everyNthFrame"@,
        "quality"@ != "maxWidth"@,
        "quality"@ != "maxHeight"@,
        "quality"@ != "everyNthFrame"@,
        "maxWidth"@ != "maxHeight"@,
        "maxWidth"@ != "everyNthFrame"@,
        "maxHeight"@ != "everyNthFrame"@,
{
    reveal_strlit("format");
    reveal_strlit("quality");
    reveal_strlit("maxWidth");
    reveal_strlit("maxHeight");
    reveal_strlit("everyNthFrame");
    assert("format"@.len() == 6);
    assert("quality"@.len() == 7);
    assert("maxWidth"@.len() == 8);
    assert("maxHeight"@.len() == 9);
    assert("everyNthFrame"@.len() == 13);
}

/// The methods of the events that are handled differ.
pub(crate) proof fn lemma_event_methods()
    ensures
        "Page.frameNavigated"@ != "Page.screencastFrame"@,
        "Page.frameNavigated"@ != "Runtime.consoleAPICalled"@,
        "Page.frameNavigated"@ != "Runtime.exceptionThrown"@,
        "Page.frameNavigated"@ != "WebMCP.toolInvoked"@,
        "Page.frameNavigated"@ != "WebMCP.toolResponded"@,
        "Page.screencastFrame"@ != "Runtime.consoleAPICalled"@,
        "Page.screencastFrame"@ != "Runtime.exceptionThrown"@,
        "Page.screencastFrame"@ != "WebMCP.toolInvoked"@,
        "Page.screencastFrame"@ != "WebMCP.toolResponded"@,
        "Runtime.consoleAPICalled"@ != "Runtime.exceptionThrown"@,
        "Runtime.consoleAPICalled"@ != "WebMCP.toolInvoked"@,
        "Runtime.consoleAPICalled"@ != "WebMCP.toolResponded"@,
        "Runtime.exceptionThrown"@ != "WebMCP.toolInvoked"@,
        "Runtime.exceptionThrown"@ != "WebMCP.toolResponded"@,
        "WebMCP.toolInvoked"@ != "WebMCP.toolResponded"@,
{
    reveal_strlit("Page.frameNavigated");
    reveal_strlit("Page.screencastFrame");
    reveal_strlit("Runtime.consoleAPICalled");
    reveal_strlit("Runtime.exceptionThrown");
    reveal_strlit("WebMCP.toolInvoked");
    reveal_strlit("WebMCP.toolResponded");
    assert("Page.frameNavigated"@.len() == 19);
    assert("Page.screencastFrame"@.len() == 20);
    assert("Runtime.consoleAPICalled"@.len() == 24);
    assert("Runtime.exceptionThrown"@.len() == 23);
    assert("WebMCP.toolInvoked"@.len() == 18);
    assert("WebMCP.toolResponded"@.len() == 20);
    assert("Page.screencastFrame"@[0] == 'P');
    assert("WebMCP.toolResponded"@[0] == 'W');
}

} // verus!
