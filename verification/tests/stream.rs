use cdp_stream::action::Action;
use cdp_stream::command::{ack_screencast_frame, start_screencast, stop_screencast, Command};
use cdp_stream::event::Event;
use cdp_stream::message::build_console;
use cdp_stream::json::Json;
use cdp_stream::stream::{ClientSlot, Shared, Stream, Wake};
use cdp_stream::tabs::set_active_url;
use cdp_stream::value::{from_value, render, to_value};

fn json(text: &str) -> Json {
    from_value(serde_json::from_str(text).unwrap())
}

fn show_command(command: &Command) -> String {
    let params = match &command.params {
        Some(params) => render(params),
        None => "-".to_string(),
    };
    format!("{} {} {}", command.method, params, command.session.as_deref().unwrap_or("-"))
}

fn show(actions: &[Action]) -> Vec<String> {
    actions
        .iter()
        .map(|action| match action {
            Action::Subscribe => "subscribe".to_string(),
            Action::Send(command) => format!("send {}", show_command(command)),
            Action::SetScreencasting(on) => format!("screencasting {on}"),
            Action::AnnounceStatus => "status".to_string(),
            Action::SetActiveUrl(url) => format!("tabs {url}"),
            Action::Broadcast(message) => format!("broadcast {}", render(message)),
            Action::BroadcastFrame(message) => format!("frame {}", render(message)),
            Action::FormatConsole { level, args } => {
                let args: Vec<String> = args.iter().map(render).collect();
                format!("console {level} {}", args.join("|"))
            }
            Action::NotifyAgain => "notify".to_string(),
        })
        .collect()
}

fn shared() -> Shared {
    Shared {
        client_count: 1,
        client: ClientSlot::Other,
        session_id: Some("S1".to_string()),
        width: 1280,
        height: 720,
        scale_changed: false,
        capture_width: 2560,
        capture_height: 1440,
        engine: "chrome".to_string(),
        screencasting: false,
    }
}

fn attached() -> Stream {
    let (stream, _) = Stream::Idle.step(Wake::Notified { shared: shared() });
    assert!(matches!(&stream, Stream::Attached(_)));
    stream
}

fn still() -> Shared {
    Shared { client: ClientSlot::Attached, screencasting: true, ..shared() }
}

fn event(stream: Stream, method: &str, params: &str) -> (Stream, Vec<String>) {
    let event = Event {
        method: method.to_string(),
        params: json(params),
        session: Some("E1".to_string()),
    };
    let (stream, actions) = stream.step(Wake::Event { event, now: 99 });
    (stream, show(&actions))
}

fn one_event(method: &str, params: &str) -> Vec<String> {
    let (stream, shown) = event(attached(), method, params);
    assert!(matches!(&stream, Stream::Attached(_)));
    shown
}

#[test]
fn commands_carry_their_parameters() {
    assert_eq!(
        show_command(&start_screencast("S", "png", 50, 800, -1)),
        "Page.startScreencast {\"everyNthFrame\":1,\"format\":\"png\",\"maxHeight\":-1,\"maxWidth\":800,\"quality\":50} S"
    );
    assert_eq!(show_command(&stop_screencast("S")), "Page.stopScreencast - S");
    assert_eq!(
        show_command(&ack_screencast_frame("S", -7)),
        "Page.screencastFrameAck {\"sessionId\":-7} S"
    );
}

#[test]
fn an_idle_stream_attaches_to_chrome() {
    let (stream, actions) = Stream::Idle.step(Wake::Notified { shared: shared() });
    assert_eq!(
        show(&actions),
        vec![
            "subscribe",
            "send Page.startScreencast {\"everyNthFrame\":1,\"format\":\"jpeg\",\"maxHeight\":1440,\"maxWidth\":2560,\"quality\":80} S1",
            "send WebMCP.enable - S1",
            "screencasting true",
            "status",
        ]
    );
    match stream {
        Stream::Attached(session) => assert_eq!(
            render(&session.status(true)),
            "{\"connected\":true,\"engine\":\"chrome\",\"recording\":true,\"screencasting\":true,\"type\":\"status\",\"viewportHeight\":720,\"viewportWidth\":1280}"
        ),
        _ => panic!("not attached"),
    }
}

#[test]
fn another_engine_is_sent_nothing() {
    let other = Shared { engine: "lightpanda".to_string(), ..shared() };
    let (stream, actions) = Stream::Idle.step(Wake::Notified { shared: other });
    assert_eq!(show(&actions), vec!["subscribe", "screencasting false", "status"]);
    let (stream, actions) = match stream {
        Stream::Attached(session) => {
            assert_eq!(
                render(&session.status(false)),
                "{\"connected\":true,\"engine\":\"lightpanda\",\"recording\":false,\"screencasting\":false,\"type\":\"status\",\"viewportHeight\":720,\"viewportWidth\":1280}"
            );
            Stream::Attached(session).step(Wake::Notified {
                shared: Shared { client_count: 0, ..still() },
            })
        }
        _ => panic!("not attached"),
    };
    assert!(matches!(&stream, Stream::Idle));
    assert_eq!(show(&actions), vec!["screencasting false"]);
}

#[test]
fn an_idle_stream_waits_without_a_client() {
    let empty = Shared { client: ClientSlot::Empty, screencasting: true, ..shared() };
    let (stream, actions) = Stream::Idle.step(Wake::Notified { shared: empty });
    assert!(matches!(&stream, Stream::Idle));
    assert!(actions.is_empty());
}

#[test]
fn an_idle_stream_ends_what_was_left_running() {
    let left = Shared { client_count: 0, screencasting: true, ..shared() };
    let (stream, actions) = Stream::Idle.step(Wake::Notified { shared: left });
    assert!(matches!(&stream, Stream::Idle));
    assert_eq!(show(&actions), vec!["send Page.stopScreencast - S1", "screencasting false"]);

    let gone = Shared { client_count: 0, client: ClientSlot::Empty, screencasting: true, ..shared() };
    let (_, actions) = Stream::Idle.step(Wake::Notified { shared: gone });
    assert_eq!(show(&actions), vec!["screencasting false"]);

    let quiet = Shared { client_count: 0, ..shared() };
    let (_, actions) = Stream::Idle.step(Wake::Notified { shared: quiet });
    assert!(actions.is_empty());
}

#[test]
fn shutdown_stops_in_every_state() {
    let left = Shared { screencasting: true, ..shared() };
    let (stream, actions) =
        Stream::Idle.step(Wake::Shutdown { closed: true, requested: false, shared: left });
    assert!(matches!(&stream, Stream::Stopped));
    assert_eq!(show(&actions), vec!["send Page.stopScreencast - S1", "screencasting false"]);

    // The session is the one of the moment.
    let moved = Shared { session_id: Some("S2".to_string()), ..still() };
    let (stream, actions) =
        attached().step(Wake::Shutdown { closed: false, requested: true, shared: moved });
    assert!(matches!(&stream, Stream::Stopped));
    assert_eq!(show(&actions), vec!["send Page.stopScreencast - S2", "screencasting false"]);

    let (stream, actions) = stream.step(Wake::Notified { shared: shared() });
    assert!(matches!(&stream, Stream::Stopped));
    assert!(actions.is_empty());
}

#[test]
fn a_shutdown_that_is_not_asked_for_is_a_wake_up() {
    let (stream, _) =
        Stream::Idle.step(Wake::Shutdown { closed: false, requested: false, shared: shared() });
    assert!(matches!(&stream, Stream::Attached(_)));
    let changed = Shared { client_count: 0, ..still() };
    let (stream, actions) =
        stream.step(Wake::Shutdown { closed: false, requested: false, shared: changed });
    assert!(matches!(&stream, Stream::Attached(_)));
    assert!(actions.is_empty());
}

#[test]
fn the_last_viewer_ends_the_screencast() {
    // The session is the one that the stream was attached to.
    let gone = Shared { client_count: 0, session_id: Some("S2".to_string()), ..still() };
    let (stream, actions) = attached().step(Wake::Notified { shared: gone });
    assert!(matches!(&stream, Stream::Idle));
    assert_eq!(show(&actions), vec!["send Page.stopScreencast - S1", "screencasting false"]);
}

#[test]
fn a_change_makes_the_stream_attach_anew() {
    let changes = vec![
        Shared { client: ClientSlot::Other, ..still() },
        Shared { client: ClientSlot::Empty, ..still() },
        Shared { session_id: Some("S2".to_string()), ..still() },
        Shared { session_id: None, ..still() },
        Shared { width: 1279, ..still() },
        Shared { height: 721, ..still() },
        Shared { scale_changed: true, ..still() },
    ];
    for changed in changes {
        let (stream, actions) = attached().step(Wake::Notified { shared: changed });
        assert!(matches!(&stream, Stream::Idle));
        assert_eq!(
            show(&actions),
            vec!["send Page.stopScreencast - S1", "screencasting false", "notify"]
        );
    }
    let (stream, actions) = attached().step(Wake::Notified { shared: still() });
    assert!(matches!(&stream, Stream::Attached(_)));
    assert!(actions.is_empty());
}

#[test]
fn lost_events_are_passed_over_and_a_closed_client_is_let_go() {
    let (stream, actions) = attached().step(Wake::Lagged);
    assert!(matches!(&stream, Stream::Attached(_)));
    assert!(actions.is_empty());
    let (stream, actions) = stream.step(Wake::Closed);
    assert!(matches!(&stream, Stream::Idle));
    assert!(actions.is_empty());
}

#[test]
fn a_navigation_of_the_main_frame_is_told() {
    let told = vec![
        "tabs https://a.example/",
        "broadcast {\"timestamp\":99,\"type\":\"url\",\"url\":\"https://a.example/\"}",
    ];
    assert_eq!(
        one_event("Page.frameNavigated", "{\"frame\":{\"url\":\"https://a.example/\"}}"),
        told
    );
    assert_eq!(
        one_event(
            "Page.frameNavigated",
            "{\"frame\":{\"parentId\":\"\",\"url\":\"https://a.example/\"}}"
        ),
        told
    );
    let nothing: Vec<String> = Vec::new();
    assert_eq!(
        one_event(
            "Page.frameNavigated",
            "{\"frame\":{\"parentId\":\"P\",\"url\":\"https://a.example/\"}}"
        ),
        nothing
    );
    assert_eq!(one_event("Page.frameNavigated", "{\"frame\":{}}"), nothing);
    assert_eq!(one_event("Page.frameNavigated", "{}"), nothing);
    assert_eq!(one_event("Page.loadEventFired", "{}"), nothing);
}

#[test]
fn a_frame_is_acknowledged_and_passed_on() {
    assert_eq!(
        one_event(
            "Page.screencastFrame",
            "{\"sessionId\":4,\"data\":\"QUJD\",\"metadata\":{\"offsetTop\":3,\"pageScaleFactor\":1.25,\"scrollOffsetX\":0,\"scrollOffsetY\":-2.5,\"timestamp\":17}}"
        ),
        vec![
            "send Page.screencastFrameAck {\"sessionId\":4} E1",
            "frame {\"data\":\"QUJD\",\"metadata\":{\"deviceHeight\":720,\"deviceWidth\":1280,\"offsetTop\":3.0,\"pageScaleFactor\":1.25,\"scrollOffsetX\":0.0,\"scrollOffsetY\":-2.5,\"timestamp\":17},\"type\":\"frame\"}",
        ]
    );
}

#[test]
fn a_frame_without_metadata_has_defaults() {
    let bare = "frame {\"data\":\"\",\"metadata\":{\"deviceHeight\":720,\"deviceWidth\":1280,\"offsetTop\":0.0,\"pageScaleFactor\":1.0,\"scrollOffsetX\":0.0,\"scrollOffsetY\":0.0,\"timestamp\":0},\"type\":\"frame\"}";
    assert_eq!(one_event("Page.screencastFrame", "{\"data\":\"\"}"), vec![bare]);
    // A time with a fraction is no unsigned integer.
    assert_eq!(
        one_event(
            "Page.screencastFrame",
            "{\"data\":\"\",\"metadata\":{\"timestamp\":17.5,\"offsetTop\":\"3\"}}"
        ),
        vec![bare]
    );
    assert_eq!(
        one_event("Page.screencastFrame", "{\"sessionId\":9}"),
        vec!["send Page.screencastFrameAck {\"sessionId\":9} E1"]
    );
    let nothing: Vec<String> = Vec::new();
    assert_eq!(one_event("Page.screencastFrame", "{\"sessionId\":18446744073709551615}"), nothing);
    assert_eq!(one_event("Page.screencastFrame", "{\"sessionId\":1.0}"), nothing);
}

#[test]
fn a_console_call_is_handed_on_for_formatting() {
    assert_eq!(
        one_event("Runtime.consoleAPICalled", "{\"type\":\"warning\",\"args\":[1,\"two\"]}"),
        vec!["console warning 1|\"two\""]
    );
    assert_eq!(one_event("Runtime.consoleAPICalled", "{}"), vec!["console log "]);
}

#[test]
fn a_console_message_needs_text() {
    let message = build_console("info", "hi", vec![json("\"hi\"")], 5).unwrap();
    assert_eq!(
        render(&message),
        "{\"args\":[\"hi\"],\"level\":\"info\",\"text\":\"hi\",\"timestamp\":5,\"type\":\"console\"}"
    );
    let message = build_console("info", "hi", Vec::new(), 5).unwrap();
    assert_eq!(
        render(&message),
        "{\"level\":\"info\",\"text\":\"hi\",\"timestamp\":5,\"type\":\"console\"}"
    );
    assert_eq!(build_console("info", "", vec![json("1")], 5), None);
}

#[test]
fn an_exception_is_told_with_its_best_text() {
    assert_eq!(
        one_event(
            "Runtime.exceptionThrown",
            "{\"exceptionDetails\":{\"text\":\"Uncaught\",\"lineNumber\":3,\"columnNumber\":-1,\"exception\":{\"description\":\"TypeError: x\"}}}"
        ),
        vec!["broadcast {\"column\":-1,\"line\":3,\"text\":\"TypeError: x\",\"timestamp\":99,\"type\":\"page_error\"}"]
    );
    assert_eq!(
        one_event(
            "Runtime.exceptionThrown",
            "{\"exceptionDetails\":{\"text\":\"Uncaught\",\"exception\":{}}}"
        ),
        vec!["broadcast {\"column\":null,\"line\":null,\"text\":\"Uncaught\",\"timestamp\":99,\"type\":\"page_error\"}"]
    );
    assert_eq!(
        one_event("Runtime.exceptionThrown", "{}"),
        vec!["broadcast {\"column\":null,\"line\":null,\"text\":\"Unknown error\",\"timestamp\":99,\"type\":\"page_error\"}"]
    );
}

#[test]
fn a_response_names_the_tool_that_was_invoked() {
    let (stream, shown) = event(
        attached(),
        "WebMCP.toolInvoked",
        "{\"invocationId\":\"i1\",\"toolName\":\"add\",\"frameId\":\"F\",\"input\":\"{}\"}",
    );
    assert_eq!(
        shown,
        vec!["broadcast {\"frame\":\"F\",\"input\":\"{}\",\"invocation\":\"i1\",\"timestamp\":99,\"tool\":\"add\",\"truncated\":false,\"type\":\"webmcp-tool-invoked\"}"]
    );
    let (stream, _) = event(stream, "Page.frameNavigated", "{}");
    let response = "{\"invocationId\":\"i1\",\"status\":\"Completed\",\"output\":{\"n\":1}}";
    let (stream, shown) = event(stream, "WebMCP.toolResponded", response);
    assert_eq!(
        shown,
        vec!["broadcast {\"error\":null,\"frame\":\"F\",\"invocation\":\"i1\",\"output\":\"{\\\"n\\\":1}\",\"status\":\"completed\",\"timestamp\":99,\"tool\":\"add\",\"truncated\":false,\"type\":\"webmcp-tool-responded\"}"]
    );
    let (_, shown) = event(stream, "WebMCP.toolResponded", response);
    assert_eq!(
        shown,
        vec!["broadcast {\"error\":null,\"frame\":null,\"invocation\":\"i1\",\"output\":\"{\\\"n\\\":1}\",\"status\":\"completed\",\"timestamp\":99,\"tool\":null,\"truncated\":false,\"type\":\"webmcp-tool-responded\"}"]
    );
}

#[test]
fn an_invocation_without_an_identifier_is_told_but_not_remembered() {
    let (stream, shown) = event(attached(), "WebMCP.toolInvoked", "{\"toolName\":\"add\"}");
    assert_eq!(
        shown,
        vec!["broadcast {\"frame\":\"\",\"input\":\"\",\"invocation\":\"\",\"timestamp\":99,\"tool\":\"add\",\"truncated\":false,\"type\":\"webmcp-tool-invoked\"}"]
    );
    match stream {
        Stream::Attached(session) => assert_eq!(session.in_flight.len(), 0),
        _ => panic!("not attached"),
    }
}

#[test]
fn a_long_error_is_cut_and_flagged() {
    let long = "e".repeat(20000);
    let params = format!("{{\"status\":\"Error\",\"errorText\":\"{long}\",\"output\":null}}");
    let kept = "e".repeat(16384);
    assert_eq!(
        one_event("WebMCP.toolResponded", &params),
        vec![format!("broadcast {{\"error\":\"{kept}\",\"frame\":null,\"invocation\":\"\",\"output\":\"null\",\"status\":\"error\",\"timestamp\":99,\"tool\":null,\"truncated\":true,\"type\":\"webmcp-tool-responded\"}}")]
    );
}

#[test]
fn a_new_attachment_remembers_no_invocation() {
    let (stream, _) = event(attached(), "WebMCP.toolInvoked", "{\"invocationId\":\"i1\"}");
    let (stream, _) = stream.step(Wake::Closed);
    let (stream, _) = stream.step(Wake::Notified { shared: shared() });
    match stream {
        Stream::Attached(mut session) => assert_eq!(session.in_flight.take("i1"), None),
        _ => panic!("not attached"),
    }
}

#[test]
fn only_active_tabs_move() {
    let mut tabs = vec![
        json("{\"active\":true,\"url\":\"old\",\"title\":\"t\"}"),
        json("{\"active\":false,\"url\":\"old\"}"),
        json("{\"active\":\"true\"}"),
        json("{\"active\":true}"),
        json("[true]"),
    ];
    set_active_url(&mut tabs, "new");
    let shown: Vec<String> = tabs.iter().map(render).collect();
    assert_eq!(
        shown,
        vec![
            "{\"active\":true,\"title\":\"t\",\"url\":\"new\"}",
            "{\"active\":false,\"url\":\"old\"}",
            "{\"active\":\"true\"}",
            "{\"active\":true,\"url\":\"new\"}",
            "[true]",
        ]
    );
}

#[test]
fn a_value_becomes_a_tree_and_back() {
    let text = "{\"a\":[null,true,-3,18446744073709551615,0.1,-0.0,\"x\\n\"],\"b\":{\"c\":{},\"d\":[]}}";
    let value: serde_json::Value = serde_json::from_str(text).unwrap();
    let tree = from_value(value.clone());
    assert_eq!(to_value(&tree), value);
    assert_eq!(render(&tree), text);
    assert_eq!(tree.get("a").is_some(), true);
    assert!(tree.get("b").unwrap().get("c").unwrap().get("z").is_none());
}

#[test]
fn members_are_set_and_read() {
    let mut object = Json::object();
    object.insert("k", Json::signed(-1));
    object.insert("k", Json::double(2));
    object.insert("n", Json::unsigned(7));
    object.insert("t", Json::text("v"));
    assert_eq!(render(&object), "{\"k\":2.0,\"n\":7,\"t\":\"v\"}");
    assert_eq!(object.i64_at("k"), None);
    assert_eq!(object.i64_at("n"), Some(7));
    assert_eq!(object.u64_at("n"), Some(7));
    assert_eq!(object.text_at("t"), Some("v"));
    assert_eq!(object.text_at("n"), None);
    assert_eq!(object.into_member("t"), Some(Json::text("v")));
}
