use cdp_stream::in_flight::{InFlightTools, WEBMCP_INFLIGHT_LIMIT};
use cdp_stream::json::Json;
use cdp_stream::payload::{
    truncate_payload, webmcp_error_text, webmcp_payload_text, webmcp_status, WEBMCP_PAYLOAD_LIMIT,
};
use cdp_stream::value::from_value;

fn json(text: &str) -> Json {
    from_value(serde_json::from_str(text).unwrap())
}

#[test]
fn short_payloads_pass_through_untouched() {
    let (text, cut) = truncate_payload("{\"t\":\"hi\"}".to_string());
    assert_eq!(text, "{\"t\":\"hi\"}");
    assert!(!cut);
}

#[test]
fn oversized_payloads_are_cut_and_flagged() {
    let (text, cut) = truncate_payload("x".repeat(WEBMCP_PAYLOAD_LIMIT + 10));
    assert_eq!(text.len(), WEBMCP_PAYLOAD_LIMIT);
    assert!(cut);
}

#[test]
fn truncation_never_splits_a_character() {
    // A character of three bytes across the limit is dropped whole.
    let mut text = "a".repeat(WEBMCP_PAYLOAD_LIMIT - 1);
    text.push('界');
    let (cut_text, cut) = truncate_payload(text);
    assert!(cut);
    assert_eq!(cut_text.len(), WEBMCP_PAYLOAD_LIMIT - 1);
    assert!(cut_text.chars().all(|c| c == 'a'));
}

#[test]
fn a_payload_of_exactly_the_limit_is_whole() {
    let text = "y".repeat(16 * 1024);
    assert_eq!(WEBMCP_PAYLOAD_LIMIT, 16 * 1024);
    assert_eq!(truncate_payload(text.clone()), (text, false));
    assert_eq!(truncate_payload(String::new()), (String::new(), false));
}

#[test]
fn at_most_three_bytes_of_the_limit_stay_unused() {
    for lead in 0..4 {
        let mut text = "b".repeat(lead);
        while text.len() <= WEBMCP_PAYLOAD_LIMIT {
            text.push('🦀');
        }
        let (once, cut) = truncate_payload(text.clone());
        assert!(cut);
        assert!(text.starts_with(&once));
        assert!(once.len() <= WEBMCP_PAYLOAD_LIMIT);
        assert!(once.len() + 4 > WEBMCP_PAYLOAD_LIMIT);
        assert_eq!(truncate_payload(once.clone()), (once, false));
    }
}

#[test]
fn status_maps_the_domain_enum_and_keeps_unknowns_distinct() {
    assert_eq!(webmcp_status("Completed"), "completed");
    assert_eq!(webmcp_status("Canceled"), "canceled");
    assert_eq!(webmcp_status("Error"), "error");
    // A status that is not known is not a failed tool.
    assert_eq!(webmcp_status("SomethingNew"), "unknown");
}

#[test]
fn status_is_matched_as_a_whole() {
    assert_eq!(webmcp_status(""), "unknown");
    assert_eq!(webmcp_status("error"), "unknown");
    assert_eq!(webmcp_status("Errors"), "unknown");
}

#[test]
fn error_text_prefers_error_text_then_the_exception() {
    let both = json(
        "{\"errorText\":\"tool blew up\",\"exception\":{\"description\":\"TypeError: x\"}}",
    );
    assert_eq!(webmcp_error_text(&both).as_deref(), Some("tool blew up"));

    let only_exception = json("{\"exception\":{\"description\":\"TypeError: x\"}}");
    assert_eq!(
        webmcp_error_text(&only_exception).as_deref(),
        Some("TypeError: x")
    );

    assert_eq!(webmcp_error_text(&json("{\"status\":\"Completed\"}")), None);
    // An empty error text is none.
    assert_eq!(webmcp_error_text(&json("{\"errorText\":\"\"}")), None);
}

#[test]
fn error_text_ignores_what_is_no_text() {
    let number = json("{\"errorText\":7,\"exception\":{\"description\":\"thrown\"}}");
    assert_eq!(webmcp_error_text(&number).as_deref(), Some("thrown"));
    assert_eq!(webmcp_error_text(&json("{\"errorText\":\"\",\"exception\":{\"description\":\"\"}}")), None);
    assert_eq!(webmcp_error_text(&json("{\"exception\":\"thrown\"}")), None);
    assert_eq!(webmcp_error_text(&json("[\"errorText\"]")), None);
}

#[test]
fn payload_text_keeps_strings_verbatim_and_serialises_the_rest() {
    assert_eq!(webmcp_payload_text(&json("\"already text\"")), "already text");
    assert_eq!(
        webmcp_payload_text(&json("{\"content\":[{\"type\":\"text\",\"text\":\"hi\"}]}")),
        "{\"content\":[{\"text\":\"hi\",\"type\":\"text\"}]}"
    );
    assert_eq!(webmcp_payload_text(&json("null")), "null");
    assert_eq!(webmcp_payload_text(&json(" [ 1.50 , -2 , true ] ")), "[1.5,-2,true]");
}

#[test]
fn correlation_returns_the_tool_once_then_forgets_it() {
    let mut table = InFlightTools::default();
    table.record("inv-1", "add-to-cart", "frame-a");
    assert_eq!(
        table.take("inv-1"),
        Some(("add-to-cart".to_string(), "frame-a".to_string()))
    );
    // A second response has nothing to correlate with.
    assert_eq!(table.take("inv-1"), None);
}

#[test]
fn correlation_evicts_oldest_and_never_grows_past_the_cap() {
    let mut table = InFlightTools::default();
    for i in 0..(WEBMCP_INFLIGHT_LIMIT + 5) {
        table.record(&format!("inv-{i}"), "t", "f");
    }
    assert_eq!(table.len(), WEBMCP_INFLIGHT_LIMIT);
    // The first five are gone; a late response to them names no tool.
    assert_eq!(table.take("inv-0"), None);
    assert!(table
        .take(&format!("inv-{}", WEBMCP_INFLIGHT_LIMIT + 4))
        .is_some());
}

#[test]
fn re_recording_an_invocation_does_not_double_count_the_queue() {
    let mut table = InFlightTools::default();
    table.record("inv-1", "t", "f");
    table.record("inv-1", "t2", "f2");
    assert_eq!(table.queued(), 1);
    assert_eq!(
        table.take("inv-1"),
        Some(("t2".to_string(), "f2".to_string()))
    );
}

#[test]
fn exactly_the_oldest_invocations_are_evicted() {
    let mut table = InFlightTools::default();
    for i in 0..(WEBMCP_INFLIGHT_LIMIT + 5) {
        table.record(&format!("inv-{i}"), "t", "f");
    }
    assert_eq!(table.queued(), 256);
    assert_eq!(table.take("inv-4"), None);
    assert!(table.take("inv-5").is_some());
    // An answered invocation gives its place up.
    assert_eq!(table.queued(), 255);
    assert_eq!(table.len(), 255);
}

#[test]
fn an_invocation_survives_until_the_limit_of_others() {
    let mut table = InFlightTools::default();
    table.record("kept", "tool", "frame");
    for i in 0..(WEBMCP_INFLIGHT_LIMIT - 1) {
        table.record(&format!("other-{i}"), "t", "f");
    }
    assert_eq!(table.len(), WEBMCP_INFLIGHT_LIMIT);
    assert_eq!(
        table.take("kept"),
        Some(("tool".to_string(), "frame".to_string()))
    );
    let mut one_more = InFlightTools::default();
    one_more.record("kept", "tool", "frame");
    for i in 0..WEBMCP_INFLIGHT_LIMIT {
        one_more.record(&format!("other-{i}"), "t", "f");
    }
    assert_eq!(one_more.take("kept"), None);
}

#[test]
fn answered_invocations_push_none_out() {
    let mut table = InFlightTools::default();
    table.record("a", "t", "f");
    for i in 0..256 {
        table.record(&format!("x{i}"), "t", "f");
        assert!(table.take(&format!("x{i}")).is_some());
        assert_eq!(table.queued(), 1);
    }
    assert_eq!(table.take("a"), Some(("t".to_string(), "f".to_string())));
    assert_eq!(table.queued(), 0);
}

#[test]
fn a_reused_identifier_is_the_newest() {
    let mut table = InFlightTools::default();
    table.record("a", "t", "f");
    assert!(table.take("a").is_some());
    for i in 0..255 {
        table.record(&format!("x{i}"), "t", "f");
    }
    table.record("a", "t2", "f2");
    assert_eq!(table.len(), 256);
    assert_eq!(table.take("a"), Some(("t2".to_string(), "f2".to_string())));
    // Nothing was pushed out for it.
    assert!(table.take("x0").is_some());
}

#[test]
fn an_answer_takes_only_its_own_place() {
    let mut table = InFlightTools::default();
    table.record("a", "ta", "f");
    table.record("b", "tb", "f");
    table.record("c", "tc", "f");
    assert_eq!(table.take("unknown"), None);
    assert_eq!(table.queued(), 3);
    assert!(table.take("b").is_some());
    assert_eq!(table.queued(), 2);
    for i in 0..255 {
        table.record(&format!("x{i}"), "t", "f");
    }
    // The oldest made way, the next one did not.
    assert_eq!(table.take("a"), None);
    assert_eq!(table.take("c"), Some(("tc".to_string(), "f".to_string())));
}
