use browser_tools::dispatch::finish_command;
use browser_tools::dispatch::get_current_timestamp;
use browser_tools::dispatch::prepare_request;
use browser_tools::dispatch::resolve_command_spawn;
use browser_tools::dispatch::Config;
use browser_tools::normalize::process_api_response;
use browser_tools::table::completions;
use browser_tools::table::get_api_params;
use browser_tools::table::get_error_message;
use browser_tools::table::get_section_label;
use browser_tools::table::Endpoint;
use browser_tools::table::Method;
use browser_tools::default_host;
use browser_tools::default_npx_command;
use browser_tools::default_port;

fn prep(cmd: &str, arg: &str, ts: i64) -> Result<browser_tools::dispatch::PreparedRequest, String> {
    let args = vec![arg.to_string()];
    prepare_request(cmd, &args, "127.0.0.1", 3025, ts)
}

#[test]
fn defaults_match_the_agent() {
    assert_eq!(default_port(), 3025);
    assert_eq!(default_host(), "127.0.0.1");
    assert_eq!(default_npx_command(), "@agentdeskai/browser-tools-server@1.2.0");
}

#[test]
fn spawn_spec_carries_port_and_host() {
    let cfg = Config {
        port: 4000,
        host: "localhost".to_string(),
        npx_command: "pkg@1".to_string(),
    };
    let s = resolve_command_spawn(&cfg);
    assert_eq!(s.command, "npx");
    assert_eq!(s.args, vec!["pkg@1".to_string()]);
    assert_eq!(
        s.env,
        vec![
            ("PORT".to_string(), "4000".to_string()),
            ("HOST".to_string(), "localhost".to_string()),
        ]
    );
}

#[test]
fn resolve_known_pairs() {
    let p = get_api_params("browser-capture", "screenshot", 0).unwrap();
    assert_eq!(p.endpoint, Endpoint::CaptureScreenshot);
    assert_eq!(p.method, Method::Post);
    let p = get_api_params("browser-capture", "logs", 0).unwrap();
    assert_eq!(p.endpoint, Endpoint::ConsoleLogs);
    assert_eq!(p.method, Method::Get);
    let p = get_api_params("browser-debug", "start", 7).unwrap();
    assert_eq!(p.endpoint, Endpoint::DebugMode);
    assert_eq!(p.method, Method::Post);
}

#[test]
fn resolve_unknown_pair_is_rejected() {
    let e = get_api_params("browser-capture", "nonsense", 0).unwrap_err();
    assert_eq!(e, "Unknown command or argument: browser-capture nonsense");
    let e = get_api_params("no-such-command", "x", 0).unwrap_err();
    assert_eq!(e, "Unknown command or argument: no-such-command x");
}

#[test]
fn audit_request_is_framed_exactly() {
    let p = prep("browser-audit", "accessibility", 1234).unwrap();
    assert_eq!(p.endpoint, Endpoint::AccessibilityAudit);
    assert_eq!(p.method, Method::Post);
    assert_eq!(p.url, "http://127.0.0.1:3025/accessibility-audit");
    assert_eq!(
        p.body,
        "{\"category\":\"accessibility\",\"source\":\"zed_extension\",\"timestamp\":1234}"
    );
}

#[test]
fn debug_request_is_framed_exactly() {
    let p = prep("browser-debug", "start", 99).unwrap();
    assert_eq!(p.url, "http://127.0.0.1:3025/debug-mode");
    assert_eq!(p.body, "{\"source\":\"zed_extension\",\"timestamp\":99}");
}

#[test]
fn capture_request_has_empty_payload() {
    let p = prep("browser-capture", "element", 5).unwrap();
    assert_eq!(p.url, "http://127.0.0.1:3025/selected-element");
    assert_eq!(p.method, Method::Get);
    assert_eq!(p.body, "{}");
}

#[test]
fn payload_timestamps_do_not_decrease() {
    let p1 = prep("browser-audit", "seo", 5).unwrap();
    let p2 = prep("browser-audit", "nextjs", 9).unwrap();
    let v1: serde_json::Value = serde_json::from_str(&p1.body).unwrap();
    let v2: serde_json::Value = serde_json::from_str(&p2.body).unwrap();
    let t1 = v1.get("timestamp").unwrap().as_i64().unwrap();
    let t2 = v2.get("timestamp").unwrap().as_i64().unwrap();
    assert_eq!(t1, 5);
    assert_eq!(t2, 9);
    assert!(t1 <= t2);
}

#[test]
fn clock_readings_flow_into_payloads() {
    let now = get_current_timestamp();
    assert!(now >= 0);
    let p = prep("browser-audit", "all", now).unwrap();
    let v: serde_json::Value = serde_json::from_str(&p.body).unwrap();
    assert_eq!(v.get("timestamp").unwrap().as_i64().unwrap(), now);
}

#[test]
fn missing_argument_is_rejected_before_any_request() {
    let none: Vec<String> = Vec::new();
    let e = prepare_request("browser-capture", &none, "127.0.0.1", 3025, 0).unwrap_err();
    assert_eq!(e, "No argument provided. Please select an option.");
    let empty = vec![String::new()];
    let e = prepare_request("browser-audit", &empty, "127.0.0.1", 3025, 0).unwrap_err();
    assert_eq!(e, "No argument provided. Please select an option.");
}

#[test]
fn normalize_never_fails() {
    // empty input
    let out = process_api_response(Endpoint::ConsoleLogs, "");
    assert!(out.starts_with("Raw response from BrowserTools (parse error: "));
    assert!(out.ends_with("): "));
    // truncated JSON
    let out = process_api_response(Endpoint::NetworkSuccess, "{\"status\":");
    assert!(out.starts_with("Raw response from BrowserTools (parse error: "));
    assert!(out.ends_with("): {\"status\":"));
    // plain text
    let out = process_api_response(Endpoint::DebugMode, "hello there");
    assert!(out.contains("hello there"));
    // object where an array was expected
    let out = process_api_response(
        Endpoint::ConsoleLogs,
        "{\"status\":\"success\",\"data\":{\"odd\":1}}",
    );
    assert_eq!(out, "Console logs: {\n  \"odd\": 1\n}");
}

#[test]
fn empty_console_log_array_renders_the_exact_line() {
    let out = process_api_response(Endpoint::ConsoleLogs, "{\"status\":\"success\",\"data\":[]}");
    assert_eq!(out, "No console logs found.");
}

#[test]
fn console_logs_render_levels_upper_case() {
    let resp = "{\"status\":\"success\",\"data\":[\
        {\"level\":\"info\",\"message\":\"started\"},\
        {\"message\":\"no level here\"},\
        {\"level\":\"warn\",\"message\":\"careful\"}]}";
    let out = process_api_response(Endpoint::ConsoleLogs, resp);
    assert_eq!(
        out,
        "Console Logs:\n\n[INFO] started\n[INFO] no level here\n[WARN] careful"
    );
}

#[test]
fn audit_with_score_and_no_issues() {
    let resp = "{\"status\":\"success\",\"data\":{\"score\":0.87,\"issues\":[]}}";
    let out = process_api_response(Endpoint::AccessibilityAudit, resp);
    assert!(out.contains("Overall Score: 87%"));
    assert!(out.contains("No issues found!"));
    assert_eq!(
        out,
        "Accessibility Audit Results:\n\nOverall Score: 87%\n\nNo issues found!"
    );
    assert!(!out.contains('{') && !out.contains('}'));
}

#[test]
fn audit_scores_round_half_away_from_zero() {
    let resp = "{\"status\":\"success\",\"data\":{\"score\":0.005,\"issues\":[]}}";
    let out = process_api_response(Endpoint::SeoAudit, resp);
    assert!(out.contains("Overall Score: 1%"));
    let resp = "{\"status\":\"success\",\"data\":{\"score\":0.004,\"issues\":[]}}";
    let out = process_api_response(Endpoint::SeoAudit, resp);
    assert!(out.contains("Overall Score: 0%"));
    let resp = "{\"status\":\"success\",\"data\":{\"score\":1,\"issues\":[]}}";
    let out = process_api_response(Endpoint::SeoAudit, resp);
    assert!(out.contains("Overall Score: 100%"));
}

#[test]
fn audit_issues_are_numbered() {
    let resp = "{\"status\":\"success\",\"data\":{\"score\":0.5,\"issues\":[\
        {\"title\":\"Missing alt text\",\"description\":\"Images need alt.\"},\
        {\"title\":\"Low contrast\"}]}}";
    let out = process_api_response(Endpoint::PerformanceAudit, resp);
    assert_eq!(
        out,
        "Performance Audit Results:\n\nOverall Score: 50%\n\nIssues Found:\n\
         \n1. Missing alt text\n   Images need alt.\n\n2. Low contrast\n"
    );
}

#[test]
fn audit_without_structure_falls_back_to_pretty_print() {
    let resp = "{\"status\":\"success\",\"data\":{\"other\":true}}";
    let out = process_api_response(Endpoint::NextjsAudit, resp);
    assert_eq!(out, "NextJS Audit Results:\n\n{\n  \"other\": true\n}");
}

#[test]
fn element_missing_renders_the_exact_sentence() {
    let out = process_api_response(
        Endpoint::SelectedElement,
        "{\"status\":\"success\",\"data\":{}}",
    );
    assert_eq!(
        out,
        "No DOM element selected. Click on an element in the browser to select it."
    );
}

#[test]
fn element_renders_its_parts() {
    let resp = "{\"status\":\"success\",\"data\":{\"element\":{\
        \"tagName\":\"div\",\"id\":\"main\",\"className\":\"wide tall\",\
        \"innerText\":\"Hi\",\"outerHTML\":\"<div id=\\\"main\\\">Hi</div>\"}}}";
    let out = process_api_response(Endpoint::SelectedElement, resp);
    assert_eq!(
        out,
        "Selected DOM Element:\n- Tag: div\n- ID: main\n- Classes: wide tall\n- Text: Hi\n\nHTML:\n<div id=\"main\">Hi</div>"
    );
}

#[test]
fn element_omits_empty_parts() {
    let resp = "{\"status\":\"success\",\"data\":{\"element\":{\"id\":\"\",\"className\":\"\"}}}";
    let out = process_api_response(Endpoint::SelectedElement, resp);
    assert_eq!(out, "Selected DOM Element:\n- Tag: unknown");
}

#[test]
fn screenshot_reports_success_when_a_message_is_there() {
    let resp = "{\"status\":\"success\",\"data\":{\"message\":\"saved to disk\"}}";
    let out = process_api_response(Endpoint::CaptureScreenshot, resp);
    assert_eq!(out, "Successfully saved screenshot");
}

#[test]
fn wipe_reports_the_agents_message_or_the_default() {
    let out = process_api_response(
        Endpoint::WipeLogs,
        "{\"status\":\"success\",\"data\":{\"message\":\"all gone\"}}",
    );
    assert_eq!(out, "all gone");
    let out = process_api_response(Endpoint::WipeLogs, "{\"status\":\"success\",\"data\":{}}");
    assert_eq!(out, "Browser logs cleared successfully.");
}

#[test]
fn remote_failure_becomes_text_not_an_error() {
    let out = process_api_response(
        Endpoint::ConsoleErrors,
        "{\"status\":\"error\",\"message\":\"agent busy\"}",
    );
    assert_eq!(out, "Error from BrowserTools: agent busy");
}

#[test]
fn network_logs_are_pretty_printed_under_their_header() {
    let out = process_api_response(
        Endpoint::NetworkErrors,
        "{\"status\":\"success\",\"data\":[{\"url\":\"http://x\"}]}",
    );
    assert_eq!(out, "Network logs:\n\n[\n  {\n    \"url\": \"http://x\"\n  }\n]");
}

#[test]
fn completions_list_every_argument() {
    let caps = completions("browser-capture").unwrap();
    let values: Vec<&str> = caps.iter().map(|c| c.new_text.as_str()).collect();
    assert_eq!(
        values,
        vec!["screenshot", "logs", "errors", "network", "network-errors", "clear", "element"]
    );
    let audits = completions("browser-audit").unwrap();
    assert_eq!(audits.len(), 6);
    assert_eq!(audits[0].label, "Accessibility");
    let dbg = completions("browser-debug").unwrap();
    assert_eq!(dbg.len(), 1);
    assert_eq!(dbg[0].new_text, "start");
    assert!(dbg[0].run_command);
}

#[test]
fn completions_reject_unknown_commands() {
    let e = completions("browser-nothing").unwrap_err();
    assert_eq!(e, "unknown slash command: \"browser-nothing\"");
}

#[test]
fn section_labels_per_pair() {
    assert_eq!(get_section_label("browser-capture", "screenshot"), "Browser Screenshot");
    assert_eq!(get_section_label("browser-audit", "accessibility"), "Accessibility Audit");
    assert_eq!(get_section_label("browser-audit", "all"), "All Audits");
    assert_eq!(get_section_label("browser-debug", "start"), "Debugger Mode");
    assert_eq!(get_section_label("anything", "else"), "Browser Tools");
}

#[test]
fn transport_failures_are_wrapped_with_the_pair_hint() {
    let r = finish_command(
        "browser-capture",
        "screenshot",
        Endpoint::CaptureScreenshot,
        Err("connection refused".to_string()),
    );
    let e = r.unwrap_err();
    assert_eq!(
        e,
        "Failed to capture screenshot. Make sure BrowserTools extension is running in Chrome. Error: connection refused"
    );
    assert_eq!(
        get_error_message("browser-audit", "anything"),
        "Failed to run audit. Make sure BrowserTools extension is running in Chrome."
    );
    assert_eq!(get_error_message("nope", "x"), "Unknown command");
}

#[test]
fn successful_transport_yields_labeled_output() {
    let r = finish_command(
        "browser-capture",
        "logs",
        Endpoint::ConsoleLogs,
        Ok("{\"status\":\"success\",\"data\":[]}".to_string()),
    );
    let out = r.unwrap();
    assert_eq!(out.text, "No console logs found.");
    assert_eq!(out.label, "Browser Console Logs");
}

#[test]
fn bare_json_still_renders_through_the_formatter() {
    // no envelope at all: the whole value goes to the formatter
    let out = process_api_response(Endpoint::ConsoleLogs, "[{\"level\":\"log\",\"message\":\"x\"}]");
    assert_eq!(out, "Console Logs:\n\n[LOG] x");
    // a status that is not a string is no envelope: the whole value is the
    // payload, and its message field is what the wipe formatter reports
    let out = process_api_response(Endpoint::WipeLogs, "{\"status\":5,\"message\":\"m\"}");
    assert_eq!(out, "m");
}

#[test]
fn pretty_printing_escapes_strings() {
    let resp = "{\"status\":\"success\",\"data\":{\"note\":\"line1\\nline2 \\\"quoted\\\" back\\\\slash\"}}";
    let out = process_api_response(Endpoint::NetworkSuccess, resp);
    assert_eq!(
        out,
        "Network logs:\n\n{\n  \"note\": \"line1\\nline2 \\\"quoted\\\" back\\\\slash\"\n}"
    );
}

#[test]
fn scores_outside_the_unit_interval_still_render() {
    let resp = "{\"status\":\"success\",\"data\":{\"score\":20,\"issues\":[]}}";
    let out = process_api_response(Endpoint::BestPracticesAudit, resp);
    assert!(out.contains("Overall Score: 2000%"));
    let resp = "{\"status\":\"success\",\"data\":{\"score\":-0.5,\"issues\":[]}}";
    let out = process_api_response(Endpoint::BestPracticesAudit, resp);
    assert!(out.contains("Overall Score: -50%"));
}

#[test]
fn exponent_form_scores_extract_nothing() {
    // a score the parser renders in exponent form carries no plain decimal
    // text, so no score line is extracted and the payload prints whole
    let resp = "{\"status\":\"success\",\"data\":{\"score\":1e-7}}";
    let out = process_api_response(Endpoint::AccessibilityAudit, resp);
    assert_eq!(out, "Accessibility Audit Results:\n\n{\n  \"score\": 1e-7\n}");
}

#[test]
fn null_data_field_defaults_to_null() {
    // an envelope without data renders null through the formatter
    let out = process_api_response(Endpoint::NetworkSuccess, "{\"status\":\"success\"}");
    assert_eq!(out, "Network logs:\n\nnull");
}

#[test]
fn nested_values_pretty_print_with_indentation() {
    let resp = "{\"status\":\"success\",\"data\":{\"a\":[1,2],\"b\":{\"c\":null}}}";
    let out = process_api_response(Endpoint::DebugMode, resp);
    assert_eq!(
        out,
        "Debugger Mode Results:\n\n{\n  \"a\": [\n    1,\n    2\n  ],\n  \"b\": {\n    \"c\": null\n  }\n}"
    );
}
