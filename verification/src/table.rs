//! The command table: the static mapping from a (command, argument) pair to
//! the endpoint, HTTP method and request payload, the argument suggestions
//! per command, and the per-pair display labels and failure hints.

use vstd::prelude::*;

use crate::json::Json;
use crate::json::JsonModel;
use crate::json::lemma_model_entries_index;
use crate::json::model;
use crate::json::model_entries;
use crate::json::spec_lookup;
use crate::text::i64_to_string;
use crate::text::spec_int_string;
use crate::text::str_eq;
use vstd::string::StringExecFns;

verus! {

broadcast use {vstd::seq::group_seq_axioms, vstd::std_specs::vec::group_vec_axioms, vstd::string::group_string_axioms};

/// The HTTP method of a request to the agent.
#[derive(Clone, Copy, PartialEq, Eq, Structural, Debug)]
pub enum Method {
    Get,
    Post,
}

/// One endpoint of the browser-automation agent.
#[derive(Clone, Copy, PartialEq, Eq, Structural, Debug)]
pub enum Endpoint {
    CaptureScreenshot,
    ConsoleLogs,
    ConsoleErrors,
    NetworkSuccess,
    NetworkErrors,
    WipeLogs,
    SelectedElement,
    AccessibilityAudit,
    PerformanceAudit,
    SeoAudit,
    BestPracticesAudit,
    NextjsAudit,
    AuditAll,
    DebugMode,
}

/// The path segment of an endpoint's URL.
pub open spec fn spec_endpoint_path(e: Endpoint) -> Seq<char> {
    match e {
        Endpoint::CaptureScreenshot => "capture-screenshot"@,
        Endpoint::ConsoleLogs => "console-logs"@,
        Endpoint::ConsoleErrors => "console-errors"@,
        Endpoint::NetworkSuccess => "network-success"@,
        Endpoint::NetworkErrors => "network-errors"@,
        Endpoint::WipeLogs => "wipelogs"@,
        Endpoint::SelectedElement => "selected-element"@,
        Endpoint::AccessibilityAudit => "accessibility-audit"@,
        Endpoint::PerformanceAudit => "performance-audit"@,
        Endpoint::SeoAudit => "seo-audit"@,
        Endpoint::BestPracticesAudit => "best-practices-audit"@,
        Endpoint::NextjsAudit => "nextjs-audit"@,
        Endpoint::AuditAll => "audit-all"@,
        Endpoint::DebugMode => "debug-mode"@,
    }
}

/// The path segment of an endpoint's URL.
pub fn endpoint_path(e: Endpoint) -> (r: &'static str)
    ensures
        r@ == spec_endpoint_path(e),
{
    match e {
        Endpoint::CaptureScreenshot => "capture-screenshot",
        Endpoint::ConsoleLogs => "console-logs",
        Endpoint::ConsoleErrors => "console-errors",
        Endpoint::NetworkSuccess => "network-success",
        Endpoint::NetworkErrors => "network-errors",
        Endpoint::WipeLogs => "wipelogs",
        Endpoint::SelectedElement => "selected-element",
        Endpoint::AccessibilityAudit => "accessibility-audit",
        Endpoint::PerformanceAudit => "performance-audit",
        Endpoint::SeoAudit => "seo-audit",
        Endpoint::BestPracticesAudit => "best-practices-audit",
        Endpoint::NextjsAudit => "nextjs-audit",
        Endpoint::AuditAll => "audit-all",
        Endpoint::DebugMode => "debug-mode",
    }
}

/// An empty request payload.
pub open spec fn spec_empty_obj() -> JsonModel {
    JsonModel::Obj(Seq::empty())
}

/// The payload of a category-tagged audit request: the category, a fixed
/// source identifier, and the clock reading it was built with.
pub open spec fn spec_audit_payload(category: Seq<char>, ts: int) -> JsonModel {
    JsonModel::Obj(
        seq![
            ("category"@, JsonModel::Str(category)),
            ("source"@, JsonModel::Str("zed_extension"@)),
            ("timestamp"@, JsonModel::Num(spec_int_string(ts))),
        ],
    )
}

/// The payload of an audit or debug request without a category: the fixed
/// source identifier and the clock reading it was built with.
pub open spec fn spec_timed_payload(ts: int) -> JsonModel {
    JsonModel::Obj(
        seq![
            ("source"@, JsonModel::Str("zed_extension"@)),
            ("timestamp"@, JsonModel::Num(spec_int_string(ts))),
        ],
    )
}

/// The whole command table: what a (command, argument) pair resolves to,
/// given the clock reading for the timestamped payloads; None outside the
/// table.
pub open spec fn spec_resolve(c: Seq<char>, a: Seq<char>, ts: int) -> Option<
    (Endpoint, Method, JsonModel),
> {
    if c == "browser-capture"@ {
        if a == "screenshot"@ {
            Some((Endpoint::CaptureScreenshot, Method::Post, spec_empty_obj()))
        } else if a == "logs"@ {
            Some((Endpoint::ConsoleLogs, Method::Get, spec_empty_obj()))
        } else if a == "errors"@ {
            Some((Endpoint::ConsoleErrors, Method::Get, spec_empty_obj()))
        } else if a == "network"@ {
            Some((Endpoint::NetworkSuccess, Method::Get, spec_empty_obj()))
        } else if a == "network-errors"@ {
            Some((Endpoint::NetworkErrors, Method::Get, spec_empty_obj()))
        } else if a == "clear"@ {
            Some((Endpoint::WipeLogs, Method::Post, spec_empty_obj()))
        } else if a == "element"@ {
            Some((Endpoint::SelectedElement, Method::Get, spec_empty_obj()))
        } else {
            None
        }
    } else if c == "browser-audit"@ {
        if a == "accessibility"@ {
            Some(
                (
                    Endpoint::AccessibilityAudit,
                    Method::Post,
                    spec_audit_payload("accessibility"@, ts),
                ),
            )
        } else if a == "performance"@ {
            Some((Endpoint::PerformanceAudit, Method::Post, spec_audit_payload("performance"@, ts)))
        } else if a == "seo"@ {
            Some((Endpoint::SeoAudit, Method::Post, spec_audit_payload("seo"@, ts)))
        } else if a == "best-practices"@ {
            Some(
                (
                    Endpoint::BestPracticesAudit,
                    Method::Post,
                    spec_audit_payload("best-practices"@, ts),
                ),
            )
        } else if a == "nextjs"@ {
            Some((Endpoint::NextjsAudit, Method::Post, spec_timed_payload(ts)))
        } else if a == "all"@ {
            Some((Endpoint::AuditAll, Method::Post, spec_timed_payload(ts)))
        } else {
            None
        }
    } else if c == "browser-debug"@ {
        if a == "start"@ {
            Some((Endpoint::DebugMode, Method::Post, spec_timed_payload(ts)))
        } else {
            None
        }
    } else {
        None
    }
}

/// Whether a (command, argument) pair stands in the command table.
pub open spec fn spec_known_pair(c: Seq<char>, a: Seq<char>) -> bool {
    spec_resolve(c, a, 0) is Some
}

/// A resolved request: where it goes, how, and with which payload.
#[derive(Debug)]
pub struct ApiParams {
    pub endpoint: Endpoint,
    pub method: Method,
    pub payload: Json,
}

fn empty_payload() -> (r: Json)
    ensures
        model(r) == spec_empty_obj(),
{
    let v: Vec<(String, Json)> = Vec::new();
    Json::Obj(v)
}

fn audit_payload(category: &str, ts: i64) -> (r: Json)
    ensures
        model(r) == spec_audit_payload(category@, ts as int),
{
    let mut v: Vec<(String, Json)> = Vec::new();
    v.push((String::from_str("category"), Json::Str(category.to_owned())));
    proof {
        assert(v@[0].0@ == "category"@ && model(v@[0].1) == JsonModel::Str(category@));
    }
    v.push((String::from_str("source"), Json::Str(String::from_str("zed_extension"))));
    proof {
        assert(v@[0].0@ == "category"@ && model(v@[0].1) == JsonModel::Str(category@));
        assert(v@[1].0@ == "source"@ && model(v@[1].1) == JsonModel::Str("zed_extension"@));
    }
    v.push((String::from_str("timestamp"), Json::Num(i64_to_string(ts))));
    proof {
        assert(v@[0].0@ == "category"@ && model(v@[0].1) == JsonModel::Str(category@));
        assert(v@[1].0@ == "source"@ && model(v@[1].1) == JsonModel::Str("zed_extension"@));
        assert(v@[2].0@ == "timestamp"@ && model(v@[2].1) == JsonModel::Num(
            spec_int_string(ts as int),
        ));
    }
    let ghost gv = v@;
    let r = Json::Obj(v);
    proof {
        lemma_model_entries_index(gv);
        assert(model_entries(gv).len() == 3);
        assert(model_entries(gv)[0] == ("category"@, JsonModel::Str(category@)));
        assert(model_entries(gv)[1] == ("source"@, JsonModel::Str("zed_extension"@)));
        assert(model_entries(gv)[2] == ("timestamp"@, JsonModel::Num(spec_int_string(ts as int))));
        assert(model_entries(gv) =~= spec_audit_payload(category@, ts as int)->Obj_0);
    }
    r
}

fn timed_payload(ts: i64) -> (r: Json)
    ensures
        model(r) == spec_timed_payload(ts as int),
{
    let mut v: Vec<(String, Json)> = Vec::new();
    v.push((String::from_str("source"), Json::Str(String::from_str("zed_extension"))));
    proof {
        assert(v@[0].0@ == "source"@ && model(v@[0].1) == JsonModel::Str("zed_extension"@));
    }
    v.push((String::from_str("timestamp"), Json::Num(i64_to_string(ts))));
    proof {
        assert(v@[0].0@ == "source"@ && model(v@[0].1) == JsonModel::Str("zed_extension"@));
        assert(v@[1].0@ == "timestamp"@ && model(v@[1].1) == JsonModel::Num(
            spec_int_string(ts as int),
        ));
    }
    let ghost gv = v@;
    let r = Json::Obj(v);
    proof {
        lemma_model_entries_index(gv);
        assert(model_entries(gv).len() == 2);
        assert(model_entries(gv)[0] == ("source"@, JsonModel::Str("zed_extension"@)));
        assert(model_entries(gv)[1] == ("timestamp"@, JsonModel::Num(spec_int_string(ts as int))));
        assert(model_entries(gv) =~= spec_timed_payload(ts as int)->Obj_0);
    }
    r
}

/// Resolves a (command, argument) pair to its endpoint, method and payload,
/// stamping the payloads that carry a clock reading with the one given;
/// pairs outside the table are rejected with the precise error text, and
/// exactly the pairs in the table are accepted.
pub fn get_api_params(command_name: &str, arg: &str, timestamp: i64) -> (r: Result<
    ApiParams,
    String,
>)
    ensures
        (match r {
            Ok(p) => spec_resolve(command_name@, arg@, timestamp as int) == Some(
                (p.endpoint, p.method, model(p.payload)),
            ),
            Err(e) => spec_resolve(command_name@, arg@, timestamp as int) is None && e@
                == "Unknown command or argument: "@ + command_name@ + " "@ + arg@,
        }),
        r is Ok <==> spec_known_pair(command_name@, arg@),
{
    if str_eq(command_name, "browser-capture") {
        if str_eq(arg, "screenshot") {
            return Ok(
                ApiParams {
                    endpoint: Endpoint::CaptureScreenshot,
                    method: Method::Post,
                    payload: empty_payload(),
                },
            );
        } else if str_eq(arg, "logs") {
            return Ok(
                ApiParams {
                    endpoint: Endpoint::ConsoleLogs,
                    method: Method::Get,
                    payload: empty_payload(),
                },
            );
        } else if str_eq(arg, "errors") {
            return Ok(
                ApiParams {
                    endpoint: Endpoint::ConsoleErrors,
                    method: Method::Get,
                    payload: empty_payload(),
                },
            );
        } else if str_eq(arg, "network") {
            return Ok(
                ApiParams {
                    endpoint: Endpoint::NetworkSuccess,
                    method: Method::Get,
                    payload: empty_payload(),
                },
            );
        } else if str_eq(arg, "network-errors") {
            return Ok(
                ApiParams {
                    endpoint: Endpoint::NetworkErrors,
                    method: Method::Get,
                    payload: empty_payload(),
                },
            );
        } else if str_eq(arg, "clear") {
            return Ok(
                ApiParams {
                    endpoint: Endpoint::WipeLogs,
                    method: Method::Post,
                    payload: empty_payload(),
                },
            );
        } else if str_eq(arg, "element") {
            return Ok(
                ApiParams {
                    endpoint: Endpoint::SelectedElement,
                    method: Method::Get,
                    payload: empty_payload(),
                },
            );
        }
    } else if str_eq(command_name, "browser-audit") {
        if str_eq(arg, "accessibility") {
            return Ok(
                ApiParams {
                    endpoint: Endpoint::AccessibilityAudit,
                    method: Method::Post,
                    payload: audit_payload("accessibility", timestamp),
                },
            );
        } else if str_eq(arg, "performance") {
            return Ok(
                ApiParams {
                    endpoint: Endpoint::PerformanceAudit,
                    method: Method::Post,
                    payload: audit_payload("performance", timestamp),
                },
            );
        } else if str_eq(arg, "seo") {
            return Ok(
                ApiParams {
                    endpoint: Endpoint::SeoAudit,
                    method: Method::Post,
                    payload: audit_payload("seo", timestamp),
                },
            );
        } else if str_eq(arg, "best-practices") {
            return Ok(
                ApiParams {
                    endpoint: Endpoint::BestPracticesAudit,
                    method: Method::Post,
                    payload: audit_payload("best-practices", timestamp),
                },
            );
        } else if str_eq(arg, "nextjs") {
            return Ok(
                ApiParams {
                    endpoint: Endpoint::NextjsAudit,
                    method: Method::Post,
                    payload: timed_payload(timestamp),
                },
            );
        } else if str_eq(arg, "all") {
            return Ok(
                ApiParams {
                    endpoint: Endpoint::AuditAll,
                    method: Method::Post,
                    payload: timed_payload(timestamp),
                },
            );
        }
    } else if str_eq(command_name, "browser-debug") {
        if str_eq(arg, "start") {
            return Ok(
                ApiParams {
                    endpoint: Endpoint::DebugMode,
                    method: Method::Post,
                    payload: timed_payload(timestamp),
                },
            );
        }
    }
    let mut e = String::from_str("Unknown command or argument: ");
    e.append(command_name);
    e.append(" ");
    e.append(arg);
    proof {
        assert(e@ =~= "Unknown command or argument: "@ + command_name@ + " "@ + arg@);
    }
    Err(e)
}

/// The display title of the section a command's output is shown under.
pub open spec fn spec_section_label(c: Seq<char>, a: Seq<char>) -> Seq<char> {
    if c == "browser-capture"@ {
        if a == "screenshot"@ {
            "Browser Screenshot"@
        } else if a == "logs"@ {
            "Browser Console Logs"@
        } else if a == "errors"@ {
            "Browser Console Errors"@
        } else if a == "network"@ {
            "Browser Network Logs"@
        } else if a == "network-errors"@ {
            "Browser Network Errors"@
        } else if a == "clear"@ {
            "Clear Logs"@
        } else if a == "element"@ {
            "DOM Element"@
        } else {
            "Browser Tools"@
        }
    } else if c == "browser-audit"@ {
        if a == "accessibility"@ {
            "Accessibility Audit"@
        } else if a == "performance"@ {
            "Performance Audit"@
        } else if a == "seo"@ {
            "SEO Audit"@
        } else if a == "best-practices"@ {
            "Best Practices Audit"@
        } else if a == "nextjs"@ {
            "NextJS Audit"@
        } else if a == "all"@ {
            "All Audits"@
        } else {
            "Browser Tools"@
        }
    } else if c == "browser-debug"@ && a == "start"@ {
        "Debugger Mode"@
    } else {
        "Browser Tools"@
    }
}

/// The display title of the section a command's output is shown under.
pub fn get_section_label(command_name: &str, arg: &str) -> (r: &'static str)
    ensures
        r@ == spec_section_label(command_name@, arg@),
{
    if str_eq(command_name, "browser-capture") {
        if str_eq(arg, "screenshot") {
            "Browser Screenshot"
        } else if str_eq(arg, "logs") {
            "Browser Console Logs"
        } else if str_eq(arg, "errors") {
            "Browser Console Errors"
        } else if str_eq(arg, "network") {
            "Browser Network Logs"
        } else if str_eq(arg, "network-errors") {
            "Browser Network Errors"
        } else if str_eq(arg, "clear") {
            "Clear Logs"
        } else if str_eq(arg, "element") {
            "DOM Element"
        } else {
            "Browser Tools"
        }
    } else if str_eq(command_name, "browser-audit") {
        if str_eq(arg, "accessibility") {
            "Accessibility Audit"
        } else if str_eq(arg, "performance") {
            "Performance Audit"
        } else if str_eq(arg, "seo") {
            "SEO Audit"
        } else if str_eq(arg, "best-practices") {
            "Best Practices Audit"
        } else if str_eq(arg, "nextjs") {
            "NextJS Audit"
        } else if str_eq(arg, "all") {
            "All Audits"
        } else {
            "Browser Tools"
        }
    } else if str_eq(command_name, "browser-debug") {
        if str_eq(arg, "start") {
            "Debugger Mode"
        } else {
            "Browser Tools"
        }
    } else {
        "Browser Tools"
    }
}

/// The remediation hint shown when the request for a pair fails.
pub open spec fn spec_error_message(c: Seq<char>, a: Seq<char>) -> Seq<char> {
    if c == "browser-capture"@ {
        if a == "screenshot"@ {
            "Failed to capture screenshot. Make sure BrowserTools extension is running in Chrome."@
        } else if a == "logs"@ {
            "Failed to retrieve console logs. Make sure BrowserTools extension is running in Chrome."@
        } else if a == "errors"@ {
            "Failed to retrieve console errors. Make sure BrowserTools extension is running in Chrome."@
        } else if a == "network"@ {
            "Failed to retrieve network logs. Make sure BrowserTools extension is running in Chrome."@
        } else if a == "network-errors"@ {
            "Failed to retrieve network errors. Make sure BrowserTools extension is running in Chrome."@
        } else if a == "clear"@ {
            "Failed to clear logs. Make sure BrowserTools extension is running in Chrome."@
        } else if a == "element"@ {
            "Failed to get DOM element. Make sure BrowserTools extension is running in Chrome."@
        } else {
            "Unknown command"@
        }
    } else if c == "browser-audit"@ {
        "Failed to run audit. Make sure BrowserTools extension is running in Chrome."@
    } else if c == "browser-debug"@ {
        "Failed to start debugger. Make sure BrowserTools extension is running in Chrome."@
    } else {
        "Unknown command"@
    }
}

/// The remediation hint shown when the request for a pair fails.
pub fn get_error_message(command_name: &str, arg: &str) -> (r: String)
    ensures
        r@ == spec_error_message(command_name@, arg@),
{
    if str_eq(command_name, "browser-capture") {
        if str_eq(arg, "screenshot") {
            String::from_str(
                "Failed to capture screenshot. Make sure BrowserTools extension is running in Chrome.",
            )
        } else if str_eq(arg, "logs") {
            String::from_str(
                "Failed to retrieve console logs. Make sure BrowserTools extension is running in Chrome.",
            )
        } else if str_eq(arg, "errors") {
            String::from_str(
                "Failed to retrieve console errors. Make sure BrowserTools extension is running in Chrome.",
            )
        } else if str_eq(arg, "network") {
            String::from_str(
                "Failed to retrieve network logs. Make sure BrowserTools extension is running in Chrome.",
            )
        } else if str_eq(arg, "network-errors") {
            String::from_str(
                "Failed to retrieve network errors. Make sure BrowserTools extension is running in Chrome.",
            )
        } else if str_eq(arg, "clear") {
            String::from_str(
                "Failed to clear logs. Make sure BrowserTools extension is running in Chrome.",
            )
        } else if str_eq(arg, "element") {
            String::from_str(
                "Failed to get DOM element. Make sure BrowserTools extension is running in Chrome.",
            )
        } else {
            String::from_str("Unknown command")
        }
    } else if str_eq(command_name, "browser-audit") {
        String::from_str("Failed to run audit. Make sure BrowserTools extension is running in Chrome.")
    } else if str_eq(command_name, "browser-debug") {
        String::from_str(
            "Failed to start debugger. Make sure BrowserTools extension is running in Chrome.",
        )
    } else {
        String::from_str("Unknown command")
    }
}

/// One argument suggestion: a display label, the text inserted, and
/// whether picking it runs the command at once.
#[derive(Debug)]
pub struct Completion {
    pub label: String,
    pub new_text: String,
    pub run_command: bool,
}

/// The visible content of a list of suggestions.
pub open spec fn comp_view(v: Seq<Completion>) -> Seq<(Seq<char>, Seq<char>, bool)> {
    Seq::new(v.len(), |i: int| (v[i].label@, v[i].new_text@, v[i].run_command))
}

/// The static argument suggestions of each command; None for a command
/// outside the table.
pub open spec fn spec_completions(c: Seq<char>) -> Option<Seq<(Seq<char>, Seq<char>, bool)>> {
    if c == "browser-capture"@ {
        Some(
            seq![
                ("Screenshot"@, "screenshot"@, true),
                ("Console Logs"@, "logs"@, true),
                ("Console Errors"@, "errors"@, true),
                ("Network Logs"@, "network"@, true),
                ("Network Errors"@, "network-errors"@, true),
                ("Clear Logs"@, "clear"@, true),
                ("DOM Element"@, "element"@, true),
            ],
        )
    } else if c == "browser-audit"@ {
        Some(
            seq![
                ("Accessibility"@, "accessibility"@, true),
                ("Performance"@, "performance"@, true),
                ("SEO"@, "seo"@, true),
                ("Best Practices"@, "best-practices"@, true),
                ("NextJS"@, "nextjs"@, true),
                ("Run All Audits"@, "all"@, true),
            ],
        )
    } else if c == "browser-debug"@ {
        Some(seq![("Start Debugger Mode"@, "start"@, true)])
    } else {
        None
    }
}

/// Builds one suggestion that runs its command when picked.
pub fn create_completion(label: &str, command: &str) -> (r: Completion)
    ensures
        r.label@ == label@,
        r.new_text@ == command@,
        r.run_command == true,
{
    Completion { label: label.to_owned(), new_text: command.to_owned(), run_command: true }
}

/// The argument suggestions of a command: the static list per command in
/// the table, and the precise error text outside it.
pub fn completions(command_name: &str) -> (r: Result<Vec<Completion>, String>)
    ensures
        (match r {
            Ok(v) => spec_completions(command_name@) == Some(comp_view(v@)),
            Err(e) => spec_completions(command_name@) is None && e@
                == "unknown slash command: \""@ + command_name@ + "\""@,
        }),
{
    if str_eq(command_name, "browser-capture") {
        let mut v: Vec<Completion> = Vec::new();
        v.push(create_completion("Screenshot", "screenshot"));
        v.push(create_completion("Console Logs", "logs"));
        v.push(create_completion("Console Errors", "errors"));
        v.push(create_completion("Network Logs", "network"));
        v.push(create_completion("Network Errors", "network-errors"));
        v.push(create_completion("Clear Logs", "clear"));
        v.push(create_completion("DOM Element", "element"));
        proof {
            assert(comp_view(v@) =~= spec_completions(command_name@)->Some_0);
        }
        Ok(v)
    } else if str_eq(command_name, "browser-audit") {
        let mut v: Vec<Completion> = Vec::new();
        v.push(create_completion("Accessibility", "accessibility"));
        v.push(create_completion("Performance", "performance"));
        v.push(create_completion("SEO", "seo"));
        v.push(create_completion("Best Practices", "best-practices"));
        v.push(create_completion("NextJS", "nextjs"));
        v.push(create_completion("Run All Audits", "all"));
        proof {
            assert(comp_view(v@) =~= spec_completions(command_name@)->Some_0);
        }
        Ok(v)
    } else if str_eq(command_name, "browser-debug") {
        let mut v: Vec<Completion> = Vec::new();
        v.push(create_completion("Start Debugger Mode", "start"));
        proof {
            assert(comp_view(v@) =~= spec_completions(command_name@)->Some_0);
        }
        Ok(v)
    } else {
        let mut e = String::from_str("unknown slash command: \"");
        e.append(command_name);
        e.append("\"");
        proof {
            assert(e@ =~= "unknown slash command: \""@ + command_name@ + "\""@);
        }
        Err(e)
    }
}

/// The text of the timestamp field of a payload, if the payload is an
/// object with a numeric timestamp field.
pub open spec fn payload_timestamp(p: JsonModel) -> Option<Seq<char>> {
    match p {
        JsonModel::Obj(entries) => match spec_lookup(entries, "timestamp"@) {
            Some(JsonModel::Num(t)) => Some(t),
            _ => None,
        },
        _ => None,
    }
}

/// Whether a pair is one whose payload carries a clock reading: the audit
/// and debug commands.
pub open spec fn spec_timed_pair(c: Seq<char>, a: Seq<char>) -> bool {
    spec_known_pair(c, a) && (c == "browser-audit"@ || c == "browser-debug"@)
}

proof fn lemma_audit_payload_timestamp(category: Seq<char>, ts: int)
    ensures
        payload_timestamp(spec_audit_payload(category, ts)) == Some(spec_int_string(ts)),
{
    reveal_strlit("category");
    reveal_strlit("source");
    reveal_strlit("timestamp");
    reveal_with_fuel(spec_lookup, 5);
    let entries = spec_audit_payload(category, ts)->Obj_0;
    let e2 = entries.drop_first();
    let e3 = e2.drop_first();
    assert(e3 =~= seq![("timestamp"@, JsonModel::Num(spec_int_string(ts)))]);
    assert(entries.first().0 == "category"@);
    assert("category"@ != "timestamp"@);
    assert(spec_lookup(entries, "timestamp"@) == spec_lookup(e2, "timestamp"@));
    assert(e2.first().0 == "source"@);
    assert("source"@ != "timestamp"@);
    assert(spec_lookup(e2, "timestamp"@) == spec_lookup(e3, "timestamp"@));
    assert(e3.first().0 == "timestamp"@);
    assert(spec_lookup(e3, "timestamp"@) == Some(e3.first().1));
    assert(spec_lookup(entries, "timestamp"@) == Some(JsonModel::Num(spec_int_string(ts))));
}

proof fn lemma_timed_payload_timestamp(ts: int)
    ensures
        payload_timestamp(spec_timed_payload(ts)) == Some(spec_int_string(ts)),
{
    reveal_strlit("source");
    reveal_strlit("timestamp");
    reveal_with_fuel(spec_lookup, 5);
    let entries = spec_timed_payload(ts)->Obj_0;
    let e2 = entries.drop_first();
    assert(e2 =~= seq![("timestamp"@, JsonModel::Num(spec_int_string(ts)))]);
    assert(entries.len() == 2);
    assert(entries.first().0 == "source"@);
    assert("source"@ != "timestamp"@);
    assert(spec_lookup(entries, "timestamp"@) == spec_lookup(e2, "timestamp"@));
    assert(e2.first().0 == "timestamp"@);
    assert(spec_lookup(e2, "timestamp"@) == Some(e2.first().1));
    assert(spec_lookup(entries, "timestamp"@) == Some(JsonModel::Num(spec_int_string(ts))));
}

/// Law: every audit and debug payload carries a timestamp field holding
/// exactly the clock reading it was built with, so two payloads built from
/// clock readings that do not decrease carry timestamps whose numeric
/// values do not decrease either.
pub proof fn lemma_payload_timestamps(
    c1: Seq<char>,
    a1: Seq<char>,
    ts1: int,
    c2: Seq<char>,
    a2: Seq<char>,
    ts2: int,
)
    requires
        spec_timed_pair(c1, a1),
        spec_timed_pair(c2, a2),
        0 <= ts1 <= ts2,
    ensures
        payload_timestamp(spec_resolve(c1, a1, ts1)->Some_0.2) == Some(spec_int_string(ts1)),
        payload_timestamp(spec_resolve(c2, a2, ts2)->Some_0.2) == Some(spec_int_string(ts2)),
        crate::number::spec_digits_val(spec_int_string(ts1)) <= crate::number::spec_digits_val(
            spec_int_string(ts2),
        ),
{
    lemma_timed_pair_timestamp(c1, a1, ts1);
    lemma_timed_pair_timestamp(c2, a2, ts2);
    lemma_int_string_value(ts1);
    lemma_int_string_value(ts2);
}

proof fn lemma_timed_pair_timestamp(c: Seq<char>, a: Seq<char>, ts: int)
    requires
        spec_timed_pair(c, a),
    ensures
        payload_timestamp(spec_resolve(c, a, ts)->Some_0.2) == Some(spec_int_string(ts)),
{
    reveal_strlit("browser-capture");
    reveal_strlit("browser-audit");
    reveal_strlit("browser-debug");
    assert("browser-capture"@.len() == 15);
    assert("browser-audit"@.len() == 13);
    assert("browser-debug"@.len() == 13);
    assert("browser-audit"@ != "browser-debug"@) by {
        assert("browser-audit"@[8] == 'a');
        assert("browser-debug"@[8] == 'd');
    }
    if c == "browser-audit"@ {
        if a == "accessibility"@ {
            lemma_audit_payload_timestamp("accessibility"@, ts);
        } else if a == "performance"@ {
            lemma_audit_payload_timestamp("performance"@, ts);
        } else if a == "seo"@ {
            lemma_audit_payload_timestamp("seo"@, ts);
        } else if a == "best-practices"@ {
            lemma_audit_payload_timestamp("best-practices"@, ts);
        } else {
            lemma_timed_payload_timestamp(ts);
        }
    } else {
        lemma_timed_payload_timestamp(ts);
    }
}

/// A non-negative integer reads back from its decimal rendering.
pub proof fn lemma_int_string_value(n: int)
    requires
        n >= 0,
    ensures
        crate::number::spec_digits_val(spec_int_string(n)) == n,
{
    if n == 0 {
        reveal_with_fuel(crate::number::spec_digits_val, 3);
        assert(seq!['0'].drop_last() =~= Seq::<char>::empty());
        assert(crate::number::spec_digits_val(seq!['0']) == 0);
    } else {
        lemma_digits_value(n);
    }
}

proof fn lemma_digits_value(n: int)
    requires
        n >= 0,
    ensures
        crate::number::spec_digits_val(crate::text::spec_digits(n)) == n,
    decreases n,
{
    if n > 0 {
        lemma_digits_value(n / 10);
        let s = crate::text::spec_digits(n);
        assert(s.drop_last() =~= crate::text::spec_digits(n / 10));
        assert(crate::number::digit_val(crate::text::digit_char(n % 10)) == n % 10);
    }
}

} // verus!
