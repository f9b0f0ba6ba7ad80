//! The response normalizer: parses the agent's reply as far as it can and
//! renders endpoint-specific text, degrading from the expected envelope,
//! through arbitrary JSON, down to the raw text — it never fails.

use vstd::prelude::*;

use crate::json::Json;
use crate::json::JsonModel;
use crate::json::JsonParsed;
use crate::json::json_parse;
use crate::json::lemma_model_seq_index;
use crate::json::model;
use crate::json::model_seq;
use crate::json::parse_json;
use crate::json::spec_lookup;
use crate::json::spec_pretty;
use crate::json::spec_str_field;
use crate::json::str_field;
use crate::json::lookup;
use crate::json::write_pretty;
use crate::number::percent_of;
use crate::number::spec_percent;
use crate::table::Endpoint;
use crate::text::push_char;
use crate::text::spec_int_string;
use crate::text::str_eq;
use crate::text::to_upper;
use crate::text::u64_to_string;
use crate::text::upper_of;
use vstd::string::StringExecFns;

verus! {

broadcast use {vstd::seq::group_seq_axioms, vstd::std_specs::vec::group_vec_axioms};

/// The display name of an audit endpoint.
pub open spec fn spec_audit_type(e: Endpoint) -> Seq<char> {
    match e {
        Endpoint::AccessibilityAudit => "Accessibility"@,
        Endpoint::PerformanceAudit => "Performance"@,
        Endpoint::SeoAudit => "SEO"@,
        Endpoint::BestPracticesAudit => "Best Practices"@,
        Endpoint::NextjsAudit => "NextJS"@,
        _ => "Unknown"@,
    }
}

/// One console log line: the level in upper case between brackets, then the
/// message; level falls back to "info", message to empty.
pub open spec fn spec_log_line(item: JsonModel) -> Seq<char> {
    let level = match spec_str_field(item, "level"@) {
        Some(l) => l,
        None => "info"@,
    };
    let message = match spec_str_field(item, "message"@) {
        Some(m) => m,
        None => Seq::empty(),
    };
    seq!['['] + upper_of(level) + seq![']', ' '] + message
}

/// All console log lines, one per entry, joined by newlines.
pub open spec fn spec_log_lines(items: Seq<JsonModel>) -> Seq<char>
    decreases items,
{
    if items.len() == 0 {
        Seq::empty()
    } else if items.len() == 1 {
        spec_log_line(items[0])
    } else {
        spec_log_lines(items.drop_last()) + seq!['\n'] + spec_log_line(items.last())
    }
}

/// The console logs rendering: the explicit empty line for an empty
/// sequence, the joined lines under their header otherwise, and a labeled
/// pretty-print for a payload that is no sequence.
pub open spec fn spec_format_console_logs(m: JsonModel) -> Seq<char> {
    match m {
        JsonModel::Arr(items) => if items.len() == 0 {
            "No console logs found."@
        } else {
            "Console Logs:\n\n"@ + spec_log_lines(items)
        },
        _ => "Console logs: "@ + spec_pretty(m, 0),
    }
}

/// The screenshot rendering: a fixed success line when the payload carries
/// a message, a labeled pretty-print otherwise.
pub open spec fn spec_format_screenshot(m: JsonModel) -> Seq<char> {
    if spec_str_field(m, "message"@) is Some {
        "Successfully saved screenshot"@
    } else {
        "Screenshot captured: "@ + spec_pretty(m, 0)
    }
}

/// The wipe rendering: the payload's message verbatim when it carries one,
/// a fixed success sentence otherwise.
pub open spec fn spec_format_wipe(m: JsonModel) -> Seq<char> {
    match spec_str_field(m, "message"@) {
        Some(msg) => msg,
        None => "Browser logs cleared successfully."@,
    }
}

/// The selected-element rendering: tag, then id, class list and inner text
/// when nonempty, then the HTML block when present; or the fixed sentence
/// when no element is in the payload.
pub open spec fn spec_format_element(m: JsonModel) -> Seq<char> {
    match m {
        JsonModel::Obj(entries) => match spec_lookup(entries, "element"@) {
            Some(el) => {
                let tag = match spec_str_field(el, "tagName"@) {
                    Some(t) => t,
                    None => "unknown"@,
                };
                let id = match spec_str_field(el, "id"@) {
                    Some(t) => t,
                    None => Seq::empty(),
                };
                let class = match spec_str_field(el, "className"@) {
                    Some(t) => t,
                    None => Seq::empty(),
                };
                let text = match spec_str_field(el, "innerText"@) {
                    Some(t) => t,
                    None => Seq::empty(),
                };
                "Selected DOM Element:\n- Tag: "@ + tag + (if id.len() > 0 {
                    "\n- ID: "@ + id
                } else {
                    Seq::empty()
                }) + (if class.len() > 0 {
                    "\n- Classes: "@ + class
                } else {
                    Seq::empty()
                }) + (if text.len() > 0 {
                    "\n- Text: "@ + text
                } else {
                    Seq::empty()
                }) + (match spec_str_field(el, "outerHTML"@) {
                    Some(html) => "\n\nHTML:\n"@ + html,
                    None => Seq::empty(),
                })
            },
            None => "No DOM element selected. Click on an element in the browser to select it."@,
        },
        _ => "No DOM element selected. Click on an element in the browser to select it."@,
    }
}

/// The score line of an audit, when the payload carries a numeric score in
/// plain decimal form; empty otherwise.
pub open spec fn spec_score_part(m: JsonModel) -> Seq<char> {
    match m {
        JsonModel::Obj(entries) => match spec_lookup(entries, "score"@) {
            Some(JsonModel::Num(t)) => match spec_percent(t) {
                Some(p) => "Overall Score: "@ + spec_int_string(p) + "%\n"@,
                None => Seq::empty(),
            },
            _ => Seq::empty(),
        },
        _ => Seq::empty(),
    }
}

/// One numbered issue: its title on a line of its own, then its description
/// indented when nonempty.
pub open spec fn spec_issue_line(i: int, issue: JsonModel) -> Seq<char> {
    let title = match spec_str_field(issue, "title"@) {
        Some(t) => t,
        None => "Unknown issue"@,
    };
    let descr = match spec_str_field(issue, "description"@) {
        Some(t) => t,
        None => Seq::empty(),
    };
    seq!['\n'] + spec_int_string(i + 1) + ". "@ + title + seq!['\n'] + (if descr.len() > 0 {
        "   "@ + descr + seq!['\n']
    } else {
        Seq::empty()
    })
}

/// All numbered issues in order.
pub open spec fn spec_issue_lines(issues: Seq<JsonModel>) -> Seq<char>
    decreases issues,
{
    if issues.len() == 0 {
        Seq::empty()
    } else {
        spec_issue_lines(issues.drop_last()) + spec_issue_line(
            issues.len() - 1,
            issues.last(),
        )
    }
}

/// The issues part of an audit: the explicit no-issues line for an empty
/// sequence, the numbered list under its header otherwise, empty when the
/// payload carries no issues sequence.
pub open spec fn spec_issues_part(m: JsonModel) -> Seq<char> {
    match m {
        JsonModel::Obj(entries) => match spec_lookup(entries, "issues"@) {
            Some(JsonModel::Arr(issues)) => if issues.len() == 0 {
                "\nNo issues found!"@
            } else {
                "\nIssues Found:\n"@ + spec_issue_lines(issues)
            },
            _ => Seq::empty(),
        },
        _ => Seq::empty(),
    }
}

/// The audit rendering: score and issues under the audit's header when
/// either was extracted, the payload pretty-printed under the header
/// otherwise.
pub open spec fn spec_format_audit(e: Endpoint, m: JsonModel) -> Seq<char> {
    let score = spec_score_part(m);
    let issues = spec_issues_part(m);
    if score.len() > 0 || issues.len() > 0 {
        spec_audit_type(e) + " Audit Results:\n\n"@ + score + issues
    } else {
        spec_audit_type(e) + " Audit Results:\n\n"@ + spec_pretty(m, 0)
    }
}

/// The endpoint-specific rendering of a payload.
pub open spec fn spec_format(e: Endpoint, m: JsonModel) -> Seq<char> {
    match e {
        Endpoint::CaptureScreenshot => spec_format_screenshot(m),
        Endpoint::ConsoleLogs => spec_format_console_logs(m),
        Endpoint::ConsoleErrors => spec_format_console_logs(m),
        Endpoint::NetworkSuccess => "Network logs:\n\n"@ + spec_pretty(m, 0),
        Endpoint::NetworkErrors => "Network logs:\n\n"@ + spec_pretty(m, 0),
        Endpoint::WipeLogs => spec_format_wipe(m),
        Endpoint::SelectedElement => spec_format_element(m),
        Endpoint::AccessibilityAudit => spec_format_audit(e, m),
        Endpoint::PerformanceAudit => spec_format_audit(e, m),
        Endpoint::SeoAudit => spec_format_audit(e, m),
        Endpoint::BestPracticesAudit => spec_format_audit(e, m),
        Endpoint::NextjsAudit => spec_format_audit(e, m),
        Endpoint::AuditAll => "Audit Mode Results:\n\n"@ + spec_pretty(m, 0),
        Endpoint::DebugMode => "Debugger Mode Results:\n\n"@ + spec_pretty(m, 0),
    }
}

/// The envelope a reply is expected in: a JSON object whose status is a
/// string, whose message, when there is one, is a string (empty otherwise),
/// and whose data, when there is none, is null.
pub open spec fn spec_envelope(m: JsonModel) -> Option<(Seq<char>, JsonModel, Seq<char>)> {
    match m {
        JsonModel::Obj(entries) => match spec_lookup(entries, "status"@) {
            Some(JsonModel::Str(st)) => {
                let data = match spec_lookup(entries, "data"@) {
                    Some(d) => d,
                    None => JsonModel::Null,
                };
                match spec_lookup(entries, "message"@) {
                    Some(JsonModel::Str(msg)) => Some((st, data, msg)),
                    None => Some((st, data, Seq::empty())),
                    Some(_) => None,
                }
            },
            _ => None,
        },
        _ => None,
    }
}

/// What a parsed reply renders to: the envelope's data under its formatter
/// on success, the agent's error line on a failure status, and the whole
/// value under the formatter when it is no envelope.
pub open spec fn spec_normalize_parsed(e: Endpoint, m: JsonModel) -> Seq<char> {
    match spec_envelope(m) {
        Some((st, data, msg)) => if st == "success"@ {
            spec_format(e, data)
        } else {
            "Error from BrowserTools: "@ + msg
        },
        None => spec_format(e, m),
    }
}

/// What a raw reply normalizes to: through the envelope when the text
/// parses, and the raw text behind a parse note when it does not.
pub open spec fn spec_normalize(e: Endpoint, parsed: JsonParsed, raw: Seq<char>) -> Seq<char> {
    match parsed {
        JsonParsed::Value(m) => spec_normalize_parsed(e, m),
        JsonParsed::Error(err) => "Raw response from BrowserTools (parse error: "@ + err + "): "@
            + raw,
    }
}

fn audit_type(e: Endpoint) -> (r: &'static str)
    ensures
        r@ == spec_audit_type(e),
{
    match e {
        Endpoint::AccessibilityAudit => "Accessibility",
        Endpoint::PerformanceAudit => "Performance",
        Endpoint::SeoAudit => "SEO",
        Endpoint::BestPracticesAudit => "Best Practices",
        Endpoint::NextjsAudit => "NextJS",
        _ => "Unknown",
    }
}

/// Renders a console-log payload.
#[verifier::loop_isolation(false)]
pub fn format_console_logs(data: &Json) -> (r: String)
    ensures
        r@ == spec_format_console_logs(model(*data)),
{
    match data {
        Json::Arr(items) => {
            if items.len() == 0 {
                let r = String::from_str("No console logs found.");
                return r;
            }
            let ghost ms = model_seq(items@);
            proof {
                lemma_model_seq_index(items@);
            }
            let mut out = String::from_str("Console Logs:\n\n");
            let mut i: usize = 0;
            while i < items.len()
                invariant
                    i <= items.len(),
                    out@ =~= "Console Logs:\n\n"@ + spec_log_lines(ms.take(i as int)),
                decreases items.len() - i,
            {
                if i > 0 {
                    push_char(&mut out, '\n');
                }
                push_char(&mut out, '[');
                let upper = match str_field(&items[i], "level") {
                    Some(l) => to_upper(l.as_str()),
                    None => to_upper("info"),
                };
                out.append(upper.as_str());
                out.append("] ");
                match str_field(&items[i], "message") {
                    Some(m) => {
                        out.append(m.as_str());
                    },
                    None => {},
                }
                proof {
                    reveal_strlit("] ");
                    assert("] "@ =~= seq![']', ' ']);
                    assert(ms.take(i as int + 1).drop_last() =~= ms.take(i as int));
                    assert(ms.take(i as int + 1).last() == ms[i as int]);
                    assert(ms[i as int] == model(items@[i as int]));
                    assert(out@ =~= "Console Logs:\n\n"@ + spec_log_lines(ms.take(i as int + 1)));
                }
                i = i + 1;
            }
            proof {
                assert(ms.take(ms.len() as int) =~= ms);
            }
            out
        },
        _ => {
            let mut out = String::from_str("Console logs: ");
            write_pretty(data, 0, &mut out);
            out
        },
    }
}

/// Renders a screenshot payload.
pub fn format_screenshot(data: &Json) -> (r: String)
    ensures
        r@ == spec_format_screenshot(model(*data)),
{
    match str_field(data, "message") {
        Some(_) => String::from_str("Successfully saved screenshot"),
        None => {
            let mut out = String::from_str("Screenshot captured: ");
            write_pretty(data, 0, &mut out);
            out
        },
    }
}

/// Renders a wipe payload.
pub fn format_wipe(data: &Json) -> (r: String)
    ensures
        r@ == spec_format_wipe(model(*data)),
{
    match str_field(data, "message") {
        Some(msg) => msg.clone(),
        None => String::from_str("Browser logs cleared successfully."),
    }
}

/// Renders a selected-element payload.
#[verifier::rlimit(100)]
pub fn format_selected_element(data: &Json) -> (r: String)
    ensures
        r@ == spec_format_element(model(*data)),
{
    match data {
        Json::Obj(entries) => {
            match lookup(entries, "element") {
                Some(el) => {
                    let ghost em = model(*el);
                    let mut out = String::from_str("Selected DOM Element:\n- Tag: ");
                    let ghost part_tag = "Selected DOM Element:\n- Tag: "@ + (
                    match spec_str_field(em, "tagName"@) {
                        Some(t) => t,
                        None => "unknown"@,
                    });
                    match str_field(el, "tagName") {
                        Some(t) => {
                            out.append(t.as_str());
                        },
                        None => {
                            out.append("unknown");
                        },
                    }
                    proof {
                        assert(out@ =~= part_tag);
                    }
                    let ghost sid = match spec_str_field(em, "id"@) {
                        Some(t) => t,
                        None => Seq::empty(),
                    };
                    let ghost part_id = part_tag + (if sid.len() > 0 {
                        "\n- ID: "@ + sid
                    } else {
                        Seq::empty()
                    });
                    match str_field(el, "id") {
                        Some(t) => {
                            if !t.as_str().is_empty() {
                                out.append("\n- ID: ");
                                out.append(t.as_str());
                            }
                        },
                        None => {},
                    }
                    proof {
                        assert(out@ =~= part_id);
                    }
                    let ghost scl = match spec_str_field(em, "className"@) {
                        Some(t) => t,
                        None => Seq::empty(),
                    };
                    let ghost part_cl = part_id + (if scl.len() > 0 {
                        "\n- Classes: "@ + scl
                    } else {
                        Seq::empty()
                    });
                    match str_field(el, "className") {
                        Some(t) => {
                            if !t.as_str().is_empty() {
                                out.append("\n- Classes: ");
                                out.append(t.as_str());
                            }
                        },
                        None => {},
                    }
                    proof {
                        assert(out@ =~= part_cl);
                    }
                    let ghost stx = match spec_str_field(em, "innerText"@) {
                        Some(t) => t,
                        None => Seq::empty(),
                    };
                    let ghost part_tx = part_cl + (if stx.len() > 0 {
                        "\n- Text: "@ + stx
                    } else {
                        Seq::empty()
                    });
                    match str_field(el, "innerText") {
                        Some(t) => {
                            if !t.as_str().is_empty() {
                                out.append("\n- Text: ");
                                out.append(t.as_str());
                            }
                        },
                        None => {},
                    }
                    proof {
                        assert(out@ =~= part_tx);
                    }
                    let ghost part_html = part_tx + (match spec_str_field(em, "outerHTML"@) {
                        Some(html) => "\n\nHTML:\n"@ + html,
                        None => Seq::empty(),
                    });
                    match str_field(el, "outerHTML") {
                        Some(t) => {
                            out.append("\n\nHTML:\n");
                            out.append(t.as_str());
                        },
                        None => {},
                    }
                    proof {
                        assert(out@ =~= part_html);
                        assert(part_html =~= spec_format_element(model(*data)));
                    }
                    out
                },
                None => String::from_str(
                    "No DOM element selected. Click on an element in the browser to select it.",
                ),
            }
        },
        _ => String::from_str(
            "No DOM element selected. Click on an element in the browser to select it.",
        ),
    }
}

/// Renders an audit payload under its endpoint's header.
#[verifier::loop_isolation(false)]
#[verifier::rlimit(60)]
pub fn format_audit_response(e: Endpoint, data: &Json) -> (r: String)
    ensures
        r@ == spec_format_audit(e, model(*data)),
{
    let mut score = String::new();
    match data {
        Json::Obj(entries) => {
            match lookup(entries, "score") {
                Some(sj) => {
                    match sj {
                        Json::Num(t) => {
                            match percent_of(t.as_str()) {
                                Some(p) => {
                                    score.append("Overall Score: ");
                                    let ptext = crate::text::i64_to_string(p as i64);
                                    score.append(ptext.as_str());
                                    score.append("%\n");
                                },
                                None => {},
                            }
                        },
                        _ => {},
                    }
                },
                None => {},
            }
        },
        _ => {},
    }
    proof {
        assert(score@ =~= spec_score_part(model(*data)));
    }
    let mut issues = String::new();
    match data {
        Json::Obj(entries) => {
            match lookup(entries, "issues") {
                Some(ij) => {
                    match ij {
                        Json::Arr(list) => {
                            if list.len() == 0 {
                                issues.append("\nNo issues found!");
                            } else {
                                let ghost ms = model_seq(list@);
                                proof {
                                    lemma_model_seq_index(list@);
                                }
                                issues.append("\nIssues Found:\n");
                                let mut i: usize = 0;
                                while i < list.len()
                                    invariant
                                        i <= list.len(),
                                        issues@ =~= "\nIssues Found:\n"@ + spec_issue_lines(
                                            ms.take(i as int),
                                        ),
                                    decreases list.len() - i,
                                {
                                    push_char(&mut issues, '\n');
                                    let num = u64_to_string((i as u64) + 1);
                                    issues.append(num.as_str());
                                    issues.append(". ");
                                    match str_field(&list[i], "title") {
                                        Some(t) => {
                                            issues.append(t.as_str());
                                        },
                                        None => {
                                            issues.append("Unknown issue");
                                        },
                                    }
                                    push_char(&mut issues, '\n');
                                    match str_field(&list[i], "description") {
                                        Some(t) => {
                                            if !t.as_str().is_empty() {
                                                issues.append("   ");
                                                issues.append(t.as_str());
                                                push_char(&mut issues, '\n');
                                            }
                                        },
                                        None => {},
                                    }
                                    proof {
                                        assert(ms.take(i as int + 1).drop_last() =~= ms.take(
                                            i as int,
                                        ));
                                        assert(ms.take(i as int + 1).last() == ms[i as int]);
                                        assert(ms[i as int] == model(list@[i as int]));
                                        assert(issues@ =~= "\nIssues Found:\n"@ + spec_issue_lines(
                                            ms.take(i as int + 1),
                                        ));
                                    }
                                    i = i + 1;
                                }
                                proof {
                                    assert(ms.take(ms.len() as int) =~= ms);
                                }
                            }
                        },
                        _ => {},
                    }
                },
                None => {},
            }
        },
        _ => {},
    }
    proof {
        assert(issues@ =~= spec_issues_part(model(*data)));
    }
    let mut out = String::new();
    out.append(audit_type(e));
    out.append(" Audit Results:\n\n");
    if !score.as_str().is_empty() || !issues.as_str().is_empty() {
        out.append(score.as_str());
        out.append(issues.as_str());
        proof {
            assert(out@ =~= spec_format_audit(e, model(*data)));
        }
        out
    } else {
        write_pretty(data, 0, &mut out);
        proof {
            assert(out@ =~= spec_format_audit(e, model(*data)));
        }
        out
    }
}

/// Renders a payload for its endpoint.
pub fn format_browser_tools_response(e: Endpoint, data: &Json) -> (r: String)
    ensures
        r@ == spec_format(e, model(*data)),
{
    match e {
        Endpoint::CaptureScreenshot => format_screenshot(data),
        Endpoint::ConsoleLogs => format_console_logs(data),
        Endpoint::ConsoleErrors => format_console_logs(data),
        Endpoint::NetworkSuccess => {
            let mut out = String::from_str("Network logs:\n\n");
            write_pretty(data, 0, &mut out);
            out
        },
        Endpoint::NetworkErrors => {
            let mut out = String::from_str("Network logs:\n\n");
            write_pretty(data, 0, &mut out);
            out
        },
        Endpoint::WipeLogs => format_wipe(data),
        Endpoint::SelectedElement => format_selected_element(data),
        Endpoint::AccessibilityAudit => format_audit_response(e, data),
        Endpoint::PerformanceAudit => format_audit_response(e, data),
        Endpoint::SeoAudit => format_audit_response(e, data),
        Endpoint::BestPracticesAudit => format_audit_response(e, data),
        Endpoint::NextjsAudit => format_audit_response(e, data),
        Endpoint::AuditAll => {
            let mut out = String::from_str("Audit Mode Results:\n\n");
            write_pretty(data, 0, &mut out);
            out
        },
        Endpoint::DebugMode => {
            let mut out = String::from_str("Debugger Mode Results:\n\n");
            write_pretty(data, 0, &mut out);
            out
        },
    }
}

/// Renders a reply that already parsed: through the envelope when it is
/// one, whole under the endpoint's formatter when it is not.
pub fn format_parsed_response(e: Endpoint, j: &Json) -> (r: String)
    ensures
        r@ == spec_normalize_parsed(e, model(*j)),
{
    match j {
        Json::Obj(entries) => {
            match lookup(entries, "status") {
                Some(stj) => {
                    match stj {
                        Json::Str(st) => {
                            let msg_field = lookup(entries, "message");
                            let valid_msg = match msg_field {
                                None => true,
                                Some(Json::Str(_)) => true,
                                Some(_) => false,
                            };
                            if valid_msg {
                                if str_eq(st.as_str(), "success") {
                                    match lookup(entries, "data") {
                                        Some(d) => format_browser_tools_response(e, d),
                                        None => {
                                            let null = Json::Null;
                                            format_browser_tools_response(e, &null)
                                        },
                                    }
                                } else {
                                    let mut out = String::from_str("Error from BrowserTools: ");
                                    match msg_field {
                                        Some(m) => {
                                            match m {
                                                Json::Str(msg) => {
                                                    out.append(msg.as_str());
                                                },
                                                _ => {},
                                            }
                                        },
                                        None => {},
                                    }
                                    proof {
                                        assert(out@ =~= spec_normalize_parsed(e, model(*j)));
                                    }
                                    out
                                }
                            } else {
                                format_browser_tools_response(e, j)
                            }
                        },
                        _ => format_browser_tools_response(e, j),
                    }
                },
                None => format_browser_tools_response(e, j),
            }
        },
        _ => format_browser_tools_response(e, j),
    }
}

/// Normalizes a raw reply for its endpoint: this never fails, whatever the
/// bytes hold — an envelope, some other JSON, or no JSON at all.
pub fn process_api_response(endpoint: Endpoint, response: &str) -> (r: String)
    ensures
        r@ == spec_normalize(endpoint, json_parse(response@), response@),
{
    match parse_json(response) {
        Ok(j) => format_parsed_response(endpoint, &j),
        Err(err) => {
            let mut out = String::from_str("Raw response from BrowserTools (parse error: ");
            out.append(err.as_str());
            out.append("): ");
            out.append(response);
            proof {
                assert(out@ =~= spec_normalize(endpoint, json_parse(response@), response@));
            }
            out
        },
    }
}

/// Whether a text holds no brace — no raw JSON artifact.
pub open spec fn brace_free(s: Seq<char>) -> bool {
    forall|i: int| 0 <= i < s.len() ==> #[trigger] s[i] != '{' && s[i] != '}'
}

proof fn lemma_brace_free_concat(a: Seq<char>, b: Seq<char>)
    requires
        brace_free(a),
        brace_free(b),
    ensures
        brace_free(a + b),
{
    assert forall|i: int| 0 <= i < (a + b).len() implies #[trigger] (a + b)[i] != '{' && (a
        + b)[i] != '}' by {
        if i < a.len() {
            assert((a + b)[i] == a[i]);
        } else {
            assert((a + b)[i] == b[i - a.len()]);
        }
    }
}

proof fn lemma_digits_brace_free(n: int)
    ensures
        brace_free(crate::text::spec_digits(n)),
    decreases n,
{
    if n > 0 {
        lemma_digits_brace_free(n / 10);
        let s = crate::text::spec_digits(n);
        let prev = crate::text::spec_digits(n / 10);
        assert forall|i: int| 0 <= i < s.len() implies #[trigger] s[i] != '{' && s[i]
            != '}' by {
            if i < s.len() - 1 {
                assert(s[i] == prev[i]);
            }
        }
    }
}

proof fn lemma_int_string_brace_free(n: int)
    ensures
        brace_free(spec_int_string(n)),
{
    lemma_digits_brace_free(n);
    lemma_digits_brace_free(-n);
    if n == 0 {
    } else if n < 0 {
        lemma_brace_free_concat(seq!['-'], crate::text::spec_digits(-n));
    }
}

/// Whether an issue entry has the expected shape with no brace in its
/// texts: its title and description, where they are strings, hold none.
pub open spec fn issue_shaped(it: JsonModel) -> bool {
    &&& (match spec_str_field(it, "title"@) {
        Some(t) => brace_free(t),
        None => true,
    })
    &&& (match spec_str_field(it, "description"@) {
        Some(d) => brace_free(d),
        None => true,
    })
}

/// Whether an audit payload has the expected shape: a numeric score in
/// plain decimal form, and an issues sequence of well-shaped entries.
pub open spec fn audit_shaped(data: JsonModel) -> bool {
    &&& data is Obj
    &&& (match spec_lookup(data->Obj_0, "score"@) {
        Some(JsonModel::Num(t)) => spec_percent(t) is Some,
        _ => false,
    })
    &&& (match spec_lookup(data->Obj_0, "issues"@) {
        Some(JsonModel::Arr(list)) => forall|i: int|
            0 <= i < list.len() ==> issue_shaped(#[trigger] list[i]),
        _ => false,
    })
}

/// Whether an endpoint is one of the category audits.
pub open spec fn is_audit_endpoint(e: Endpoint) -> bool {
    match e {
        Endpoint::AccessibilityAudit => true,
        Endpoint::PerformanceAudit => true,
        Endpoint::SeoAudit => true,
        Endpoint::BestPracticesAudit => true,
        Endpoint::NextjsAudit => true,
        _ => false,
    }
}

proof fn lemma_issue_line_brace_free(i: int, it: JsonModel)
    requires
        issue_shaped(it),
    ensures
        brace_free(spec_issue_line(i, it)),
{
    reveal_strlit(". ");
    reveal_strlit("   ");
    reveal_strlit("Unknown issue");
    lemma_int_string_brace_free(i + 1);
    let title = match spec_str_field(it, "title"@) {
        Some(t) => t,
        None => "Unknown issue"@,
    };
    let descr = match spec_str_field(it, "description"@) {
        Some(t) => t,
        None => Seq::empty(),
    };
    assert(brace_free("Unknown issue"@));
    assert(brace_free(". "@));
    assert(brace_free("   "@));
    assert(brace_free(seq!['\n']));
    lemma_brace_free_concat(seq!['\n'], spec_int_string(i + 1));
    lemma_brace_free_concat(seq!['\n'] + spec_int_string(i + 1), ". "@);
    lemma_brace_free_concat(seq!['\n'] + spec_int_string(i + 1) + ". "@, title);
    lemma_brace_free_concat(seq!['\n'] + spec_int_string(i + 1) + ". "@ + title, seq!['\n']);
    if descr.len() > 0 {
        lemma_brace_free_concat("   "@, descr);
        lemma_brace_free_concat("   "@ + descr, seq!['\n']);
    }
    lemma_brace_free_concat(
        seq!['\n'] + spec_int_string(i + 1) + ". "@ + title + seq!['\n'],
        (if descr.len() > 0 {
            "   "@ + descr + seq!['\n']
        } else {
            Seq::empty()
        }),
    );
}

proof fn lemma_issue_lines_brace_free(list: Seq<JsonModel>)
    requires
        forall|i: int| 0 <= i < list.len() ==> issue_shaped(#[trigger] list[i]),
    ensures
        brace_free(spec_issue_lines(list)),
    decreases list,
{
    if list.len() > 0 {
        assert(forall|i: int|
            0 <= i < list.drop_last().len() ==> issue_shaped(#[trigger] list.drop_last()[i]));
        lemma_issue_lines_brace_free(list.drop_last());
        lemma_issue_line_brace_free(list.len() - 1, list.last());
        lemma_brace_free_concat(
            spec_issue_lines(list.drop_last()),
            spec_issue_line(list.len() - 1, list.last()),
        );
    }
}

/// Law (round trip): a success envelope whose data matches the audit shape
/// renders, for every audit endpoint, to text holding no brace: nothing of
/// the JSON syntax leaks into well-formed output.
pub proof fn lemma_audit_roundtrip_no_braces(e: Endpoint, m: JsonModel)
    requires
        is_audit_endpoint(e),
        spec_envelope(m) matches Some((st, data, msg)) && st == "success"@ && audit_shaped(data),
    ensures
        spec_normalize_parsed(e, m) == spec_format(e, spec_envelope(m)->Some_0.1),
        brace_free(spec_normalize_parsed(e, m)),
{
    let data = spec_envelope(m)->Some_0.1;
    reveal_strlit("Overall Score: ");
    reveal_strlit("%\n");
    reveal_strlit(" Audit Results:\n\n");
    reveal_strlit("\nNo issues found!");
    reveal_strlit("\nIssues Found:\n");
    reveal_strlit("Accessibility");
    reveal_strlit("Performance");
    reveal_strlit("SEO");
    reveal_strlit("Best Practices");
    reveal_strlit("NextJS");
    let t = (match spec_lookup(data->Obj_0, "score"@) {
        Some(JsonModel::Num(tx)) => tx,
        _ => Seq::empty(),
    });
    let p = spec_percent(t)->Some_0;
    lemma_int_string_brace_free(p);
    assert(brace_free("Overall Score: "@));
    assert(brace_free("%\n"@));
    lemma_brace_free_concat("Overall Score: "@, spec_int_string(p));
    lemma_brace_free_concat("Overall Score: "@ + spec_int_string(p), "%\n"@);
    assert(spec_score_part(data) == "Overall Score: "@ + spec_int_string(p) + "%\n"@);
    let list = (match spec_lookup(data->Obj_0, "issues"@) {
        Some(JsonModel::Arr(l)) => l,
        _ => Seq::empty(),
    });
    if list.len() == 0 {
        assert(brace_free("\nNo issues found!"@));
    } else {
        lemma_issue_lines_brace_free(list);
        assert(brace_free("\nIssues Found:\n"@));
        lemma_brace_free_concat("\nIssues Found:\n"@, spec_issue_lines(list));
    }
    assert(brace_free(spec_issues_part(data)));
    assert(brace_free(spec_audit_type(e)));
    assert(brace_free(" Audit Results:\n\n"@));
    assert(spec_score_part(data).len() > 0);
    lemma_brace_free_concat(spec_audit_type(e), " Audit Results:\n\n"@);
    lemma_brace_free_concat(spec_audit_type(e) + " Audit Results:\n\n"@, spec_score_part(data));
    lemma_brace_free_concat(
        spec_audit_type(e) + " Audit Results:\n\n"@ + spec_score_part(data),
        spec_issues_part(data),
    );
    assert(spec_format(e, data) == spec_audit_type(e) + " Audit Results:\n\n"@ + spec_score_part(
        data,
    ) + spec_issues_part(data));
}

} // verus!
