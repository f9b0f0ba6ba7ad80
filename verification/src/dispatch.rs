//! The dispatcher: validates the argument, resolves the command, frames the
//! request, and turns the transport's outcome into the labeled output or
//! the contextualized error. The one network call itself stands outside the
//! library; these functions decide everything around it.

use vstd::prelude::*;

use crate::json::json_parse;
use crate::json::spec_compact;
use crate::json::to_compact;
use crate::normalize::process_api_response;
use crate::normalize::spec_normalize;
use crate::table::Endpoint;
use crate::table::Method;
use crate::table::endpoint_path;
use crate::table::get_api_params;
use crate::table::get_error_message;
use crate::table::get_section_label;
use crate::table::spec_endpoint_path;
use crate::table::spec_error_message;
use crate::table::spec_known_pair;
use crate::table::spec_resolve;
use crate::table::spec_section_label;
use crate::text::push_char;
use crate::text::spec_int_string;
use crate::text::u64_to_string;
use vstd::string::StringExecFns;

verus! {

broadcast use {vstd::seq::group_seq_axioms, vstd::std_specs::vec::group_vec_axioms};

/// The bridge's read-only configuration for one session.
#[derive(Debug)]
pub struct Config {
    pub port: u16,
    pub host: String,
    pub npx_command: String,
}

/// What the host runs to start the agent: a command, its arguments, and
/// its environment.
#[derive(Debug)]
pub struct SpawnSpec {
    pub command: String,
    pub args: Vec<String>,
    pub env: Vec<(String, String)>,
}

/// Builds the agent's launch specification from the configuration: the
/// package runner with the configured package, and the port and host in
/// the environment.
pub fn resolve_command_spawn(config: &Config) -> (r: SpawnSpec)
    ensures
        r.command@ == "npx"@,
        r.args@.len() == 1 && r.args@[0]@ == config.npx_command@,
        r.env@.len() == 2,
        r.env@[0].0@ == "PORT"@ && r.env@[0].1@ == spec_int_string(config.port as int),
        r.env@[1].0@ == "HOST"@ && r.env@[1].1@ == config.host@,
{
    let mut args: Vec<String> = Vec::new();
    args.push(config.npx_command.clone());
    let mut env: Vec<(String, String)> = Vec::new();
    env.push((String::from_str("PORT"), u64_to_string(config.port as u64)));
    env.push((String::from_str("HOST"), config.host.clone()));
    SpawnSpec { command: String::from_str("npx"), args, env }
}

/// Relies on std::time::SystemTime: reads the system clock as milliseconds
/// since the epoch; a clock before the epoch reads as zero. Nothing is
/// promised of the value: the system clock may step in either direction.
#[verifier::external_body]
pub fn get_current_timestamp() -> i64 {
    std::time::SystemTime::now().duration_since(std::time::UNIX_EPOCH).unwrap_or_default().as_millis()
        as i64
}

/// The URL a request for an endpoint goes to.
pub open spec fn spec_api_url(host: Seq<char>, port: int, e: Endpoint) -> Seq<char> {
    "http://"@ + host + seq![':'] + spec_int_string(port) + seq!['/'] + spec_endpoint_path(e)
}

/// Builds the URL a request for an endpoint goes to.
pub fn build_api_url(host: &str, port: u16, e: Endpoint) -> (r: String)
    ensures
        r@ == spec_api_url(host@, port as int, e),
{
    let mut out = String::from_str("http://");
    out.append(host);
    push_char(&mut out, ':');
    let p = u64_to_string(port as u64);
    out.append(p.as_str());
    push_char(&mut out, '/');
    out.append(endpoint_path(e));
    proof {
        assert(out@ =~= spec_api_url(host@, port as int, e));
    }
    out
}

/// The first argument handed to a command, empty when none was.
pub open spec fn spec_first_arg(args: Seq<String>) -> Seq<char> {
    if args.len() == 0 {
        Seq::empty()
    } else {
        args[0]@
    }
}

/// One request, framed and ready to send: where, how, and with which body.
#[derive(Debug)]
pub struct PreparedRequest {
    pub endpoint: Endpoint,
    pub method: Method,
    pub url: String,
    pub body: String,
}

/// Frames the request for a command invocation, or rejects it before any
/// request exists: a missing argument and an unknown pair each give their
/// precise error, and no request is framed for them.
pub fn prepare_request(
    command_name: &str,
    args: &Vec<String>,
    host: &str,
    port: u16,
    timestamp: i64,
) -> (r: Result<PreparedRequest, String>)
    ensures
        (match r {
            Ok(p) => {
                let arg = spec_first_arg(args@);
                &&& arg.len() > 0
                &&& spec_known_pair(command_name@, arg)
                &&& p.endpoint == spec_resolve(command_name@, arg, timestamp as int)->Some_0.0
                &&& p.method == spec_resolve(command_name@, arg, timestamp as int)->Some_0.1
                &&& p.body@ == spec_compact(
                    spec_resolve(command_name@, arg, timestamp as int)->Some_0.2,
                )
                &&& p.url@ == spec_api_url(host@, port as int, p.endpoint)
            },
            Err(e) => {
                let arg = spec_first_arg(args@);
                if arg.len() == 0 {
                    e@ == "No argument provided. Please select an option."@
                } else {
                    !spec_known_pair(command_name@, arg) && e@
                        == "Unknown command or argument: "@ + command_name@ + " "@ + arg
                }
            },
        }),
        r is Ok <==> (spec_first_arg(args@).len() > 0 && spec_known_pair(
            command_name@,
            spec_first_arg(args@),
        )),
{
    let no_arg = String::from_str("No argument provided. Please select an option.");
    if args.len() == 0 {
        return Err(no_arg);
    }
    let arg: &str = args[0].as_str();
    if arg.is_empty() {
        return Err(no_arg);
    }
    match get_api_params(command_name, arg, timestamp) {
        Ok(params) => {
            let url = build_api_url(host, port, params.endpoint);
            let body = to_compact(&params.payload);
            Ok(PreparedRequest { endpoint: params.endpoint, method: params.method, url, body })
        },
        Err(e) => Err(e),
    }
}

/// Turns the transport's outcome into the final labeled output: normalized
/// text under the pair's display title on success, the pair's remediation
/// hint around the transport's cause on failure.
pub fn finish_command(
    command_name: &str,
    arg: &str,
    endpoint: Endpoint,
    transport: Result<String, String>,
) -> (r: Result<LabeledOutput, String>)
    ensures
        (match r {
            Ok(out) => transport matches Ok(resp) && out.text@ == spec_normalize(
                endpoint,
                json_parse(resp@),
                resp@,
            ) && out.label@ == spec_section_label(command_name@, arg@),
            Err(e) => transport matches Err(cause) && e@ == spec_error_message(command_name@, arg@)
                + " Error: "@ + cause@,
        }),
{
    match transport {
        Ok(response) => {
            let text = process_api_response(endpoint, response.as_str());
            let label = get_section_label(command_name, arg).to_owned();
            Ok(LabeledOutput { text, label })
        },
        Err(cause) => {
            let mut e = get_error_message(command_name, arg);
            e.append(" Error: ");
            e.append(cause.as_str());
            proof {
                assert(e@ =~= spec_error_message(command_name@, arg@) + " Error: "@ + cause@);
            }
            Err(e)
        },
    }
}

/// The final result of a command: the display text and its section title.
#[derive(Debug)]
pub struct LabeledOutput {
    pub text: String,
    pub label: String,
}

} // verus!
