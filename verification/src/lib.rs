//! A command-dispatch bridge to a locally running browser-automation
//! agent: a static command table resolves each (command, argument) pair to
//! an endpoint, method and payload; the dispatcher frames the one HTTP
//! request and rejects bad invocations before any request exists; and the
//! normalizer turns whatever the agent replies into readable text, never
//! failing. The network call itself stands outside the library.

use vstd::prelude::*;

pub mod dispatch;
pub mod json;
pub mod normalize;
pub mod number;
pub mod table;
pub mod text;

verus! {

/// The TCP port the agent listens on when the host supplies no setting.
pub fn default_port() -> (r: u16)
    ensures
        r == 3025u16,
{
    3025
}

/// The host the agent listens on when the host application supplies none.
pub fn default_host() -> (r: String)
    ensures
        r@ == "127.0.0.1"@,
{
    "127.0.0.1".to_owned()
}

/// The agent's versioned package identifier when the host supplies none.
pub fn default_npx_command() -> (r: String)
    ensures
        r@ == "@agentdeskai/browser-tools-server@1.2.0"@,
{
    "@agentdeskai/browser-tools-server@1.2.0".to_owned()
}

} // verus!
