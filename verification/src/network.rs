//! Searching for a free port: the decisions of the search, one bind attempt
//! at a time. The caller binds a listener to the address of the current
//! state and hands back what the bind reported.

use vstd::prelude::*;

use crate::text::{extend_str, i64_to_string, int_text, chars_of, string_of};

verus! {

/// The most ports the search tries.
pub const MAX_PORT_ATTEMPTS: u16 = 100;

/// Where a port search stands: it started at `start_port`, has failed
/// `attempts` times, and tries `port` next.
#[derive(Debug, Clone, Copy, PartialEq, Eq, Structural)]
pub struct PortSearch {
    pub start_port: u16,
    pub port: u16,
    pub attempts: u16,
}

impl PortSearch {
    /// The search tries consecutive ports, and fewer than the maximum so far.
    pub open spec fn well_formed(&self) -> bool {
        &&& self.attempts < MAX_PORT_ATTEMPTS
        &&& self.port == self.start_port + self.attempts
    }
}

/// What binding the current port reported.
#[derive(Debug, Clone)]
pub enum BindOutcome {
    /// The listener is bound.
    Bound,
    /// The address is in use; the text describes the error.
    AddressInUse(String),
    /// Any other error, with its text.
    Failed(String),
}

/// What the search does next.
#[derive(Debug, Clone)]
pub enum PortStep {
    /// The listener is bound to this port.
    Bound(u16),
    /// Bind the address of this state next.
    TryNext(PortSearch),
    /// The search failed with this message.
    GiveUp(String),
}

pub open spec fn exhausted_message(start: u16, port: u16, err: Seq<char>) -> Seq<char> {
    "Failed to find available port after 100 attempts (tried ports "@ + int_text(start as int)
        + "-"@ + int_text(port as int) + "): "@ + err
}

pub open spec fn max_port_message() -> Seq<char> {
    "Port number reached maximum value while searching for available port"@
}

pub open spec fn address_text(host: Seq<char>, port: u16) -> Seq<char> {
    host + ":"@ + int_text(port as int)
}

pub open spec fn bind_failed_message(host: Seq<char>, port: u16, err: Seq<char>) -> Seq<char> {
    "Failed to bind to "@ + address_text(host, port) + ": "@ + err
}

/// The message the search gives up with, if it gives up.
pub open spec fn give_up_message(s: PortSearch, host: Seq<char>, outcome: BindOutcome) -> Option<
    Seq<char>,
> {
    match outcome {
        BindOutcome::Bound => None,
        BindOutcome::AddressInUse(e) => if s.attempts + 1 >= MAX_PORT_ATTEMPTS {
            Some(exhausted_message(s.start_port, s.port, e@))
        } else if s.port == u16::MAX {
            Some(max_port_message())
        } else {
            None
        },
        BindOutcome::Failed(e) => if s.attempts + 1 >= MAX_PORT_ATTEMPTS {
            Some(exhausted_message(s.start_port, s.port, e@))
        } else {
            Some(bind_failed_message(host, s.port, e@))
        },
    }
}

/// The state a search starts in.
pub fn port_search_start(start_port: u16) -> (s: PortSearch)
    ensures
        s == (PortSearch { start_port, port: start_port, attempts: 0 }),
        s.well_formed(),
{
    PortSearch { start_port, port: start_port, attempts: 0 }
}

/// The address `host:port` to bind.
pub fn bind_address(host: &str, port: u16) -> (a: String)
    ensures
        a@ == address_text(host@, port),
{
    let mut v = chars_of(host);
    extend_str(&mut v, ":");
    let p = i64_to_string(port as i64);
    extend_str(&mut v, p.as_str());
    string_of(&v)
}

fn exhausted(start: u16, port: u16, err: &str) -> (m: String)
    ensures
        m@ == exhausted_message(start, port, err@),
{
    let mut v = chars_of("Failed to find available port after 100 attempts (tried ports ");
    let a = i64_to_string(start as i64);
    extend_str(&mut v, a.as_str());
    extend_str(&mut v, "-");
    let b = i64_to_string(port as i64);
    extend_str(&mut v, b.as_str());
    extend_str(&mut v, "): ");
    extend_str(&mut v, err);
    string_of(&v)
}

/// Decides the next step of a port search from the outcome of binding the
/// current port.
pub fn port_search_step(s: PortSearch, host: &str, outcome: BindOutcome) -> (r: PortStep)
    requires
        s.well_formed(),
    ensures
        outcome is Bound ==> (r matches PortStep::Bound(p) && p == s.port),
        !(outcome is Bound) ==> match give_up_message(s, host@, outcome) {
            Some(m) => (r matches PortStep::GiveUp(t) && t@ == m),
            None => (r matches PortStep::TryNext(n) && n == (PortSearch {
                start_port: s.start_port,
                port: (s.port + 1) as u16,
                attempts: (s.attempts + 1) as u16,
            }) && n.well_formed()),
        },
{
    match outcome {
        BindOutcome::Bound => PortStep::Bound(s.port),
        BindOutcome::AddressInUse(e) => {
            if s.attempts + 1 >= MAX_PORT_ATTEMPTS {
                PortStep::GiveUp(exhausted(s.start_port, s.port, e.as_str()))
            } else if s.port == u16::MAX {
                PortStep::GiveUp(
                    string_of(
                        &chars_of(
                            "Port number reached maximum value while searching for available port",
                        ),
                    ),
                )
            } else {
                PortStep::TryNext(
                    PortSearch { start_port: s.start_port, port: s.port + 1, attempts: s.attempts + 1 },
                )
            }
        },
        BindOutcome::Failed(e) => {
            if s.attempts + 1 >= MAX_PORT_ATTEMPTS {
                PortStep::GiveUp(exhausted(s.start_port, s.port, e.as_str()))
            } else {
                let mut v = chars_of("Failed to bind to ");
                let a = bind_address(host, s.port);
                extend_str(&mut v, a.as_str());
                extend_str(&mut v, ": ");
                extend_str(&mut v, e.as_str());
                PortStep::GiveUp(string_of(&v))
            }
        },
    }
}

} // verus!
