//! Choosing the port the server listens on, and the address it announces.
//!
//! Whether a port can be bound is learnt by trying; the decisions between
//! tries are the functions here, and the caller performs each try.

use vstd::prelude::*;
use crate::number::{decimal, push_decimal};

verus! {

/// The next thing to do while looking for a port.
pub enum PortProbe {
    /// Try to bind this port, then report with `scan_step`.
    Try(u16),
    /// Listen on this port.
    Use(u16),
}

/// The port used when no port of the scanned range could be bound.
pub open spec fn fallback_port() -> u16 {
    20000
}

/// The port the scan settles on, for a given set of bindable ports: the
/// first of `port..=end` that can be bound, else the fallback.
pub open spec fn scan_answer(port: u16, end: u16, free: spec_fn(u16) -> bool) -> u16
    decreases end - port,
{
    if port > end {
        fallback_port()
    } else if free(port) {
        port
    } else if port == end {
        fallback_port()
    } else {
        scan_answer((port + 1) as u16, end, free)
    }
}

/// Begins the scan of `start..=end`.
pub fn scan_start(start: u16, end: u16) -> (r: PortProbe)
    ensures
        start <= end ==> r == PortProbe::Try(start),
        start > end ==> r == PortProbe::Use(fallback_port()),
{
    if start <= end {
        PortProbe::Try(start)
    } else {
        PortProbe::Use(20000)
    }
}

/// The next step after trying `port` of a scan that ends at `end`:
/// use it when it could be bound, else try the next one, else fall back.
pub fn scan_step(port: u16, end: u16, bound: bool) -> (r: PortProbe)
    ensures
        bound ==> r == PortProbe::Use(port),
        !bound && port < end ==> r == PortProbe::Try((port + 1) as u16),
        !bound && port >= end ==> r == PortProbe::Use(fallback_port()),
{
    if bound {
        PortProbe::Use(port)
    } else if port < end {
        PortProbe::Try(port + 1)
    } else {
        PortProbe::Use(20000)
    }
}

/// The first step for a requested port: 0 asks for a scan of 20000..=20100.
pub fn first_probe(requested: u16) -> (r: PortProbe)
    ensures
        requested == 0 ==> r == PortProbe::Try(20000),
        requested != 0 ==> r == PortProbe::Use(requested),
{
    if requested == 0 {
        scan_start(20000, 20100)
    } else {
        PortProbe::Use(requested)
    }
}

/// The last port of the scan that a zero request starts.
pub fn scan_end() -> (r: u16)
    ensures
        r == 20100,
{
    20100
}

/// Every step of a scan keeps the port it will settle on: a step that
/// settles names it, and a step that moves on leaves it unchanged.
pub proof fn lemma_scan_step_keeps_answer(port: u16, end: u16, free: spec_fn(u16) -> bool)
    requires
        port <= end,
    ensures
        free(port) ==> scan_answer(port, end, free) == port,
        !free(port) && port < end ==> scan_answer((port + 1) as u16, end, free) == scan_answer(
            port,
            end,
            free,
        ),
        !free(port) && port >= end ==> scan_answer(port, end, free) == fallback_port(),
{
}

/// The scan settles on the first bindable port of the range, or on the
/// fallback when none of them can be bound.
pub proof fn lemma_scan_answer_is_first_free(port: u16, end: u16, free: spec_fn(u16) -> bool)
    ensures
        ({
            let a = scan_answer(port, end, free);
            ||| (port <= a <= end && free(a) && forall|q: u16| port <= q < a ==> !#[trigger] free(q))
            ||| (a == fallback_port() && forall|q: u16| port <= q <= end ==> !#[trigger] free(q))
        }),
    decreases end - port,
{
    if port <= end && !free(port) && port < end {
        lemma_scan_answer_is_first_free((port + 1) as u16, end, free);
    }
}

/// The address the server binds: `127.0.0.1:<port>`.
pub fn server_address(port: u16) -> (r: String)
    ensures
        r@ == "127.0.0.1:"@ + decimal(port as nat),
{
    let mut out = String::new();
    out.append("127.0.0.1:");
    push_decimal(&mut out, port as u128);
    out
}

/// The address the viewer window opens: `http://127.0.0.1:<port>/`.
pub fn server_url(port: u16) -> (r: String)
    ensures
        r@ == "http://"@ + "127.0.0.1:"@ + decimal(port as nat) + "/"@,
{
    let mut out = String::new();
    out.append("http://");
    let addr = server_address(port);
    out.append(addr.as_str());
    out.append("/");
    out
}

} // verus!
