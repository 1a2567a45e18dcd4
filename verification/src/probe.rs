//! The outcome of a probe and the state machine that reaches it.
//!
//! A probe owns its transport channel. A segment read from the channel
//! answers the probe when it comes from the probed address and the probed
//! port; every other segment is passed over. The time spent on segments
//! that are passed over is taken off the wait, so traffic on the channel
//! cannot stretch a probe beyond its timeout.

use vstd::prelude::*;
use crate::address::{IpAddress, IpConfig, PortConfig};
use crate::checksum::{be_word, TCP_HEADER_LEN};
use crate::packet::{tcp_segment, RST};

verus! {

/// What a probe learned about one (address, port) pairing.
#[derive(Clone, Copy, Debug, PartialEq, Eq, Structural)]
pub enum PortState {
    /// A matching segment arrived with RST clear.
    Opened,
    /// A matching segment arrived with RST set.
    Closed,
    /// No matching segment arrived before the timeout.
    Filtered,
}

impl PortState {
    /// The lower-case word printed for this state.
    pub open spec fn label(self) -> Seq<char> {
        match self {
            PortState::Opened => "opened"@,
            PortState::Closed => "closed"@,
            PortState::Filtered => "filtered"@,
        }
    }

    /// Returns the word printed for this state.
    pub fn name(&self) -> (word: &'static str)
        ensures
            word@ == self.label(),
    {
        match self {
            PortState::Opened => "opened",
            PortState::Closed => "closed",
            PortState::Filtered => "filtered",
        }
    }
}

/// How long a probe waits for a matching segment, in milliseconds.
pub const PROBE_TIMEOUT_MILLIS: u64 = 5000;

/// Where a probe stands.
#[derive(Clone, Copy, Debug, PartialEq, Eq, Structural)]
pub enum ProbeState {
    /// Nothing was sent yet.
    Idle,
    /// The SYN is out; `remaining` milliseconds of the wait are left.
    Sent { remaining: u64 },
    /// Resolved: the port answered without RST.
    Opened,
    /// Resolved: the port answered with RST.
    Closed,
    /// Resolved: the wait ran out.
    Filtered,
}

/// What happened on the channel of a probe.
#[derive(Clone, Copy, Debug, PartialEq, Eq, Structural)]
pub enum ProbeEvent {
    /// The SYN segment was handed to the transport.
    SynSent,
    /// A TCP segment was read after `waited` milliseconds.
    Segment { source: IpAddress, source_port: u16, flags: u8, waited: u64 },
    /// A read failed after `waited` milliseconds.
    ReceiveError { waited: u64 },
    /// Nothing was read within the time allowed.
    Timeout,
}

/// What the driver of a probe does next.
#[derive(Clone, Copy, Debug, PartialEq, Eq, Structural)]
pub enum ProbeAction {
    /// Send the SYN segment, then report `ProbeEvent::SynSent`.
    SendSyn,
    /// Read one segment, waiting at most `timeout` milliseconds, then report
    /// what came of it.
    Receive { timeout: u64 },
    /// The port is open: send a RST, ignoring failure, then report
    /// `PortState::Opened`.
    SendRst,
    /// The probe is over with this result.
    Report(PortState),
}

impl ProbeState {
    /// The result of a probe that is over.
    pub open spec fn outcome(self) -> Option<PortState> {
        match self {
            ProbeState::Opened => Some(PortState::Opened),
            ProbeState::Closed => Some(PortState::Closed),
            ProbeState::Filtered => Some(PortState::Filtered),
            _ => None,
        }
    }

    /// Whether the probe is over.
    pub open spec fn is_resolved(self) -> bool {
        self.outcome() is Some
    }

    /// A probe that waits has time left, and no more than the timeout.
    pub open spec fn well_formed(self) -> bool {
        self matches ProbeState::Sent { remaining } ==> 0 < remaining <= PROBE_TIMEOUT_MILLIS
    }

    /// Returns the result of the probe, if it is over.
    pub fn port_state(&self) -> (result: Option<PortState>)
        ensures
            result == self.outcome(),
    {
        match self {
            ProbeState::Opened => Some(PortState::Opened),
            ProbeState::Closed => Some(PortState::Closed),
            ProbeState::Filtered => Some(PortState::Filtered),
            _ => None,
        }
    }
}

/// The index of the byte of a segment that holds its flags.
pub const FLAGS_BYTE: usize = 13;

/// What a probe makes of `segment`, read after `waited` milliseconds from
/// `source`: with the 20 bytes of a TCP header, a segment from the source
/// port in its first two bytes with the flags in its flag byte; with fewer,
/// a failed read.
pub open spec fn received(source: IpAddress, segment: Seq<u8>, waited: u64) -> ProbeEvent {
    if segment.len() < TCP_HEADER_LEN {
        ProbeEvent::ReceiveError { waited }
    } else {
        ProbeEvent::Segment {
            source,
            source_port: be_word(segment, 0) as u16,
            flags: segment[FLAGS_BYTE as int],
            waited,
        }
    }
}

/// Tells a probe what a read from its channel came to: reads from the
/// bytes of the segment the port it was sent from and its flags. A segment
/// too short to hold a TCP header counts as a failed read.
pub fn segment_event(source: IpAddress, segment: &[u8], waited: u64) -> (event: ProbeEvent)
    ensures
        event == received(source, segment@, waited),
{
    if segment.len() < TCP_HEADER_LEN {
        ProbeEvent::ReceiveError { waited }
    } else {
        ProbeEvent::Segment {
            source,
            source_port: segment[0] as u16 * 256 + segment[1] as u16,
            flags: segment[FLAGS_BYTE],
            waited,
        }
    }
}

/// A segment is read as it was built: from the segment of a probe, the
/// probe's own source port and flags are read back.
pub proof fn lemma_built_segment_is_read_back(
    ip: IpConfig,
    ports: PortConfig,
    flags: u8,
    source: IpAddress,
    waited: u64,
)
    ensures
        received(source, tcp_segment(ip, ports, flags), waited) == (ProbeEvent::Segment {
            source,
            source_port: ports.source,
            flags,
            waited,
        }),
{
}

/// Whether a segment with these flags has RST set.
pub open spec fn rst_set(flags: u8) -> bool {
    flags & RST != 0
}

/// Whether a segment from `source`, port `source_port`, answers the probe:
/// it comes from the probed address and from the probed port.
pub open spec fn segment_matches(
    ip: IpConfig,
    ports: PortConfig,
    source: IpAddress,
    source_port: u16,
) -> bool {
    source == ip.target && source_port == ports.target
}

/// The state after `waited` milliseconds went by without an answer, when
/// `remaining` were left.
pub open spec fn after_wait(remaining: u64, waited: u64) -> ProbeState {
    if waited >= remaining {
        ProbeState::Filtered
    } else {
        ProbeState::Sent { remaining: (remaining - waited) as u64 }
    }
}

/// The state that follows `state` on `event`.
pub open spec fn next_state(
    ip: IpConfig,
    ports: PortConfig,
    state: ProbeState,
    event: ProbeEvent,
) -> ProbeState {
    match (state, event) {
        (ProbeState::Idle, ProbeEvent::SynSent) => ProbeState::Sent {
            remaining: PROBE_TIMEOUT_MILLIS,
        },
        (ProbeState::Sent { remaining }, ProbeEvent::Timeout) => ProbeState::Filtered,
        (
            ProbeState::Sent { remaining },
            ProbeEvent::Segment { source, source_port, flags, waited },
        ) => {
            if segment_matches(ip, ports, source, source_port) {
                if rst_set(flags) {
                    ProbeState::Closed
                } else {
                    ProbeState::Opened
                }
            } else {
                after_wait(remaining, waited)
            }
        },
        (ProbeState::Sent { remaining }, ProbeEvent::ReceiveError { waited }) => after_wait(
            remaining,
            waited,
        ),
        _ => state,
    }
}

/// What the driver does on arriving in `after` from `before`.
pub open spec fn next_action(before: ProbeState, after: ProbeState) -> ProbeAction {
    match after {
        ProbeState::Idle => ProbeAction::SendSyn,
        ProbeState::Sent { remaining } => ProbeAction::Receive { timeout: remaining },
        ProbeState::Opened => if before is Sent {
            ProbeAction::SendRst
        } else {
            ProbeAction::Report(PortState::Opened)
        },
        ProbeState::Closed => ProbeAction::Report(PortState::Closed),
        ProbeState::Filtered => ProbeAction::Report(PortState::Filtered),
    }
}

/// Advances a probe by one event: returns the state that follows and what
/// the driver does next.
///
/// The probe starts in `ProbeState::Idle`, where the driver sends the SYN
/// built by `build_packet`.
pub fn syn_scan(
    ip_config: &IpConfig,
    port_config: &PortConfig,
    state: ProbeState,
    event: ProbeEvent,
) -> (step: (ProbeState, ProbeAction))
    ensures
        step.0 == next_state(*ip_config, *port_config, state, event),
        step.1 == next_action(state, step.0),
        state.well_formed() ==> step.0.well_formed(),
{
    let after = match state {
        ProbeState::Idle => match event {
            ProbeEvent::SynSent => ProbeState::Sent { remaining: PROBE_TIMEOUT_MILLIS },
            _ => state,
        },
        ProbeState::Sent { remaining } => match event {
            ProbeEvent::SynSent => state,
            ProbeEvent::Timeout => ProbeState::Filtered,
            ProbeEvent::Segment { source, source_port, flags, waited } => {
                if source == ip_config.target && source_port == port_config.target {
                    if flags & RST != 0 {
                        ProbeState::Closed
                    } else {
                        ProbeState::Opened
                    }
                } else {
                    wait_on(remaining, waited)
                }
            },
            ProbeEvent::ReceiveError { waited } => wait_on(remaining, waited),
        },
        _ => state,
    };
    let action = match after {
        ProbeState::Idle => ProbeAction::SendSyn,
        ProbeState::Sent { remaining } => ProbeAction::Receive { timeout: remaining },
        ProbeState::Opened => match state {
            ProbeState::Sent { .. } => ProbeAction::SendRst,
            _ => ProbeAction::Report(PortState::Opened),
        },
        ProbeState::Closed => ProbeAction::Report(PortState::Closed),
        ProbeState::Filtered => ProbeAction::Report(PortState::Filtered),
    };
    (after, action)
}

/// Takes `waited` milliseconds off a wait of which `remaining` were left.
fn wait_on(remaining: u64, waited: u64) -> (state: ProbeState)
    ensures
        state == after_wait(remaining, waited),
{
    if waited >= remaining {
        ProbeState::Filtered
    } else {
        ProbeState::Sent { remaining: remaining - waited }
    }
}

/// The state reached from `state` after all of `events`, in order.
pub open spec fn run(
    ip: IpConfig,
    ports: PortConfig,
    state: ProbeState,
    events: Seq<ProbeEvent>,
) -> ProbeState
    decreases events.len(),
{
    if events.len() == 0 {
        state
    } else {
        run(ip, ports, next_state(ip, ports, state, events[0]), events.drop_first())
    }
}

/// Whether a waiting probe passes `event` over: a segment that does not
/// answer it, or a failed read.
pub open spec fn passed_over(ip: IpConfig, ports: PortConfig, event: ProbeEvent) -> bool {
    match event {
        ProbeEvent::Segment { source, source_port, .. } => !segment_matches(
            ip,
            ports,
            source,
            source_port,
        ),
        ProbeEvent::ReceiveError { .. } => true,
        _ => false,
    }
}

/// Whether a waiting probe passes over every one of `events`.
pub open spec fn all_passed_over(ip: IpConfig, ports: PortConfig, events: Seq<ProbeEvent>) -> bool {
    forall|i: int| 0 <= i < events.len() ==> passed_over(ip, ports, #[trigger] events[i])
}

/// The milliseconds that `event` took.
pub open spec fn waited(event: ProbeEvent) -> nat {
    match event {
        ProbeEvent::Segment { waited, .. } => waited as nat,
        ProbeEvent::ReceiveError { waited } => waited as nat,
        _ => 0,
    }
}

/// The milliseconds that all of `events` took together.
pub open spec fn total_waited(events: Seq<ProbeEvent>) -> nat
    decreases events.len(),
{
    if events.len() == 0 {
        0
    } else {
        waited(events[0]) + total_waited(events.drop_first())
    }
}

/// Running over two traces one after the other is running over their
/// concatenation.
pub proof fn lemma_run_concat(
    ip: IpConfig,
    ports: PortConfig,
    state: ProbeState,
    first: Seq<ProbeEvent>,
    second: Seq<ProbeEvent>,
)
    ensures
        run(ip, ports, state, first + second) == run(ip, ports, run(ip, ports, state, first), second),
    decreases first.len(),
{
    if first.len() > 0 {
        assert((first + second).drop_first() =~= first.drop_first() + second);
        lemma_run_concat(
            ip,
            ports,
            next_state(ip, ports, state, first[0]),
            first.drop_first(),
            second,
        );
    }
}

/// A result is set once: no event moves a probe that is over.
pub proof fn lemma_resolved_is_final(
    ip: IpConfig,
    ports: PortConfig,
    state: ProbeState,
    events: Seq<ProbeEvent>,
)
    requires
        state.is_resolved(),
    ensures
        run(ip, ports, state, events) == state,
    decreases events.len(),
{
    if events.len() > 0 {
        lemma_resolved_is_final(ip, ports, state, events.drop_first());
    }
}

/// Events that a waiting probe passes over change nothing but the time
/// left, and once they have used up the wait the probe is `Filtered`.
pub proof fn lemma_passed_over_only_costs_time(
    ip: IpConfig,
    ports: PortConfig,
    remaining: u64,
    events: Seq<ProbeEvent>,
)
    requires
        remaining > 0,
        all_passed_over(ip, ports, events),
    ensures
        run(ip, ports, ProbeState::Sent { remaining }, events) == if total_waited(events)
            >= remaining {
            ProbeState::Filtered
        } else {
            ProbeState::Sent { remaining: (remaining - total_waited(events)) as u64 }
        },
    decreases events.len(),
{
    if events.len() > 0 {
        let rest = events.drop_first();
        let spent = waited(events[0]);
        if spent >= remaining {
            lemma_resolved_is_final(ip, ports, ProbeState::Filtered, rest);
        } else {
            lemma_passed_over_only_costs_time(ip, ports, (remaining - spent) as u64, rest);
        }
    }
}

/// How a probe is classified. After the SYN, let the probe pass over any
/// events and then meet `last`. Whatever was passed over, if it took less
/// than the timeout, the probe is `Opened` when `last` is a matching segment
/// with RST clear, `Closed` when it is one with RST set, and `Filtered` when
/// it is a timeout. If what was passed over used up the timeout, the probe
/// is `Filtered` whatever `last` is.
pub proof fn lemma_classification(
    ip: IpConfig,
    ports: PortConfig,
    passed: Seq<ProbeEvent>,
    last: ProbeEvent,
)
    requires
        all_passed_over(ip, ports, passed),
    ensures
        ({
            let end = run(
                ip,
                ports,
                ProbeState::Idle,
                seq![ProbeEvent::SynSent] + passed + seq![last],
            );
            if total_waited(passed) >= PROBE_TIMEOUT_MILLIS {
                end == ProbeState::Filtered
            } else {
                match last {
                    ProbeEvent::Segment { source, source_port, flags, .. } => segment_matches(
                        ip,
                        ports,
                        source,
                        source_port,
                    ) ==> end == if rst_set(flags) {
                        ProbeState::Closed
                    } else {
                        ProbeState::Opened
                    },
                    ProbeEvent::Timeout => end == ProbeState::Filtered,
                    _ => true,
                }
            }
        }),
{
    let start = seq![ProbeEvent::SynSent];
    let sent = ProbeState::Sent { remaining: PROBE_TIMEOUT_MILLIS };
    assert(run(ip, ports, ProbeState::Idle, start) == sent) by {
        reveal_with_fuel(run, 2);
    }
    lemma_run_concat(ip, ports, ProbeState::Idle, start + passed, seq![last]);
    lemma_run_concat(ip, ports, ProbeState::Idle, start, passed);
    lemma_passed_over_only_costs_time(ip, ports, PROBE_TIMEOUT_MILLIS, passed);
    let waiting = run(ip, ports, sent, passed);
    assert(run(ip, ports, waiting, seq![last]) == next_state(ip, ports, waiting, last)) by {
        reveal_with_fuel(run, 2);
    }
}

} // verus!
