//! The replication status resolver: a state machine over the target's
//! reply lines.
//!
//! One resolution pass authenticates (when a password is configured),
//! queries the replication role, and, for a master, queries the server
//! uptime, concluding with a verdict or an error. The caller owns the
//! connection: it writes the command each transition asks for, reads
//! reply lines, and feeds them in as events. A pass never touches more
//! than its own connection, and a finished pass stays finished.

use crate::parse::digits_value;
use crate::parse::parse_u64;
use crate::parse::parses_as_u64;
use crate::parse::spec_trim;
use crate::parse::trim;
use crate::verdict::spec_status_of;
use crate::verdict::ProbeError;
use crate::verdict::ReplicationVerdict;
use vstd::prelude::*;
use vstd::string::StrSliceExecFns;
use vstd::string::StringExecFns;

verus! {

/// Seconds a node must have been up, as a strict lower bound, before a
/// self-reported master is trusted: a node that just restarted may still
/// call itself master while it is about to be demoted.
pub const UPTIME_STABILITY_SECS: u64 = 10;

/// The positive acknowledgement the target answers to AUTH.
pub open spec fn spec_ok_reply() -> Seq<char> {
    "+OK"@
}

/// The replication-block line that marks the node as master. The whole
/// line must match: a mere prefix could belong to an unrelated field.
pub open spec fn spec_role_master() -> Seq<char> {
    "role:master"@
}

/// The command that asks for the replication block.
pub open spec fn spec_role_query() -> Seq<char> {
    "info replication"@
}

/// The command that asks for the server block.
pub open spec fn spec_server_query() -> Seq<char> {
    "info server"@
}

/// The field prefix that carries the uptime in the server block.
pub open spec fn spec_uptime_prefix() -> Seq<char> {
    "uptime_in_seconds:"@
}

/// The authentication command for a configured password.
pub open spec fn spec_auth_command(pass: Seq<char>) -> Seq<char> {
    "AUTH "@ + pass
}

/// `l` starts with the uptime field prefix.
pub open spec fn has_uptime_prefix(l: Seq<char>) -> bool {
    l.len() >= spec_uptime_prefix().len() && l.take(spec_uptime_prefix().len() as int)
        == spec_uptime_prefix()
}

/// The payload of an uptime field line: what follows the prefix, with
/// surrounding whitespace trimmed.
pub open spec fn uptime_field(l: Seq<char>) -> Seq<char>
    recommends
        has_uptime_prefix(l),
{
    spec_trim(l.skip(spec_uptime_prefix().len() as int))
}

/// Where one resolution pass stands.
#[derive(Clone, Copy, Debug)]
pub enum ResolverState {
    /// AUTH was sent; its single reply line is awaited.
    Authenticating,
    /// The replication block is being read. `master_seen` records whether
    /// the master marker has appeared; the block is read to its blank
    /// sentinel either way, so that no leftover of it is mistaken for a
    /// part of the next reply.
    QueryingRole { master_seen: bool },
    /// The server block is being read, looking for the uptime field.
    QueryingUptime,
    /// The pass is over; no further event changes the outcome.
    Finished(Result<ReplicationVerdict, ProbeError>),
}

/// One event on the connection: a complete reply line, or the stream
/// closing before one.
#[derive(Debug)]
pub enum Event {
    Line(String),
    Closed,
}

impl Event {
    /// The line carried by the event, if the stream did not close.
    pub open spec fn as_line(&self) -> Option<Seq<char>> {
        match self {
            Event::Line(l) => Some(l@),
            Event::Closed => None,
        }
    }
}

/// What the caller must do after a transition.
#[derive(Debug)]
pub enum Action {
    /// Write this command line (CRLF-terminated by the codec), then await
    /// the reply.
    Send(String),
    /// Await the next reply line.
    Await,
    /// The pass is finished; the outcome is in the state. The connection
    /// is done with and must be closed, never reused.
    Stop,
}

/// The state a pass starts in: authenticating when a password is
/// configured, querying the role otherwise.
pub open spec fn start_state(has_password: bool) -> ResolverState {
    if has_password {
        ResolverState::Authenticating
    } else {
        ResolverState::QueryingRole { master_seen: false }
    }
}

/// The transition relation of the resolver, one event at a time.
///
/// AUTH accepts exactly "+OK"; any other reply, or a closed stream,
/// rejects the credentials without retrying. The replication block
/// concludes Unhealthy at its blank sentinel unless the exact master
/// marker appeared before it. The server block concludes at the uptime
/// field: Healthy strictly above the stability threshold, Unhealthy at
/// or below it, ParseError when the field is not a number; a blank
/// sentinel without the field is the conservative Unhealthy, and a
/// stream closed mid-block is a protocol error.
pub open spec fn next_state(s: ResolverState, e: Option<Seq<char>>) -> ResolverState {
    match s {
        ResolverState::Authenticating => match e {
            Some(l) => {
                if l == spec_ok_reply() {
                    ResolverState::QueryingRole { master_seen: false }
                } else {
                    ResolverState::Finished(Ok(ReplicationVerdict::AuthRejected))
                }
            },
            None => ResolverState::Finished(Ok(ReplicationVerdict::AuthRejected)),
        },
        ResolverState::QueryingRole { master_seen } => match e {
            Some(l) => {
                if l.len() == 0 {
                    if master_seen {
                        ResolverState::QueryingUptime
                    } else {
                        ResolverState::Finished(Ok(ReplicationVerdict::Unhealthy))
                    }
                } else if l == spec_role_master() {
                    ResolverState::QueryingRole { master_seen: true }
                } else {
                    ResolverState::QueryingRole { master_seen }
                }
            },
            None => ResolverState::Finished(Err(ProbeError::ProtocolError)),
        },
        ResolverState::QueryingUptime => match e {
            Some(l) => {
                if has_uptime_prefix(l) {
                    if parses_as_u64(uptime_field(l)) {
                        if digits_value(uptime_field(l)) > UPTIME_STABILITY_SECS {
                            ResolverState::Finished(Ok(ReplicationVerdict::Healthy))
                        } else {
                            ResolverState::Finished(Ok(ReplicationVerdict::Unhealthy))
                        }
                    } else {
                        ResolverState::Finished(Err(ProbeError::ParseError))
                    }
                } else if l.len() == 0 {
                    ResolverState::Finished(Ok(ReplicationVerdict::Unhealthy))
                } else {
                    ResolverState::QueryingUptime
                }
            },
            None => ResolverState::Finished(Err(ProbeError::ProtocolError)),
        },
        ResolverState::Finished(o) => ResolverState::Finished(o),
    }
}

/// `s` starts with `prefix`.
fn str_starts_with(s: &str, prefix: &str) -> (r: bool)
    ensures
        r == (s@.len() >= prefix@.len() && s@.take(prefix@.len() as int) == prefix@),
{
    let n = s.unicode_len();
    let m = prefix.unicode_len();
    if n < m {
        return false;
    }
    let mut i: usize = 0;
    while i < m
        invariant
            0 <= i <= m <= n,
            m == prefix@.len(),
            n == s@.len(),
            forall|j: int| 0 <= j < i ==> s@[j] == prefix@[j],
        decreases m - i,
    {
        if s.get_char(i) != prefix.get_char(i) {
            proof {
                assert(s@.take(m as int)[i as int] != prefix@[i as int]);
            }
            return false;
        }
        i = i + 1;
    }
    proof {
        assert(s@.take(m as int) =~= prefix@);
    }
    true
}

/// Begins a resolution pass: with a password the pass authenticates
/// first; without one it queries the role at once.
pub fn start(pass: &Option<String>) -> (r: (ResolverState, Action))
    ensures
        r.0 == start_state(pass is Some),
        pass matches Some(p) ==> (r.1 matches Action::Send(cmd) && cmd@ == spec_auth_command(p@)),
        pass is None ==> (r.1 matches Action::Send(cmd) && cmd@ == spec_role_query()),
{
    match pass {
        Some(p) => {
            let mut cmd = String::from_str("AUTH ");
            cmd.append(p.as_str());
            (ResolverState::Authenticating, Action::Send(cmd))
        },
        None => (
            ResolverState::QueryingRole { master_seen: false },
            Action::Send(String::from_str("info replication")),
        ),
    }
}

/// Feeds one event to a resolution pass.
///
/// The new state follows `next_state`; the action tells the caller what
/// the pass needs next: the role query once AUTH is accepted, the server
/// query once the replication block ends with the master marker seen,
/// nothing more once the pass is finished, and the next reply line in
/// every other case.
pub fn step(state: ResolverState, event: Event) -> (r: (ResolverState, Action))
    ensures
        r.0 == next_state(state, event.as_line()),
        (r.1 is Stop) <==> (r.0 is Finished),
        (state is Authenticating && r.0 is QueryingRole) ==> (r.1 matches Action::Send(cmd)
            && cmd@ == spec_role_query()),
        (state is QueryingRole && r.0 is QueryingUptime) ==> (r.1 matches Action::Send(cmd)
            && cmd@ == spec_server_query()),
        (!(r.0 is Finished) && !(state is Authenticating && r.0 is QueryingRole) && !(state
            is QueryingRole && r.0 is QueryingUptime)) ==> (r.1 is Await),
{
    match state {
        ResolverState::Authenticating => match event {
            Event::Line(l) => {
                let ok = String::from_str("+OK");
                if l.eq(&ok) {
                    (
                        ResolverState::QueryingRole { master_seen: false },
                        Action::Send(String::from_str("info replication")),
                    )
                } else {
                    (
                        ResolverState::Finished(Ok(ReplicationVerdict::AuthRejected)),
                        Action::Stop,
                    )
                }
            },
            Event::Closed => (
                ResolverState::Finished(Ok(ReplicationVerdict::AuthRejected)),
                Action::Stop,
            ),
        },
        ResolverState::QueryingRole { master_seen } => match event {
            Event::Line(l) => {
                if l.as_str().unicode_len() == 0 {
                    if master_seen {
                        (
                            ResolverState::QueryingUptime,
                            Action::Send(String::from_str("info server")),
                        )
                    } else {
                        (
                            ResolverState::Finished(Ok(ReplicationVerdict::Unhealthy)),
                            Action::Stop,
                        )
                    }
                } else {
                    let master = String::from_str("role:master");
                    if l.eq(&master) {
                        (ResolverState::QueryingRole { master_seen: true }, Action::Await)
                    } else {
                        (ResolverState::QueryingRole { master_seen }, Action::Await)
                    }
                }
            },
            Event::Closed => (
                ResolverState::Finished(Err(ProbeError::ProtocolError)),
                Action::Stop,
            ),
        },
        ResolverState::QueryingUptime => match event {
            Event::Line(l) => {
                let prefix = String::from_str("uptime_in_seconds:");
                if str_starts_with(l.as_str(), prefix.as_str()) {
                    let plen = prefix.as_str().unicode_len();
                    let llen = l.as_str().unicode_len();
                    let rest = l.as_str().substring_char(plen, llen);
                    proof {
                        assert(rest@ =~= l@.skip(spec_uptime_prefix().len() as int));
                    }
                    let field = trim(rest);
                    match parse_u64(field.as_str()) {
                        Some(v) => {
                            if v > UPTIME_STABILITY_SECS {
                                (
                                    ResolverState::Finished(Ok(ReplicationVerdict::Healthy)),
                                    Action::Stop,
                                )
                            } else {
                                (
                                    ResolverState::Finished(Ok(ReplicationVerdict::Unhealthy)),
                                    Action::Stop,
                                )
                            }
                        },
                        None => (
                            ResolverState::Finished(Err(ProbeError::ParseError)),
                            Action::Stop,
                        ),
                    }
                } else if l.as_str().unicode_len() == 0 {
                    (
                        ResolverState::Finished(Ok(ReplicationVerdict::Unhealthy)),
                        Action::Stop,
                    )
                } else {
                    (ResolverState::QueryingUptime, Action::Await)
                }
            },
            Event::Closed => (
                ResolverState::Finished(Err(ProbeError::ProtocolError)),
                Action::Stop,
            ),
        },
        ResolverState::Finished(o) => (ResolverState::Finished(o), Action::Stop),
    }
}

/// The state a pass reaches from `s` after the events of `events`, in
/// order.
pub open spec fn run(s: ResolverState, events: Seq<Option<Seq<char>>>) -> ResolverState
    decreases events.len(),
{
    if events.len() == 0 {
        s
    } else {
        run(next_state(s, events.first()), events.drop_first())
    }
}

/// Running one more event from the end applies `next_state` last.
pub proof fn lemma_run_snoc(s: ResolverState, events: Seq<Option<Seq<char>>>, e: Option<Seq<char>>)
    ensures
        run(s, events.push(e)) == next_state(run(s, events), e),
    decreases events.len(),
{
    if events.len() == 0 {
        assert(events.push(e).first() == e);
        assert(events.push(e).drop_first() =~= Seq::<Option<Seq<char>>>::empty());
        assert(run(s, events.push(e)) == run(
            next_state(s, e),
            Seq::<Option<Seq<char>>>::empty(),
        ));
        assert(run(next_state(s, e), Seq::<Option<Seq<char>>>::empty()) == next_state(s, e));
        assert(run(s, events) == s);
    } else {
        assert(events.push(e).first() == events.first());
        assert(events.push(e).drop_first() =~= events.drop_first().push(e));
        lemma_run_snoc(next_state(s, events.first()), events.drop_first(), e);
        assert(run(s, events.push(e)) == run(
            next_state(s, events.first()),
            events.drop_first().push(e),
        ));
        assert(run(s, events) == run(next_state(s, events.first()), events.drop_first()));
    }
}

/// A finished pass is terminal: no further reply line and no closing of
/// the stream changes its outcome. One pass yields at most one verdict,
/// and its connection serves no later resolution.
pub proof fn lemma_finished_is_terminal(
    o: Result<ReplicationVerdict, ProbeError>,
    events: Seq<Option<Seq<char>>>,
)
    ensures
        run(ResolverState::Finished(o), events) == ResolverState::Finished(o),
    decreases events.len(),
{
    if events.len() > 0 {
        lemma_finished_is_terminal(o, events.drop_first());
    }
}

/// Whatever password is configured, an AUTH reply that is not exactly
/// "+OK" — or a stream that closed instead of replying — finishes the
/// pass as AuthRejected, answered with HTTP 503. The role query is never
/// reached.
pub proof fn lemma_auth_rejected(e: Option<Seq<char>>)
    requires
        e matches Some(l) ==> l != spec_ok_reply(),
    ensures
        next_state(ResolverState::Authenticating, e) == ResolverState::Finished(Ok::<
            ReplicationVerdict,
            ProbeError,
        >(ReplicationVerdict::AuthRejected)),
        spec_status_of(Ok(ReplicationVerdict::AuthRejected)) == 503,
{
}

/// When no line of the replication block before its blank sentinel is
/// exactly "role:master", the pass concludes Unhealthy at the sentinel,
/// whatever any uptime would have said, answered with HTTP 503.
pub proof fn lemma_no_master_is_unhealthy(lines: Seq<Seq<char>>, i: int)
    requires
        0 <= i < lines.len(),
        lines[i].len() == 0,
        forall|j: int|
            0 <= j < i ==> (#[trigger] lines[j]).len() != 0 && lines[j] != spec_role_master(),
    ensures
        run(
            ResolverState::QueryingRole { master_seen: false },
            lines.take(i + 1).map_values(|l: Seq<char>| Some(l)),
        ) == ResolverState::Finished(Ok::<ReplicationVerdict, ProbeError>(
            ReplicationVerdict::Unhealthy,
        )),
        spec_status_of(Ok(ReplicationVerdict::Unhealthy)) == 503,
    decreases i,
{
    let evs = lines.take(i + 1).map_values(|l: Seq<char>| Some(l));
    let role = ResolverState::QueryingRole { master_seen: false };
    let unhealthy = ResolverState::Finished(Ok::<ReplicationVerdict, ProbeError>(
        ReplicationVerdict::Unhealthy,
    ));
    assert(evs.len() == i + 1);
    if i == 0 {
        assert(evs.first() == Some(lines[0]));
        assert(next_state(role, Some(lines[0])) == unhealthy);
        assert(evs.drop_first() =~= Seq::<Option<Seq<char>>>::empty());
        assert(run(role, evs) == run(unhealthy, evs.drop_first()));
        assert(run(unhealthy, Seq::<Option<Seq<char>>>::empty()) == unhealthy);
    } else {
        let rest = lines.drop_first();
        assert(rest[i - 1].len() == 0);
        assert(forall|j: int|
            0 <= j < i - 1 ==> (#[trigger] rest[j]).len() != 0 && rest[j] != spec_role_master());
        lemma_no_master_is_unhealthy(rest, i - 1);
        assert(evs.first() == Some(lines[0]));
        assert(lines[0].len() != 0 && lines[0] != spec_role_master());
        assert(next_state(role, Some(lines[0])) == role);
        assert(evs.drop_first() =~= rest.take(i).map_values(|l: Seq<char>| Some(l)));
        assert(run(role, evs) == run(role, evs.drop_first()));
    }
}

/// For a node whose replication block carried the master marker, the
/// uptime field decides: strictly above the stability threshold is
/// Healthy, answered with HTTP 200; at or below it is Unhealthy,
/// answered with HTTP 503.
pub proof fn lemma_uptime_gate(l: Seq<char>)
    requires
        has_uptime_prefix(l),
        parses_as_u64(uptime_field(l)),
    ensures
        digits_value(uptime_field(l)) > UPTIME_STABILITY_SECS ==> (next_state(
            ResolverState::QueryingUptime,
            Some(l),
        ) == ResolverState::Finished(Ok::<ReplicationVerdict, ProbeError>(
            ReplicationVerdict::Healthy,
        )) && spec_status_of(Ok(ReplicationVerdict::Healthy)) == 200),
        digits_value(uptime_field(l)) <= UPTIME_STABILITY_SECS ==> (next_state(
            ResolverState::QueryingUptime,
            Some(l),
        ) == ResolverState::Finished(Ok::<ReplicationVerdict, ProbeError>(
            ReplicationVerdict::Unhealthy,
        )) && spec_status_of(Ok(ReplicationVerdict::Unhealthy)) == 503),
{
}

/// An uptime field that does not hold a number finishes the pass as
/// ParseError, answered with HTTP 503 — never a crash.
pub proof fn lemma_malformed_uptime(l: Seq<char>)
    requires
        has_uptime_prefix(l),
        !parses_as_u64(uptime_field(l)),
    ensures
        next_state(ResolverState::QueryingUptime, Some(l)) == ResolverState::Finished(Err::<
            ReplicationVerdict,
            ProbeError,
        >(ProbeError::ParseError)),
        spec_status_of(Err(ProbeError::ParseError)) == 503,
{
}

/// The events of a scripted exchange: every reply line in order, then
/// the stream closing.
pub open spec fn script_events(replies: Seq<Seq<char>>) -> Seq<Option<Seq<char>>> {
    replies.map_values(|l: Seq<char>| Some(l)).push(None)
}

/// Resolves against a scripted target: feeds each reply line in order,
/// then the end of the stream. The outcome is exactly what `run`
/// concludes over those events.
pub fn resolve_script(pass: &Option<String>, replies: &Vec<String>) -> (r: Result<
    ReplicationVerdict,
    ProbeError,
>)
    ensures
        ResolverState::Finished(r) == run(start_state(pass is Some), script_events(replies.deep_view())),
{
    let (first_state, _action) = start(pass);
    let ghost s0 = start_state(pass is Some);
    let ghost evs = replies.deep_view().map_values(|l: Seq<char>| Some(l));
    let mut state = first_state;
    let mut idx: usize = 0;
    while idx < replies.len()
        invariant
            0 <= idx <= replies.len(),
            evs == replies.deep_view().map_values(|l: Seq<char>| Some(l)),
            evs.len() == replies.len(),
            state == run(s0, evs.take(idx as int)),
        decreases replies.len() - idx,
    {
        let ev = Event::Line(replies[idx].clone());
        proof {
            lemma_run_snoc(s0, evs.take(idx as int), evs[idx as int]);
            assert(evs.take(idx + 1) =~= evs.take(idx as int).push(evs[idx as int]));
            assert(ev.as_line() == evs[idx as int]);
        }
        let (next, _act) = step(state, ev);
        state = next;
        idx = idx + 1;
    }
    proof {
        assert(evs.take(replies.len() as int) =~= evs);
        lemma_run_snoc(s0, evs, None);
        assert(script_events(replies.deep_view()) == evs.push(None::<Seq<char>>));
    }
    let (last, _act) = step(state, Event::Closed);
    match last {
        ResolverState::Finished(o) => o,
        // A closed stream always finishes the pass; this arm cannot be
        // reached.
        _ => Err(ProbeError::ProtocolError),
    }
}

} // verus!
