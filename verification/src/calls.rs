//! The calls of the bridge as mathematical values, and how they change.

use vstd::prelude::*;

verus! {

/// An established call between SIP and Mumble.
#[derive(Debug)]
pub struct CallSession {
    /// The address of the call's media port.
    pub port: usize,
    pub current_channel_id: u32,
    /// The highest channel known at login.
    pub max_channel_id: u32,
    pub caller_number: Option<String>,
    /// The Mumble server of the call.
    pub server_host: String,
}

/// One attempt to set up a call. The generation tells it from other attempts under
/// the same call number.
#[derive(Clone, Copy, Debug, PartialEq, Eq, Structural)]
pub struct SetupTicket {
    pub call_id: i32,
    pub generation: u64,
    /// The address of the call's media port.
    pub port: usize,
}

/// The calls of the bridge.
#[verifier::ext_equal]
pub ghost struct Calls {
    pub sessions: Map<i32, CallSession>,
    /// The generations of the attempts that own call numbers.
    pub pending: Map<i32, u64>,
    /// The generations of attempts whose callers are gone.
    pub cancelled: Set<u64>,
    /// The next generation.
    pub next: u64,
}

/// No calls.
pub open spec fn no_calls() -> Calls {
    Calls { sessions: Map::empty(), pending: Map::empty(), cancelled: Set::empty(), next: 0 }
}

/// The calls that count toward the limit.
pub open spec fn load(c: Calls) -> nat {
    c.sessions.len() + c.pending.len()
}

/// The generation that is given out `k` setups after this one.
pub open spec fn generation_after(generation: u64, k: nat) -> int {
    (generation + k) % 0x1_0000_0000_0000_0000
}

/// The attempt owns the call number.
pub open spec fn owns(c: Calls, call_id: i32, generation: u64) -> bool {
    c.pending.contains_key(call_id) && c.pending[call_id] == generation
}

/// A setup begins. It takes the call number over.
pub open spec fn begun(c: Calls, call_id: i32) -> Calls {
    Calls {
        pending: c.pending.insert(call_id, c.next),
        next: generation_after(c.next, 1) as u64,
        ..c
    }
}

/// An attempt gives up the call number, where it owns it.
pub open spec fn released(c: Calls, call_id: i32, generation: u64) -> Calls {
    Calls {
        pending: if owns(c, call_id, generation) {
            c.pending.remove(call_id)
        } else {
            c.pending
        },
        ..c
    }
}

/// The attempt that owns the call number is cancelled. It keeps the number.
pub open spec fn cancelled(c: Calls, call_id: i32) -> Calls {
    Calls {
        cancelled: if c.pending.contains_key(call_id) {
            c.cancelled.insert(c.pending[call_id])
        } else {
            c.cancelled
        },
        ..c
    }
}

/// An attempt ends without a session.
pub open spec fn aborted(c: Calls, call_id: i32, generation: u64) -> Calls {
    Calls { cancelled: c.cancelled.remove(generation), ..released(c, call_id, generation) }
}

/// An attempt ends. It becomes a session unless its caller is gone.
pub open spec fn finished(c: Calls, call_id: i32, generation: u64, session: CallSession) -> Calls {
    if c.cancelled.contains(generation) {
        aborted(c, call_id, generation)
    } else {
        Calls {
            sessions: c.sessions.insert(call_id, session),
            ..aborted(c, call_id, generation)
        }
    }
}

/// A caller hung up. A session ends; without one, the setup is cancelled.
pub open spec fn ended(c: Calls, call_id: i32) -> Calls {
    if c.sessions.contains_key(call_id) {
        Calls { sessions: c.sessions.remove(call_id), ..c }
    } else {
        cancelled(c, call_id)
    }
}

/// A session moved to a channel.
pub open spec fn moved(c: Calls, call_id: i32, channel_id: u32) -> Calls {
    Calls {
        sessions: if c.sessions.contains_key(call_id) {
            c.sessions.insert(
                call_id,
                CallSession { current_channel_id: channel_id, ..c.sessions[call_id] },
            )
        } else {
            c.sessions
        },
        ..c
    }
}

/// Something that happens to the calls.
pub ghost enum Change {
    Begin { call_id: i32 },
    Release { call_id: i32, generation: u64 },
    Abort { call_id: i32, generation: u64 },
    Finish { call_id: i32, generation: u64, session: CallSession },
    End { call_id: i32 },
    Move { call_id: i32, channel_id: u32 },
}

/// The calls after a change.
pub open spec fn changed(c: Calls, change: Change) -> Calls {
    match change {
        Change::Begin { call_id } => begun(c, call_id),
        Change::Release { call_id, generation } => released(c, call_id, generation),
        Change::Abort { call_id, generation } => aborted(c, call_id, generation),
        Change::Finish { call_id, generation, session } => finished(
            c,
            call_id,
            generation,
            session,
        ),
        Change::End { call_id } => ended(c, call_id),
        Change::Move { call_id, channel_id } => moved(c, call_id, channel_id),
    }
}

/// The calls after several changes.
pub open spec fn history(c: Calls, changes: Seq<Change>) -> Calls
    decreases changes.len(),
{
    if changes.len() == 0 {
        c
    } else {
        changed(history(c, changes.drop_last()), changes.last())
    }
}

/// The call number that a change is about.
pub open spec fn subject(change: Change) -> i32 {
    match change {
        Change::Begin { call_id } => call_id,
        Change::Release { call_id, .. } => call_id,
        Change::Abort { call_id, .. } => call_id,
        Change::Finish { call_id, .. } => call_id,
        Change::End { call_id } => call_id,
        Change::Move { call_id, .. } => call_id,
    }
}

/// A change ends the attempt of this generation.
pub open spec fn concludes(change: Change, generation: u64) -> bool {
    match change {
        Change::Abort { generation: g, .. } => g == generation,
        Change::Finish { generation: g, .. } => g == generation,
        _ => false,
    }
}

/// A session's channel lies within those known at login.
pub open spec fn within_channels(c: Calls) -> bool {
    forall|id: i32| #[trigger]
        c.sessions.contains_key(id) ==> c.sessions[id].current_channel_id
            <= c.sessions[id].max_channel_id
}

/// The channel that a key leads to: `*` to the one before, `#` to the one after,
/// never below the first nor beyond the last.
pub open spec fn navigated(current: u32, max: u32, digit: char) -> Option<u32> {
    if digit == '*' {
        Some(
            if current == 0 {
                0
            } else {
                (current - 1) as u32
            },
        )
    } else if digit == '#' {
        Some(
            if current < max {
                (current + 1) as u32
            } else {
                max
            },
        )
    } else {
        None
    }
}

/// A change leaves every call under another number as it was.
pub proof fn law_changes_are_per_call(c: Calls, change: Change, other: i32)
    requires
        other != subject(change),
    ensures
        changed(c, change).sessions.contains_key(other) == c.sessions.contains_key(other),
        c.sessions.contains_key(other) ==> changed(c, change).sessions[other] == c.sessions[other],
        changed(c, change).pending.contains_key(other) == c.pending.contains_key(other),
        c.pending.contains_key(other) ==> changed(c, change).pending[other] == c.pending[other],
{
}

/// An attempt that lost its call number to a newer one neither takes the number
/// from it nor cancels it, however the attempt ends.
pub proof fn law_stale_setup_spares_the_newer_one(
    c: Calls,
    call_id: i32,
    stale: u64,
    newer: u64,
    session: CallSession,
)
    requires
        owns(c, call_id, newer),
        stale != newer,
    ensures
        released(c, call_id, stale) == c,
        owns(aborted(c, call_id, stale), call_id, newer),
        owns(finished(c, call_id, stale, session), call_id, newer),
        aborted(c, call_id, stale).cancelled.contains(newer) == c.cancelled.contains(newer),
        finished(c, call_id, stale, session).cancelled.contains(newer) == c.cancelled.contains(
            newer,
        ),
        aborted(c, call_id, stale).sessions == c.sessions,
        c.cancelled.contains(stale) ==> finished(c, call_id, stale, session).sessions
            == c.sessions,
{
    assert(released(c, call_id, stale) == c);
}

/// Cancelling a setup leaves it the owner of its call number, and it still counts
/// toward the limit.
pub proof fn law_cancelling_keeps_the_entry(c: Calls, call_id: i32, generation: u64)
    requires
        owns(c, call_id, generation),
    ensures
        owns(cancelled(c, call_id), call_id, generation),
        cancelled(c, call_id).cancelled.contains(generation),
        load(cancelled(c, call_id)) == load(c),
{
}

/// A cancellation lasts until the attempt ends, whatever else happens.
pub proof fn law_cancellation_lasts(c: Calls, generation: u64, changes: Seq<Change>)
    requires
        c.cancelled.contains(generation),
        forall|i: int| 0 <= i < changes.len() ==> !concludes(#[trigger] changes[i], generation),
    ensures
        history(c, changes).cancelled.contains(generation),
    decreases changes.len(),
{
    if changes.len() > 0 {
        let earlier = changes.drop_last();
        assert forall|i: int| 0 <= i < earlier.len() implies !concludes(
            #[trigger] earlier[i],
            generation,
        ) by {
            assert(earlier[i] == changes[i]);
        }
        law_cancellation_lasts(c, generation, earlier);
        assert(!concludes(changes[changes.len() - 1], generation));
    }
}

/// A setup whose caller hung up never becomes a session, whatever happens in
/// between.
pub proof fn law_abandoned_setup_never_becomes_a_session(
    c: Calls,
    call_id: i32,
    generation: u64,
    changes: Seq<Change>,
    session: CallSession,
)
    requires
        owns(c, call_id, generation),
        !c.sessions.contains_key(call_id),
        forall|i: int| 0 <= i < changes.len() ==> !concludes(#[trigger] changes[i], generation),
    ensures
        ({
            let d = history(ended(c, call_id), changes);
            finished(d, call_id, generation, session).sessions == d.sessions
        }),
{
    law_cancellation_lasts(ended(c, call_id), generation, changes);
}

/// A setup that runs to its end undisturbed becomes a session, and the end of the
/// call leaves no trace of it.
pub proof fn law_call_leaves_no_trace(c: Calls, call_id: i32, session: CallSession)
    requires
        !c.sessions.contains_key(call_id),
        !c.pending.contains_key(call_id),
        !c.cancelled.contains(c.next),
    ensures
        ({
            let d = finished(begun(c, call_id), call_id, c.next, session);
            &&& d.sessions == c.sessions.insert(call_id, session)
            &&& d.pending == c.pending
            &&& d.cancelled == c.cancelled
            &&& ended(d, call_id).sessions == c.sessions
            &&& ended(d, call_id).pending == c.pending
            &&& ended(d, call_id).cancelled == c.cancelled
        }),
{
    let b = begun(c, call_id);
    let d = finished(b, call_id, c.next, session);
    assert(b.pending.remove(call_id) == c.pending);
    assert(c.cancelled.remove(c.next) == c.cancelled);
    assert(d.sessions.remove(call_id) == c.sessions);
}

/// Attempts get different generations, until the counter comes round.
pub proof fn law_generations_differ(generation: u64, k: nat)
    requires
        0 < k < 0x1_0000_0000_0000_0000,
    ensures
        generation_after(generation, k) != generation,
{
}

/// A setup begun below the limit keeps the bridge within it.
pub proof fn law_admitted_call_keeps_the_limit(c: Calls, call_id: i32, max: nat)
    requires
        c.pending.dom().finite(),
        load(c) < max,
    ensures
        load(begun(c, call_id)) <= max,
{
}

/// The keys never lead beyond the highest channel known at login.
pub proof fn law_navigation_stays_within_channels(c: Calls, call_id: i32, digit: char)
    requires
        within_channels(c),
        c.sessions.contains_key(call_id),
        digit == '*' || digit == '#',
    ensures
        navigated(
            c.sessions[call_id].current_channel_id,
            c.sessions[call_id].max_channel_id,
            digit,
        ) matches Some(channel_id) && within_channels(moved(c, call_id, channel_id)),
{
    let s = c.sessions[call_id];
    let channel_id = navigated(s.current_channel_id, s.max_channel_id, digit)->0;
    let d = moved(c, call_id, channel_id);
    assert forall|id: i32| #[trigger] d.sessions.contains_key(id) implies d.sessions[id]
        .current_channel_id <= d.sessions[id].max_channel_id by {
        assert(c.sessions.contains_key(id));
    }
}

/// Away from the first and the last channel, each key undoes the other.
pub proof fn law_keys_undo_each_other(current: u32, max: u32)
    requires
        current <= max,
    ensures
        current > 0 ==> navigated(navigated(current, max, '*')->0, max, '#') == Some(current),
        current < max ==> navigated(navigated(current, max, '#')->0, max, '*') == Some(current),
{
}

} // verus!
