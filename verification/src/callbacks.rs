//! What the SIP stack reports, and the media ports it holds.

use crate::spoken_laws::lemma_trim_padded;
use crate::text::{chars_of, is_space, string_of, trim, trimmed, CharClass};
use std::collections::HashMap;
use vstd::prelude::*;

verus! {

broadcast use vstd::std_specs::hash::group_hash_axioms;

/// The state number of a call that has ended.
pub const STATE_DISCONNECTED: u32 = 6;

/// What the SIP stack reports.
#[derive(Debug)]
pub enum SipEvent {
    IncomingCall {
        acc_id: i32,
        call_id: i32,
        /// The server asked for in the `X-Mumble-Server` header.
        mumble_server: Option<String>,
        caller_number: Option<String>,
    },
    CallStateChanged { call_id: i32, state: u32 },
    CallMediaStateChanged { call_id: i32 },
    DtmfDigit { call_id: i32, digit: char },
}

/// What the bridge does about an event.
#[derive(Debug)]
pub enum CallAction {
    SetUp { call_id: i32, mumble_server: Option<String>, caller_number: Option<String> },
    TearDown { call_id: i32 },
    Press { call_id: i32, digit: char },
    /// Nothing.
    Wait,
    /// The SIP stack is gone: leave the loop.
    Leave,
}

/// The action for an event while the bridge takes calls. No event means that the
/// SIP stack is gone.
pub open spec fn action_for(event: Option<SipEvent>) -> CallAction {
    match event {
        None => CallAction::Leave,
        Some(SipEvent::IncomingCall { call_id, mumble_server, caller_number, .. }) =>
            CallAction::SetUp { call_id, mumble_server, caller_number },
        Some(SipEvent::CallStateChanged { call_id, state }) => if state == STATE_DISCONNECTED {
            CallAction::TearDown { call_id }
        } else {
            CallAction::Wait
        },
        Some(SipEvent::CallMediaStateChanged { .. }) => CallAction::Wait,
        Some(SipEvent::DtmfDigit { call_id, digit }) => CallAction::Press { call_id, digit },
    }
}

/// The action for an event while the bridge shuts down: calls may still end, and
/// nothing else happens any more.
pub open spec fn last_action_for(event: Option<SipEvent>) -> CallAction {
    match action_for(event) {
        CallAction::SetUp { .. } => CallAction::Wait,
        CallAction::Press { .. } => CallAction::Wait,
        action => action,
    }
}

/// Decides what to do about an event.
pub fn action_on(event: Option<SipEvent>) -> (r: CallAction)
    ensures
        r == action_for(event),
{
    match event {
        None => CallAction::Leave,
        Some(SipEvent::IncomingCall { acc_id: _, call_id, mumble_server, caller_number }) =>
            CallAction::SetUp { call_id, mumble_server, caller_number },
        Some(SipEvent::CallStateChanged { call_id, state }) => if state == STATE_DISCONNECTED {
            CallAction::TearDown { call_id }
        } else {
            CallAction::Wait
        },
        Some(SipEvent::CallMediaStateChanged { call_id: _ }) => CallAction::Wait,
        Some(SipEvent::DtmfDigit { call_id, digit }) => CallAction::Press { call_id, digit },
    }
}

/// Decides what to do about an event during shutdown.
pub fn last_action_on(event: Option<SipEvent>) -> (r: CallAction)
    ensures
        r == last_action_for(event),
{
    match action_on(event) {
        CallAction::SetUp { call_id: _, mumble_server: _, caller_number: _ } => CallAction::Wait,
        CallAction::Press { call_id: _, digit: _ } => CallAction::Wait,
        action => action,
    }
}

/// The text that bytes decode to, with invalid UTF-8 replaced.
pub uninterp spec fn lossy_text(bytes: Seq<u8>) -> Seq<char>;

/// Calls `String::from_utf8_lossy`. Its result is a function of the bytes and is
/// only named here.
#[verifier::external_body]
fn decode_lossy(bytes: &[u8]) -> (r: String)
    ensures
        r@ == lossy_text(bytes@),
{
    String::from_utf8_lossy(bytes).into_owned()
}

/// The text without the white space around it.
pub fn trimmed_text(text: &str) -> (r: String)
    ensures
        r@ == trim(text@, CharClass::Space),
{
    let chars = chars_of(text);
    string_of(trimmed(chars.as_slice(), CharClass::Space))
}

/// The value read from the bytes of a header.
pub open spec fn header_read(raw: Option<Seq<u8>>, r: Option<String>) -> bool {
    match raw {
        None => r is None,
        Some(bytes) => if bytes.len() == 0 {
            r is None
        } else {
            r matches Some(text) && text@ == trim(lossy_text(bytes), CharClass::Space)
        },
    }
}

/// The value of a SIP header, given its bytes. A header that is missing or empty
/// has none.
pub fn header_value(raw: Option<&[u8]>) -> (r: Option<String>)
    ensures
        header_read(
            match raw {
                Some(bytes) => Some(bytes@),
                None => None,
            },
            r,
        ),
{
    match raw {
        None => None,
        Some(bytes) => {
            let len: usize = bytes.len();
            if len == 0 {
                None
            } else {
                Some(trimmed_text(decode_lossy(bytes).as_str()))
            }
        },
    }
}

/// The place of a call's media port on the conference bridge. Pools and ports are
/// known by their addresses.
#[derive(Clone, Copy, Debug, PartialEq, Eq, Structural)]
pub struct ActiveMedia {
    pub conf_port_id: i32,
    pub pool: usize,
}

/// What is to be freed once a port has left the conference bridge.
#[derive(Clone, Copy, Debug, PartialEq, Eq, Structural)]
pub struct PortCleanup {
    pub port: usize,
    pub pool: Option<usize>,
}

/// How a media port is disposed of.
#[derive(Clone, Copy, Debug, PartialEq, Eq, Structural)]
pub enum CleanupStep {
    /// Destroy the port now: it was never on the conference bridge.
    Destroy { port: usize },
    /// Destroy the port after a while: something may still refer to it.
    Defer(PortCleanup),
    /// Ask for the port's removal from the conference bridge. What to free then is
    /// registered.
    Remove { conf_port_id: i32 },
    /// Leave the port alone.
    Leave,
}

/// The media ports by the calls they were made for.
pub struct MediaRegistry {
    /// Ports that wait for their calls' media.
    pub pending_ports: HashMap<i32, usize>,
    /// Ports on the conference bridge.
    pub active_media: HashMap<i32, ActiveMedia>,
    /// What to free by places on the conference bridge.
    pub pending_cleanup: HashMap<i32, PortCleanup>,
}

impl MediaRegistry {
    pub fn new() -> (r: Self)
        ensures
            r.pending_ports@ == Map::<i32, usize>::empty(),
            r.active_media@ == Map::<i32, ActiveMedia>::empty(),
            r.pending_cleanup@ == Map::<i32, PortCleanup>::empty(),
    {
        MediaRegistry {
            pending_ports: HashMap::new(),
            active_media: HashMap::new(),
            pending_cleanup: HashMap::new(),
        }
    }

    /// Nothing differs.
    pub open spec fn same(&self, other: &Self) -> bool {
        &&& self.pending_ports@ == other.pending_ports@
        &&& self.active_media@ == other.active_media@
        &&& self.pending_cleanup@ == other.pending_cleanup@
    }

    /// Keeps a port until its call's media starts.
    pub fn register_pending_port(&mut self, call_id: i32, port: usize)
        ensures
            final(self).pending_ports@ == old(self).pending_ports@.insert(call_id, port),
            final(self).active_media@ == old(self).active_media@,
            final(self).pending_cleanup@ == old(self).pending_cleanup@,
    {
        self.pending_ports.insert(call_id, port);
    }

    /// Takes the port that waits for a call's media.
    pub fn unregister_pending_port(&mut self, call_id: i32) -> (r: Option<usize>)
        ensures
            r == old(self).pending_ports@.get(call_id),
            final(self).pending_ports@ == old(self).pending_ports@.remove(call_id),
            final(self).active_media@ == old(self).active_media@,
            final(self).pending_cleanup@ == old(self).pending_cleanup@,
    {
        self.pending_ports.remove(&call_id)
    }

    /// Records that a call's port is on the conference bridge.
    pub fn register_active_media(&mut self, call_id: i32, media: ActiveMedia)
        ensures
            final(self).active_media@ == old(self).active_media@.insert(call_id, media),
            final(self).pending_ports@ == old(self).pending_ports@,
            final(self).pending_cleanup@ == old(self).pending_cleanup@,
    {
        self.active_media.insert(call_id, media);
    }

    /// Takes the place of a call's port on the conference bridge.
    pub fn take_active_media(&mut self, call_id: i32) -> (r: Option<ActiveMedia>)
        ensures
            r == old(self).active_media@.get(call_id),
            final(self).active_media@ == old(self).active_media@.remove(call_id),
            final(self).pending_ports@ == old(self).pending_ports@,
            final(self).pending_cleanup@ == old(self).pending_cleanup@,
    {
        self.active_media.remove(&call_id)
    }

    /// Records what to free once a place on the conference bridge is empty.
    pub fn register_pending_cleanup(&mut self, conf_port_id: i32, cleanup: PortCleanup)
        ensures
            final(self).pending_cleanup@ == old(self).pending_cleanup@.insert(
                conf_port_id,
                cleanup,
            ),
            final(self).pending_ports@ == old(self).pending_ports@,
            final(self).active_media@ == old(self).active_media@,
    {
        self.pending_cleanup.insert(conf_port_id, cleanup);
    }

    /// Takes what to free for a place on the conference bridge.
    pub fn take_pending_cleanup(&mut self, conf_port_id: i32) -> (r: Option<PortCleanup>)
        ensures
            r == old(self).pending_cleanup@.get(conf_port_id),
            final(self).pending_cleanup@ == old(self).pending_cleanup@.remove(conf_port_id),
            final(self).pending_ports@ == old(self).pending_ports@,
            final(self).active_media@ == old(self).active_media@,
    {
        self.pending_cleanup.remove(&conf_port_id)
    }

    /// A port leaves the conference bridge: its call's place is given up, and what
    /// to free is kept by the place.
    pub open spec fn leaves_bridge(&self, before: &Self, call_id: i32, port: usize) -> bool {
        &&& self.active_media@ == before.active_media@.remove(call_id)
        &&& self.pending_cleanup@ == match before.active_media@.get(call_id) {
            Some(media) => before.pending_cleanup@.insert(
                media.conf_port_id,
                PortCleanup { port, pool: Some(media.pool) },
            ),
            None => before.pending_cleanup@,
        }
    }

    /// Starts to remove a call's port from the conference bridge, where it is on it.
    pub fn leave_bridge(&mut self, call_id: i32, port: usize) -> (r: Option<i32>)
        ensures
            final(self).pending_ports@ == old(self).pending_ports@,
            final(self).leaves_bridge(old(self), call_id, port),
            match old(self).active_media@.get(call_id) {
                Some(media) => r == Some(media.conf_port_id),
                None => r is None,
            },
    {
        match self.take_active_media(call_id) {
            Some(media) => {
                self.register_pending_cleanup(
                    media.conf_port_id,
                    PortCleanup { port, pool: Some(media.pool) },
                );
                Some(media.conf_port_id)
            },
            None => None,
        }
    }

    /// The port of a call whose setup was given up is disposed of. Where the setup no
    /// longer owns the call, nothing kept for the call is touched. A port is
    /// destroyed at once only if it still waited for its call's media.
    pub open spec fn disposes(
        &self,
        before: &Self,
        call_id: i32,
        port: usize,
        owns_call: bool,
        step: CleanupStep,
    ) -> bool {
        if !owns_call {
            self.same(before) && step == CleanupStep::Defer(PortCleanup { port, pool: None })
        } else {
            &&& self.pending_ports@ == before.pending_ports@.remove(call_id)
            &&& if before.pending_ports@.contains_key(call_id) {
                &&& step == CleanupStep::Destroy { port }
                &&& self.active_media@ == before.active_media@.remove(call_id)
                &&& self.pending_cleanup@ == before.pending_cleanup@
            } else {
                &&& self.leaves_bridge(before, call_id, port)
                &&& step == match before.active_media@.get(call_id) {
                    Some(media) => CleanupStep::Remove { conf_port_id: media.conf_port_id },
                    None => CleanupStep::Defer(PortCleanup { port, pool: None }),
                }
            }
        }
    }

    /// Disposes of the port of a call whose setup was given up. What is kept for the
    /// call is touched only where the setup still owns the call.
    pub fn cleanup_media_port(&mut self, call_id: i32, port: usize, owns_call: bool) -> (r:
        CleanupStep)
        ensures
            final(self).disposes(old(self), call_id, port, owns_call, r),
    {
        if !owns_call {
            return CleanupStep::Defer(PortCleanup { port, pool: None });
        }
        if self.unregister_pending_port(call_id).is_some() {
            self.take_active_media(call_id);
            return CleanupStep::Destroy { port };
        }
        match self.leave_bridge(call_id, port) {
            Some(conf_port_id) => CleanupStep::Remove { conf_port_id },
            None => CleanupStep::Defer(PortCleanup { port, pool: None }),
        }
    }

    /// An attempt to remove a port from the conference bridge is followed up. Where it
    /// failed, what was to be freed is given up and freed after a while.
    pub open spec fn settles_removal(
        &self,
        before: &Self,
        conf_port_id: i32,
        status: i32,
        step: CleanupStep,
    ) -> bool {
        &&& self.pending_ports@ == before.pending_ports@
        &&& self.active_media@ == before.active_media@
        &&& status == 0 ==> step is Leave && self.pending_cleanup@ == before.pending_cleanup@
        &&& status != 0 ==> {
            &&& self.pending_cleanup@ == before.pending_cleanup@.remove(conf_port_id)
            &&& step == match before.pending_cleanup@.get(conf_port_id) {
                Some(cleanup) => CleanupStep::Defer(cleanup),
                None => CleanupStep::Leave,
            }
        }
    }

    /// Decides after an attempt to remove a port from the conference bridge. Where
    /// it failed, nobody will report the removal, and the port is freed after a
    /// while.
    pub fn after_removal(&mut self, conf_port_id: i32, status: i32) -> (r: CleanupStep)
        ensures
            final(self).settles_removal(old(self), conf_port_id, status, r),
    {
        if status == 0 {
            return CleanupStep::Leave;
        }
        match self.take_pending_cleanup(conf_port_id) {
            Some(cleanup) => CleanupStep::Defer(cleanup),
            None => CleanupStep::Leave,
        }
    }
}

/// A port is disposed of in one way. One whose setup no longer owns the call is freed
/// later, and nothing kept for the call is touched. One that still waits for its call's
/// media is destroyed. One on the conference bridge is removed from its place there, and
/// is freed, with its pool, once the place is empty. Any other is freed later. What is
/// kept for other calls stays.
pub proof fn law_ports_are_disposed_of_in_one_way(
    before: &MediaRegistry,
    after: &MediaRegistry,
    call_id: i32,
    other: i32,
    port: usize,
    owns_call: bool,
    step: CleanupStep,
)
    requires
        after.disposes(before, call_id, port, owns_call, step),
        other != call_id,
    ensures
        ({
            let waits = before.pending_ports@.contains_key(call_id);
            let on_bridge = before.active_media@.contains_key(call_id);
            let later = CleanupStep::Defer(PortCleanup { port, pool: None });
            &&& !owns_call ==> step == later && after.same(before)
            &&& owns_call ==> {
                &&& !after.pending_ports@.contains_key(call_id)
                &&& !after.active_media@.contains_key(call_id)
                &&& step is Destroy <==> waits
                &&& step is Remove <==> !waits && on_bridge
                &&& waits ==> step == CleanupStep::Destroy { port }
                &&& !waits && !on_bridge ==> step == later
                &&& !waits && on_bridge ==> {
                    let media = before.active_media@[call_id];
                    &&& step == CleanupStep::Remove { conf_port_id: media.conf_port_id }
                    &&& after.pending_cleanup@.contains_key(media.conf_port_id)
                    &&& after.pending_cleanup@[media.conf_port_id] == (PortCleanup {
                        port,
                        pool: Some(media.pool),
                    })
                }
            }
            &&& !(step is Remove) ==> after.pending_cleanup@ == before.pending_cleanup@
            &&& after.pending_ports@.get(other) == before.pending_ports@.get(other)
            &&& after.active_media@.get(other) == before.active_media@.get(other)
        }),
{
}

/// What was to be freed for a place on the conference bridge is freed once: on the report
/// of its removal where the removal was accepted, and otherwise later, without such a
/// report. Other places keep theirs.
pub proof fn law_removed_ports_are_freed_once(
    before: &MediaRegistry,
    after: &MediaRegistry,
    conf_port_id: i32,
    other: i32,
    status: i32,
    cleanup: PortCleanup,
    step: CleanupStep,
)
    requires
        before.pending_cleanup@.contains_key(conf_port_id),
        before.pending_cleanup@[conf_port_id] == cleanup,
        after.settles_removal(before, conf_port_id, status, step),
        other != conf_port_id,
    ensures
        status == 0 ==> step is Leave && after.pending_cleanup@.get(conf_port_id) == Some(cleanup),
        status != 0 ==> step == CleanupStep::Defer(cleanup) && !after.pending_cleanup@.contains_key(
            conf_port_id,
        ),
        after.pending_cleanup@.get(other) == before.pending_cleanup@.get(other),
        after.active_media@ == before.active_media@,
        after.pending_ports@ == before.pending_ports@,
{
}

/// A header has a value exactly where it is there and is not empty. The value is its text,
/// without the white space around it.
pub proof fn law_headers_are_read_without_padding(
    raw: Option<Seq<u8>>,
    r: Option<String>,
    before: Seq<char>,
    core: Seq<char>,
    after: Seq<char>,
)
    requires
        header_read(raw, r),
        forall|i: int| 0 <= i < before.len() ==> is_space(#[trigger] before[i]),
        forall|i: int| 0 <= i < after.len() ==> is_space(#[trigger] after[i]),
        core.len() > 0 ==> !is_space(core[0]) && !is_space(core.last()),
    ensures
        r is Some <==> raw is Some && raw->0.len() > 0,
        r is Some && lossy_text(raw->0) == before + core + after ==> r->0@ == core,
{
    lemma_trim_padded(before, core, after);
}

} // verus!
