//! The life of a call: admission, setup, keys and teardown.

use crate::callbacks::{CleanupStep, MediaRegistry, PortCleanup};
use crate::calls::{
    aborted, begun, cancelled, ended, finished, load, moved, navigated, no_calls, owns, released,
    CallSession, Calls, SetupTicket,
};
use crate::config::{connects_to, Config, TtsSection};
use crate::control::{MumbleClient, MumbleConfig};
use crate::db::{
    applied, channel_row, generate_nickname, intro_due, is_nickname, set_last_channel_id, should_play_intro,
    stored_channel, stores_channel, CallerInfo, Store, StoreCommand, SECS_PER_DAY,
};
use crate::phrase::opt_text;
use std::collections::{HashMap, HashSet};
use vstd::prelude::*;

verus! {

broadcast use vstd::std_specs::hash::group_hash_axioms;

/// The SIP status for a call that is turned away.
pub const BUSY_HERE: u32 = 486;

/// The SIP status for a call whose Mumble server cannot be reached.
pub const SERVICE_UNAVAILABLE: u32 = 503;

/// The calls of the bridge.
pub struct SessionManager {
    pub config: Config,
    pub sessions: HashMap<i32, CallSession>,
    /// The generations of the setups that own call numbers. A setup removes its own
    /// entry and no other's.
    pub pending_setups: HashMap<i32, u64>,
    /// The generations of setups whose callers are gone.
    pub cancelled_setups: HashSet<u64>,
    pub next_setup_generation: u64,
}

impl View for SessionManager {
    type V = Calls;

    open spec fn view(&self) -> Calls {
        Calls {
            sessions: self.sessions@,
            pending: self.pending_setups@,
            cancelled: self.cancelled_setups@,
            next: self.next_setup_generation,
        }
    }
}

/// How a stage of a setup turned out.
#[derive(Clone, Copy, Debug, PartialEq, Eq, Structural)]
pub enum SetupOutcome {
    Answered,
    AnswerFailed,
    MediaReady,
    /// Nobody will report the media any more.
    MediaLost,
    CancelledBeforeMedia,
    IntroPlayed,
    CancelledDuringIntro,
    Connected,
    ConnectFailed,
    CancelledDuringConnect,
}

/// The next stage of a setup.
#[derive(Clone, Copy, Debug, PartialEq, Eq, Structural)]
pub enum SetupStage {
    AwaitMedia,
    PlayIntro,
    Connect,
    Bridge,
}

/// What follows a stage of a setup.
#[derive(Clone, Copy, Debug, PartialEq, Eq, Structural)]
pub enum SetupStep {
    Go(SetupStage),
    /// Give up: stop the decoder and dispose of the media port.
    Stop {
        cleanup: CleanupStep,
        /// Nobody waits for the call's media any more.
        forget_media_ready: bool,
        hang_up: Option<u32>,
    },
}

/// What follows the last stage of a setup.
#[derive(Clone, Copy, Debug, PartialEq, Eq, Structural)]
pub enum FinishStep {
    Established,
    /// The caller is gone: stop the call's tasks and dispose of the media port.
    Discard { cleanup: CleanupStep },
}

/// What a key does.
#[derive(Clone, Copy, Debug, PartialEq, Eq, Structural)]
pub enum DtmfStep {
    Ignore,
    PlayIntro,
    /// Play the sound for a joined channel and ask to join this one.
    Navigate { channel_id: u32 },
}

/// What follows the end of a call.
#[derive(Debug)]
pub enum DisconnectStep {
    /// The call is unknown.
    Nothing,
    /// The call was in setup: signal its cancellation.
    SetupCancelled { generation: u64 },
    /// Stop the call's tasks, save its channel and dispose of the media port.
    TearDown { save: Option<StoreCommand>, cleanup: CleanupStep },
}

/// A caller as the store knows them.
#[derive(Debug)]
pub enum CallerLookup {
    /// The call came without a number.
    NoNumber,
    /// The store failed.
    Failed,
    Found { info: CallerInfo, last_channel_id: Option<u32> },
}

/// A caller as Mumble sees them.
#[derive(Debug)]
pub struct CallerIdentity {
    pub username: String,
    pub last_channel_id: Option<u32>,
    pub play_intro: bool,
}

/// What a caller hears once connected.
#[derive(Debug)]
pub enum Greeting {
    Announce { channel_id: u32, channel_name: Option<String> },
    Chime,
}

/// The stage that follows a good outcome.
pub open spec fn stage_after(outcome: SetupOutcome, play_intro: bool) -> Option<SetupStage> {
    match outcome {
        SetupOutcome::Answered => Some(SetupStage::AwaitMedia),
        SetupOutcome::MediaReady => Some(
            if play_intro {
                SetupStage::PlayIntro
            } else {
                SetupStage::Connect
            },
        ),
        SetupOutcome::IntroPlayed => Some(SetupStage::Connect),
        SetupOutcome::Connected => Some(SetupStage::Bridge),
        _ => None,
    }
}

/// The identity that the result of a lookup gives, with a name for where it gives
/// none. Phone numbers are never shown.
pub open spec fn identified(
    lookup: CallerLookup,
    fallback: Seq<char>,
    now: u64,
    replay_after_days: u64,
) -> (Seq<char>, Option<u32>, bool) {
    match lookup {
        CallerLookup::Found { info, last_channel_id } => (
            info.nickname@,
            last_channel_id,
            intro_due(info, now, replay_after_days),
        ),
        _ => (fallback, None, false),
    }
}

/// The identity of a caller, with a nickname for where the lookup gives none.
pub fn identity_from(
    lookup: CallerLookup,
    fallback: String,
    now: u64,
    replay_after_days: u64,
) -> (r: CallerIdentity)
    requires
        replay_after_days * SECS_PER_DAY <= u64::MAX,
    ensures
        (r.username@, r.last_channel_id, r.play_intro) == identified(
            lookup,
            fallback@,
            now,
            replay_after_days,
        ),
{
    match lookup {
        CallerLookup::Found { info, last_channel_id } => {
            let play_intro = should_play_intro(&info, now, replay_after_days);
            CallerIdentity { username: info.nickname, last_channel_id, play_intro }
        },
        _ => CallerIdentity { username: fallback, last_channel_id: None, play_intro: false },
    }
}

/// The identity of a caller. Where the lookup gives no nickname, one is made up.
pub fn caller_identity(lookup: CallerLookup, now: u64, replay_after_days: u64) -> (r:
    CallerIdentity)
    requires
        replay_after_days * SECS_PER_DAY <= u64::MAX,
    ensures
        exists|made_up: Seq<char>|
            {
                &&& is_nickname(made_up)
                &&& (r.username@, r.last_channel_id, r.play_intro) == #[trigger] identified(
                    lookup,
                    made_up,
                    now,
                    replay_after_days,
                )
            },
{
    let made_up = match &lookup {
        CallerLookup::Found { info: _, last_channel_id: _ } => String::new(),
        _ => generate_nickname(),
    };
    let ghost name = if lookup is Found {
        seq!['a', '_', 'b']
    } else {
        made_up@
    };
    assert(seq!['a', '_', 'b'][1] == '_');
    let r = identity_from(lookup, made_up, now, replay_after_days);
    assert((r.username@, r.last_channel_id, r.play_intro) == identified(
        lookup,
        name,
        now,
        replay_after_days,
    ));
    r
}

/// The Mumble connection of a call, under the caller's name.
pub fn call_mumble_config(
    config: &Config,
    mumble_server: Option<&str>,
    identity: &CallerIdentity,
) -> (r: MumbleConfig)
    ensures
        connects_to(*config, opt_text(mumble_server), identity.username@, r),
{
    let mut mumble_config = config.mumble_config(mumble_server);
    mumble_config.username = identity.username.clone();
    mumble_config
}

/// The channel to rejoin: the last one, where it still exists and the login did not
/// lead to it already.
pub open spec fn rejoined(
    last: Option<u32>,
    joined: u32,
    names: Map<u32, String>,
) -> Option<u32> {
    match last {
        Some(channel_id) if names.contains_key(channel_id) && channel_id != joined => Some(
            channel_id,
        ),
        _ => None,
    }
}

/// Chooses the channel to rejoin after a login.
pub fn rejoin_target(client: &MumbleClient, last_channel_id: Option<u32>) -> (r: Option<u32>)
    ensures
        r == rejoined(last_channel_id, client.joined(), client.names()),
{
    match last_channel_id {
        Some(channel_id) => if client.has_channel(channel_id) && channel_id
            != client.channel_id() {
            Some(channel_id)
        } else {
            None
        },
        None => None,
    }
}

/// The session that a login leads to, given the channel it joined, the highest channel,
/// the channel to rejoin, if any, and whether the request to join it was sent.
pub open spec fn started(
    joined: u32,
    highest: u32,
    rejoin: Option<u32>,
    sent: bool,
    port: usize,
    caller_number: Option<String>,
    server_host: String,
) -> CallSession {
    CallSession {
        port,
        current_channel_id: match rejoin {
            Some(channel_id) if sent => channel_id,
            _ => joined,
        },
        max_channel_id: highest,
        caller_number,
        server_host,
    }
}

/// The session that a login leads to, given the channel to rejoin, if any, and
/// whether the request to join it was sent.
pub fn start_session(
    client: &MumbleClient,
    rejoin: Option<u32>,
    sent: bool,
    port: usize,
    caller_number: Option<String>,
    server_host: String,
) -> (r: CallSession)
    ensures
        r == started(
            client.joined(),
            client.highest(),
            rejoin,
            sent,
            port,
            caller_number,
            server_host,
        ),
{
    CallSession {
        port,
        current_channel_id: match rejoin {
            Some(channel_id) if sent => channel_id,
            _ => client.channel_id(),
        },
        max_channel_id: client.max_channel_id(),
        caller_number,
        server_host,
    }
}

/// What a caller hears once connected: the channel where it is to be announced, a
/// chime otherwise.
pub fn greeting(tts: &TtsSection, channel_id: u32, channel_names: &HashMap<u32, String>) -> (r:
    Greeting)
    ensures
        r == greeted(*tts, channel_id, channel_names@),
{
    if tts.enabled && tts.announce_on_connect {
        Greeting::Announce { channel_id, channel_name: channel_name(channel_names, channel_id) }
    } else {
        Greeting::Chime
    }
}

/// The name of a channel, if it is known.
pub fn channel_name(channel_names: &HashMap<u32, String>, channel_id: u32) -> (r: Option<String>)
    ensures
        r == channel_names@.get(channel_id),
{
    match channel_names.get(&channel_id) {
        Some(name) => Some(name.clone()),
        None => None,
    }
}

/// Whether a failed stage leaves a waiter for the media behind, and the status to
/// hang up with.
pub open spec fn stop_extras(outcome: SetupOutcome, owner: bool) -> (bool, Option<u32>) {
    (
        owner && (outcome is AnswerFailed || outcome is CancelledBeforeMedia),
        if owner && outcome is ConnectFailed {
            Some(SERVICE_UNAVAILABLE)
        } else {
            None
        },
    )
}

/// What follows the last stage of a setup, and what becomes of its media port.
pub open spec fn concluded(
    c: Calls,
    before: &MediaRegistry,
    after: &MediaRegistry,
    ticket: SetupTicket,
    step: FinishStep,
) -> bool {
    &&& after.pending_ports@ == before.pending_ports@
    &&& if !c.cancelled.contains(ticket.generation) {
        step is Established && after.same(before)
    } else if !owns(c, ticket.call_id, ticket.generation) {
        &&& after.same(before)
        &&& step == (FinishStep::Discard {
            cleanup: CleanupStep::Defer((PortCleanup { port: ticket.port, pool: None })),
        })
    } else {
        &&& after.leaves_bridge(before, ticket.call_id, ticket.port)
        &&& step == (FinishStep::Discard {
            cleanup: match before.active_media@.get(ticket.call_id) {
                Some(place) => CleanupStep::Remove { conf_port_id: place.conf_port_id },
                None => CleanupStep::Leave,
            },
        })
    }
}

/// What follows the end of a call, and what becomes of its media port.
pub open spec fn hung_up(
    c: Calls,
    before: &MediaRegistry,
    after: &MediaRegistry,
    call_id: i32,
    step: DisconnectStep,
) -> bool {
    if !c.sessions.contains_key(call_id) {
        &&& after.same(before)
        &&& step == (if c.pending.contains_key(call_id) {
            DisconnectStep::SetupCancelled { generation: c.pending[call_id] }
        } else {
            DisconnectStep::Nothing
        })
    } else {
        let session = c.sessions[call_id];
        &&& step matches DisconnectStep::TearDown { save, cleanup }
        &&& match session.caller_number {
            Some(number) => save matches Some(command) && stores_channel(
                command,
                number@,
                session.server_host@,
                session.current_channel_id,
            ),
            None => save is None,
        }
        &&& after.pending_ports@ == before.pending_ports@.remove(call_id)
        &&& if before.pending_ports@.contains_key(call_id) {
            &&& cleanup == CleanupStep::Destroy { port: session.port }
            &&& after.active_media@ == before.active_media@.remove(call_id)
            &&& after.pending_cleanup@ == before.pending_cleanup@
        } else {
            &&& after.leaves_bridge(before, call_id, session.port)
            &&& cleanup == match before.active_media@.get(call_id) {
                Some(place) => CleanupStep::Remove { conf_port_id: place.conf_port_id },
                None => CleanupStep::Leave,
            }
        }
    }
}

/// The status with which another call is turned away, if it is.
pub open spec fn refused(c: Calls, max: u32) -> Option<u32> {
    if load(c) >= max {
        Some(BUSY_HERE)
    } else {
        None
    }
}

/// What a key does in a call.
pub open spec fn key_step(c: Calls, call_id: i32, digit: char) -> DtmfStep {
    if !c.sessions.contains_key(call_id) {
        DtmfStep::Ignore
    } else if digit == '1' {
        DtmfStep::PlayIntro
    } else {
        let session = c.sessions[call_id];
        match navigated(session.current_channel_id, session.max_channel_id, digit) {
            Some(channel_id) => DtmfStep::Navigate { channel_id },
            None => DtmfStep::Ignore,
        }
    }
}

/// What a caller hears once connected.
pub open spec fn greeted(tts: TtsSection, channel_id: u32, names: Map<u32, String>) -> Greeting {
    if tts.enabled && tts.announce_on_connect {
        Greeting::Announce { channel_id, channel_name: names.get(channel_id) }
    } else {
        Greeting::Chime
    }
}

impl SessionManager {
    /// A bridge without calls.
    pub fn new(config: Config) -> (r: Self)
        ensures
            r@ == no_calls(),
            r.config == config,
    {
        let r = SessionManager {
            config,
            sessions: HashMap::new(),
            pending_setups: HashMap::new(),
            cancelled_setups: HashSet::new(),
            next_setup_generation: 0,
        };
        assert(r@ == no_calls());
        r
    }

    /// The number of established calls.
    pub fn active_call_count(&self) -> (r: usize)
        ensures
            r == self@.sessions.len(),
    {
        self.sessions.len()
    }

    /// The status with which another call is turned away, if it is: the bridge is
    /// at its limit. Calls in setup count.
    pub fn refusal(&self) -> (r: Option<u32>)
        ensures
            r == refused(self@, self.config.sip.max_concurrent_calls),
    {
        let max: usize = self.config.sip.max_concurrent_calls as usize;
        let established: usize = self.sessions.len();
        if established < max && self.pending_setups.len() < max - established {
            None
        } else {
            Some(BUSY_HERE)
        }
    }

    /// Begins a setup with the media port made for it. The port waits for the
    /// call's media.
    pub fn begin_setup(&mut self, media: &mut MediaRegistry, call_id: i32, port: usize) -> (r:
        SetupTicket)
        ensures
            final(self)@ == begun(old(self)@, call_id),
            final(self).config == old(self).config,
            r == (SetupTicket { call_id, generation: old(self)@.next, port }),
            final(media).pending_ports@ == old(media).pending_ports@.insert(call_id, port),
            final(media).active_media@ == old(media).active_media@,
            final(media).pending_cleanup@ == old(media).pending_cleanup@,
    {
        media.register_pending_port(call_id, port);
        let generation: u64 = self.next_setup_generation;
        self.next_setup_generation = generation.wrapping_add(1);
        self.pending_setups.insert(call_id, generation);
        SetupTicket { call_id, generation, port }
    }

    /// Tells whether a setup still owns its call number.
    pub fn owns_call_id(&self, call_id: i32, generation: u64) -> (r: bool)
        ensures
            r == owns(self@, call_id, generation),
    {
        match self.pending_setups.get(&call_id) {
            Some(owner) => *owner == generation,
            None => false,
        }
    }

    /// Removes the entry of a setup that still owns its call number, and tells
    /// whether it did.
    pub fn remove_pending_setup(&mut self, call_id: i32, generation: u64) -> (r: bool)
        ensures
            r == owns(old(self)@, call_id, generation),
            final(self)@ == released(old(self)@, call_id, generation),
            final(self).config == old(self).config,
    {
        if self.owns_call_id(call_id, generation) {
            self.pending_setups.remove(&call_id);
            true
        } else {
            false
        }
    }

    /// Cancels the setup that owns a call number, and tells whether there is one.
    /// The entry stays: the setup removes it.
    pub fn cancel_pending_setup(&mut self, call_id: i32) -> (r: bool)
        ensures
            r == old(self)@.pending.contains_key(call_id),
            final(self)@ == cancelled(old(self)@, call_id),
            final(self).config == old(self).config,
    {
        let found: Option<u64> = match self.pending_setups.get(&call_id) {
            Some(owner) => Some(*owner),
            None => None,
        };
        match found {
            Some(generation) => {
                self.cancelled_setups.insert(generation);
                true
            },
            None => false,
        }
    }

    /// Tells whether the caller of a setup is gone.
    pub fn is_cancelled(&self, generation: u64) -> (r: bool)
        ensures
            r == self@.cancelled.contains(generation),
    {
        self.cancelled_setups.contains(&generation)
    }

    /// Gives a setup up, and tells whether it owned its call number to the end.
    pub fn abort_setup(&mut self, media: &mut MediaRegistry, ticket: SetupTicket) -> (r: (
        bool,
        CleanupStep,
    ))
        ensures
            r.0 == owns(old(self)@, ticket.call_id, ticket.generation),
            final(self)@ == aborted(old(self)@, ticket.call_id, ticket.generation),
            final(self).config == old(self).config,
            final(media).disposes(old(media), ticket.call_id, ticket.port, r.0, r.1),
    {
        let owner = self.remove_pending_setup(ticket.call_id, ticket.generation);
        self.cancelled_setups.remove(&ticket.generation);
        let cleanup = media.cleanup_media_port(ticket.call_id, ticket.port, owner);
        (owner, cleanup)
    }

    /// Decides what follows a stage of a setup, and gives the setup up where the
    /// stage went wrong.
    pub fn advance_setup(
        &mut self,
        media: &mut MediaRegistry,
        ticket: SetupTicket,
        play_intro: bool,
        outcome: SetupOutcome,
    ) -> (r: SetupStep)
        ensures
            final(self).config == old(self).config,
            match stage_after(outcome, play_intro) {
                Some(stage) => {
                    &&& r == SetupStep::Go(stage)
                    &&& final(self)@ == old(self)@
                    &&& final(media).same(old(media))
                },
                None => {
                    let owner = owns(old(self)@, ticket.call_id, ticket.generation);
                    &&& r matches SetupStep::Stop { cleanup, forget_media_ready, hang_up }
                    &&& (forget_media_ready, hang_up) == stop_extras(outcome, owner)
                    &&& final(self)@ == aborted(old(self)@, ticket.call_id, ticket.generation)
                    &&& final(media).disposes(
                        old(media),
                        ticket.call_id,
                        ticket.port,
                        owner,
                        cleanup,
                    )
                },
            },
    {
        match outcome {
            SetupOutcome::Answered => SetupStep::Go(SetupStage::AwaitMedia),
            SetupOutcome::MediaReady => SetupStep::Go(
                if play_intro {
                    SetupStage::PlayIntro
                } else {
                    SetupStage::Connect
                },
            ),
            SetupOutcome::IntroPlayed => SetupStep::Go(SetupStage::Connect),
            SetupOutcome::Connected => SetupStep::Go(SetupStage::Bridge),
            failure => {
                let (owner, cleanup) = self.abort_setup(media, ticket);
                let waited = failure == SetupOutcome::AnswerFailed || failure
                    == SetupOutcome::CancelledBeforeMedia;
                SetupStep::Stop {
                    cleanup,
                    forget_media_ready: owner && waited,
                    hang_up: if owner && failure == SetupOutcome::ConnectFailed {
                        Some(SERVICE_UNAVAILABLE)
                    } else {
                        None
                    },
                }
            },
        }
    }

    /// Ends a setup. It becomes a session unless its caller is gone. A port on the
    /// conference bridge is removed from it, one that nobody has seen attached is
    /// left alone, and one whose call number went to another setup is freed after a
    /// while.
    pub fn finish_setup(
        &mut self,
        media: &mut MediaRegistry,
        ticket: SetupTicket,
        session: CallSession,
    ) -> (r: FinishStep)
        ensures
            final(self).config == old(self).config,
            final(self)@ == finished(old(self)@, ticket.call_id, ticket.generation, session),
            concluded(old(self)@, old(media), final(media), ticket, r),
    {
        let owner = self.remove_pending_setup(ticket.call_id, ticket.generation);
        if self.is_cancelled(ticket.generation) {
            self.cancelled_setups.remove(&ticket.generation);
            if !owner {
                return FinishStep::Discard {
                    cleanup: CleanupStep::Defer(PortCleanup { port: ticket.port, pool: None }),
                };
            }
            return FinishStep::Discard {
                cleanup: match media.leave_bridge(ticket.call_id, ticket.port) {
                    Some(conf_port_id) => CleanupStep::Remove { conf_port_id },
                    None => CleanupStep::Leave,
                },
            };
        }
        self.sessions.insert(ticket.call_id, session);
        assert(self@.cancelled.remove(ticket.generation) == self@.cancelled);
        FinishStep::Established
    }

    /// Decides what a key does: `1` plays the intro, `*` goes to the channel before
    /// and `#` to the one after.
    pub fn on_dtmf_digit(&self, call_id: i32, digit: char) -> (r: DtmfStep)
        ensures
            r == key_step(self@, call_id, digit),
    {
        match self.sessions.get(&call_id) {
            None => DtmfStep::Ignore,
            Some(session) => {
                let current: u32 = session.current_channel_id;
                let max: u32 = session.max_channel_id;
                if digit == '1' {
                    DtmfStep::PlayIntro
                } else if digit == '*' {
                    DtmfStep::Navigate { channel_id: current.saturating_sub(1) }
                } else if digit == '#' {
                    DtmfStep::Navigate {
                        channel_id: if current < max {
                            current + 1
                        } else {
                            max
                        },
                    }
                } else {
                    DtmfStep::Ignore
                }
            },
        }
    }

    /// Records the outcome of the request to join a channel. The call's event
    /// handler is told where the request was sent.
    pub fn on_join_result(&mut self, call_id: i32, channel_id: u32, sent: bool) -> (tell: bool)
        ensures
            final(self).config == old(self).config,
            tell == (sent && old(self)@.sessions.contains_key(call_id)),
            final(self)@ == (if sent {
                moved(old(self)@, call_id, channel_id)
            } else {
                old(self)@
            }),
    {
        if !sent {
            return false;
        }
        match self.sessions.remove(&call_id) {
            Some(session) => {
                let mut session = session;
                session.current_channel_id = channel_id;
                self.sessions.insert(call_id, session);
                assert(self@ == moved(old(self)@, call_id, channel_id));
                true
            },
            None => {
                assert(self@ == old(self)@);
                false
            },
        }
    }

    /// Ends a call. A session's channel is saved for a caller with a number; a port
    /// that still waits for media is destroyed, one on the conference bridge is
    /// removed from it, and any other is left alone. A call in setup is cancelled.
    pub fn on_call_disconnected(&mut self, media: &mut MediaRegistry, call_id: i32) -> (r:
        DisconnectStep)
        ensures
            final(self).config == old(self).config,
            final(self)@ == ended(old(self)@, call_id),
            hung_up(old(self)@, old(media), final(media), call_id, r),
    {
        let session = match self.sessions.remove(&call_id) {
            Some(session) => session,
            None => {
                assert(self@ == old(self)@);
                let owner: Option<u64> = match self.pending_setups.get(&call_id) {
                    Some(generation) => Some(*generation),
                    None => None,
                };
                self.cancel_pending_setup(call_id);
                return match owner {
                    Some(generation) => DisconnectStep::SetupCancelled { generation },
                    None => DisconnectStep::Nothing,
                };
            },
        };
        let save = match &session.caller_number {
            Some(number) => Some(
                set_last_channel_id(
                    number.as_str(),
                    session.server_host.as_str(),
                    session.current_channel_id,
                ),
            ),
            None => None,
        };
        if media.unregister_pending_port(call_id).is_some() {
            media.take_active_media(call_id);
            return DisconnectStep::TearDown {
                save,
                cleanup: CleanupStep::Destroy { port: session.port },
            };
        }
        let cleanup = match media.leave_bridge(call_id, session.port) {
            Some(conf_port_id) => CleanupStep::Remove { conf_port_id },
            None => CleanupStep::Leave,
        };
        DisconnectStep::TearDown { save, cleanup }
    }
}

/// A caller is never shown under a phone number, as long as the store names callers
/// with made-up nicknames.
pub proof fn law_phone_numbers_are_not_shown(
    lookup: CallerLookup,
    made_up: Seq<char>,
    now: u64,
    replay_after_days: u64,
    number: Seq<char>,
)
    requires
        made_up.contains('_'),
        lookup matches CallerLookup::Found { info, .. } ==> info.nickname@.contains('_'),
        !number.contains('_'),
    ensures
        identified(lookup, made_up, now, replay_after_days).0 != number,
{
}

/// A caller who hung up in a channel is back in it on the next call to the same
/// server, as long as the channel exists. Where it is gone, they stay in the channel
/// that the login led to.
pub proof fn law_caller_returns_to_the_last_channel(
    store: Store,
    number: String,
    host: String,
    channel_id: u32,
    joined: u32,
    names: Map<u32, String>,
)
    ensures
        ({
            let kept = applied(
                store,
                StoreCommand::SetChannel {
                    phone_number: number,
                    server_host: host,
                    channel_id: channel_id as i64,
                },
            ).channels[(number@, host@)];
            let start = match rejoined(Some(kept as u32), joined, names) {
                Some(id) => id,
                None => joined,
            };
            start == (if names.contains_key(channel_id) {
                channel_id
            } else {
                joined
            })
        }),
{
}

/// A session starts in the channel that the login led to, or in one that the server
/// has reported, and never beyond the highest one.
pub proof fn law_session_starts_in_a_known_channel(client: MumbleClient, last: Option<u32>)
    requires
        client.well_formed(),
    ensures
        ({
            let start = match rejoined(last, client.joined(), client.names()) {
                Some(id) => id,
                None => client.joined(),
            };
            &&& start == client.joined() || client.names().contains_key(start)
            &&& start <= client.highest()
        }),
{
}

/// A session starts in the channel it rejoins once that was asked for, and otherwise in
/// the one that the login led to. It carries everything else as it was given.
pub proof fn law_sessions_start_where_they_asked(
    joined: u32,
    highest: u32,
    channel_id: u32,
    sent: bool,
    port: usize,
    caller_number: Option<String>,
    server_host: String,
)
    ensures
        ({
            let back = started(
                joined,
                highest,
                Some(channel_id),
                sent,
                port,
                caller_number,
                server_host,
            );
            let stays = started(joined, highest, None, sent, port, caller_number, server_host);
            &&& sent ==> back.current_channel_id == channel_id
            &&& !sent ==> back.current_channel_id == joined
            &&& stays.current_channel_id == joined
            &&& back.max_channel_id == highest && stays.max_channel_id == highest
            &&& back.port == port && stays.port == port
            &&& back.caller_number == caller_number && stays.caller_number == caller_number
            &&& back.server_host == server_host && stays.server_host == server_host
        }),
{
}

/// A setup is established exactly when its caller has not hung up, and then its media stay
/// untouched. Otherwise its port is removed from the conference bridge where it is on it;
/// where the call number went to another setup, nothing kept for the number is touched and
/// the port is freed later.
pub proof fn law_setups_end_with_their_callers(
    c: Calls,
    before: &MediaRegistry,
    after: &MediaRegistry,
    ticket: SetupTicket,
    step: FinishStep,
)
    requires
        concluded(c, before, after, ticket, step),
    ensures
        step is Established <==> !c.cancelled.contains(ticket.generation),
        step is Established ==> after.same(before),
        step matches FinishStep::Discard { cleanup } ==> {
            let (id, owner) = (ticket.call_id, owns(c, ticket.call_id, ticket.generation));
            let place = before.active_media@.get(id);
            &&& !owner ==> after.same(before) && cleanup == CleanupStep::Defer(
                PortCleanup { port: ticket.port, pool: None },
            )
            &&& owner && place is None ==> after.same(before) && cleanup is Leave
            &&& owner && place is Some ==> {
                &&& cleanup == CleanupStep::Remove { conf_port_id: place->0.conf_port_id }
                &&& !after.active_media@.contains_key(id)
                &&& after.pending_cleanup@.get(place->0.conf_port_id) == Some(
                    PortCleanup { port: ticket.port, pool: Some(place->0.pool) },
                )
            }
        },
{
    if !before.active_media@.contains_key(ticket.call_id) {
        assert(before.active_media@.remove(ticket.call_id) == before.active_media@);
    }
}

/// When a caller with a number hangs up, the channel they were in is what their next call
/// to the same server finds. Nothing is saved of a caller without a number.
pub proof fn law_hanging_up_saves_the_channel(
    c: Calls,
    before: &MediaRegistry,
    after: &MediaRegistry,
    call_id: i32,
    step: DisconnectStep,
    store: Store,
)
    requires
        hung_up(c, before, after, call_id, step),
        c.sessions.contains_key(call_id),
    ensures
        step matches DisconnectStep::TearDown { save, cleanup } && {
            let session = c.sessions[call_id];
            match session.caller_number {
                Some(number) => {
                    &&& save is Some
                    &&& stored_channel(
                        channel_row(applied(store, save->0), number@, session.server_host@),
                    ) == Some(session.current_channel_id)
                },
                None => save is None,
            }
        },
{
}

/// When a caller hangs up, their port is destroyed where it still waits for media, is
/// removed from the conference bridge where it is on it, and is left alone otherwise. A
/// call in setup is told by its generation, and a call that is unknown changes nothing.
pub proof fn law_hanging_up_frees_the_port(
    c: Calls,
    before: &MediaRegistry,
    after: &MediaRegistry,
    call_id: i32,
    other: i32,
    step: DisconnectStep,
)
    requires
        hung_up(c, before, after, call_id, step),
        other != call_id,
    ensures
        !c.sessions.contains_key(call_id) ==> after.same(before),
        !c.sessions.contains_key(call_id) && c.pending.contains_key(call_id) ==> step == (
        DisconnectStep::SetupCancelled { generation: c.pending[call_id] }),
        !c.sessions.contains_key(call_id) && !c.pending.contains_key(call_id) ==> step is Nothing,
        c.sessions.contains_key(call_id) ==> {
            let session = c.sessions[call_id];
            let waits = before.pending_ports@.contains_key(call_id);
            let place = before.active_media@.get(call_id);
            &&& step matches DisconnectStep::TearDown { save, cleanup }
            &&& !after.pending_ports@.contains_key(call_id)
            &&& !after.active_media@.contains_key(call_id)
            &&& waits ==> cleanup == CleanupStep::Destroy { port: session.port }
                && after.pending_cleanup@ == before.pending_cleanup@
            &&& !waits && place is None ==> cleanup is Leave && after.pending_cleanup@
                == before.pending_cleanup@
            &&& !waits && place is Some ==> {
                &&& cleanup == CleanupStep::Remove { conf_port_id: place->0.conf_port_id }
                &&& after.pending_cleanup@.get(place->0.conf_port_id) == Some(
                    PortCleanup { port: session.port, pool: Some(place->0.pool) },
                )
            }
        },
        after.pending_ports@.get(other) == before.pending_ports@.get(other),
        after.active_media@.get(other) == before.active_media@.get(other),
{
}

} // verus!
