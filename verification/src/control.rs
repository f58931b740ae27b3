//! The control connection to a Mumble server: login, and what arrives later.

use crate::text::{push_text, string_of};
use std::collections::HashMap;
use vstd::prelude::*;

verus! {

broadcast use vstd::std_specs::hash::group_hash_axioms;

/// The size of the key and of each nonce of the voice encryption.
pub const CRYPT_BLOCK: usize = 16;

/// The root channel, where a user is unless moved.
pub const ROOT_CHANNEL: u32 = 0;

/// A shared byte buffer.
#[verifier::external_type_specification]
#[verifier::external_body]
pub struct ExBytes(bytes::Bytes);

/// Configuration for connecting to a Mumble server.
#[derive(Clone, Debug)]
pub struct MumbleConfig {
    pub host: String,
    pub port: u16,
    pub username: String,
    pub password: String,
    pub channel: String,
    pub accept_invalid_cert: bool,
}

/// What the control connection reports.
#[derive(Debug)]
pub enum MumbleEvent {
    Connected { session_id: u32 },
    Disconnected,
    AudioReceived { session_id: u32, opus_data: bytes::Bytes, seq_num: u64 },
    UserChangedChannel { session_id: u32, channel_id: u32 },
    ChannelState { channel_id: u32, name: String },
    UserDisconnected { session_id: u32 },
    TextMessageReceived { sender_name: Option<String>, message: String },
}

/// A packet from the server, reduced to what the bridge reads of it.
#[derive(Debug)]
pub enum ServerPacket {
    CryptSetup { key: Vec<u8>, client_nonce: Vec<u8>, server_nonce: Vec<u8> },
    ChannelState { channel_id: u32, name: String },
    ServerSync { session: u32 },
    Reject { reason: String },
    /// Tunnelled voice in Opus.
    OpusAudio { session_id: u32, seq_num: u64, data: bytes::Bytes },
    /// The channel is missing where the server did not set it.
    UserState { session: u32, channel_id: Option<u32> },
    UserRemove { session: u32 },
    TextMessage { sender_name: Option<String>, message: String },
    /// Pings, voice in other codecs, and everything else.
    Other,
}

/// A login request.
#[derive(Debug)]
pub struct AuthRequest {
    pub username: String,
    pub password: Option<String>,
    pub opus: bool,
}

/// Why a login failed.
#[derive(Debug)]
pub enum HandshakeError {
    InvalidKeySize,
    InvalidClientNonceSize,
    InvalidServerNonceSize,
    Rejected { reason: String },
    ClosedBeforeSync,
}

/// What follows a packet of the login.
#[derive(Clone, Copy, Debug, PartialEq, Eq, Structural)]
pub enum HandshakeStep {
    ReadNext,
    LoggedIn,
}

/// A login in progress.
#[derive(Debug)]
pub struct Handshake {
    /// The name of the channel to join, empty for none.
    wanted_channel: String,
    session_id: Option<u32>,
    target_channel_id: Option<u32>,
    max_channel_id: u32,
    channel_names: HashMap<u32, String>,
    crypt_ready: bool,
}

/// What a login in progress has learned.
#[verifier::ext_equal]
pub ghost struct Login {
    /// The name of the channel to join, empty for none.
    pub wanted: Seq<char>,
    pub session: Option<u32>,
    /// The channel to join.
    pub target: Option<u32>,
    /// The highest channel.
    pub highest: u32,
    pub names: Map<u32, String>,
    /// The keys for voice were received.
    pub crypt_ready: bool,
}

/// A finished login.
#[derive(Debug)]
pub struct MumbleClient {
    session_id: u32,
    channel_id: u32,
    max_channel_id: u32,
    channel_names: HashMap<u32, String>,
}

/// A login request asks for what a configuration says.
pub open spec fn asks_for(config: MumbleConfig, r: AuthRequest) -> bool {
    &&& r.username@ == config.username@
    &&& match r.password {
        Some(p) => p@ == config.password@ && p@.len() > 0,
        None => config.password@.len() == 0,
    }
    &&& r.opus
}

/// The login request for a configuration. An empty password is not sent.
pub fn auth_request(config: &MumbleConfig) -> (r: AuthRequest)
    ensures
        asks_for(*config, r),
{
    AuthRequest {
        username: config.username.clone(),
        password: if config.password.as_str().is_empty() {
            None
        } else {
            Some(config.password.clone())
        },
        opus: true,
    }
}

/// The event that a packet gives rise to after the login.
pub open spec fn event_of(packet: ServerPacket) -> Option<MumbleEvent> {
    match packet {
        ServerPacket::OpusAudio { session_id, seq_num, data } => Some(
            MumbleEvent::AudioReceived { session_id, opus_data: data, seq_num },
        ),
        ServerPacket::UserState { session, channel_id: Some(channel_id) } => Some(
            MumbleEvent::UserChangedChannel { session_id: session, channel_id },
        ),
        ServerPacket::ChannelState { channel_id, name } => Some(
            MumbleEvent::ChannelState { channel_id, name },
        ),
        ServerPacket::UserRemove { session } => Some(
            MumbleEvent::UserDisconnected { session_id: session },
        ),
        ServerPacket::TextMessage { sender_name, message } => Some(
            MumbleEvent::TextMessageReceived { sender_name, message },
        ),
        _ => None,
    }
}

/// The event that a packet gives rise to after the login.
pub fn handle_packet(packet: ServerPacket) -> (r: Option<MumbleEvent>)
    ensures
        r == event_of(packet),
{
    match packet {
        ServerPacket::OpusAudio { session_id, seq_num, data } => Some(
            MumbleEvent::AudioReceived { session_id, opus_data: data, seq_num },
        ),
        ServerPacket::UserState { session, channel_id } => match channel_id {
            Some(channel_id) => Some(
                MumbleEvent::UserChangedChannel { session_id: session, channel_id },
            ),
            None => None,
        },
        ServerPacket::ChannelState { channel_id, name } => Some(
            MumbleEvent::ChannelState { channel_id, name },
        ),
        ServerPacket::UserRemove { session } => Some(
            MumbleEvent::UserDisconnected { session_id: session },
        ),
        ServerPacket::TextMessage { sender_name, message } => Some(
            MumbleEvent::TextMessageReceived { sender_name, message },
        ),
        _ => None,
    }
}

impl HandshakeError {
    /// The error in words.
    pub fn message(&self) -> (r: String)
        ensures
            r@ == (match *self {
                HandshakeError::InvalidKeySize => "Invalid key size"@,
                HandshakeError::InvalidClientNonceSize => "Invalid client_nonce size"@,
                HandshakeError::InvalidServerNonceSize => "Invalid server_nonce size"@,
                HandshakeError::Rejected { reason } => "Login rejected: "@ + reason@,
                HandshakeError::ClosedBeforeSync => "Connection closed before ServerSync"@,
            }),
    {
        match self {
            HandshakeError::InvalidKeySize => "Invalid key size".to_owned(),
            HandshakeError::InvalidClientNonceSize => "Invalid client_nonce size".to_owned(),
            HandshakeError::InvalidServerNonceSize => "Invalid server_nonce size".to_owned(),
            HandshakeError::Rejected { reason } => {
                let mut out: Vec<char> = Vec::new();
                push_text(&mut out, "Login rejected: ");
                push_text(&mut out, reason.as_str());
                string_of(out.as_slice())
            },
            HandshakeError::ClosedBeforeSync => "Connection closed before ServerSync".to_owned(),
        }
    }
}

/// A login that has learned nothing yet.
pub open spec fn fresh_login(wanted: Seq<char>) -> Login {
    Login {
        wanted,
        session: None,
        target: None,
        highest: 0,
        names: Map::empty(),
        crypt_ready: false,
    }
}

/// No known channel lies above the highest one, and the channel to join is a known one.
pub open spec fn login_valid(l: Login) -> bool {
    &&& forall|id: u32| #[trigger] l.names.contains_key(id) ==> id <= l.highest
    &&& l.target matches Some(id) ==> l.names.contains_key(id)
}

/// What a packet of the login leads to.
pub open spec fn step_after(packet: ServerPacket) -> Result<HandshakeStep, HandshakeError> {
    match packet {
        ServerPacket::CryptSetup { key, client_nonce, server_nonce } => if key@.len()
            != CRYPT_BLOCK {
            Err(HandshakeError::InvalidKeySize)
        } else if client_nonce@.len() != CRYPT_BLOCK {
            Err(HandshakeError::InvalidClientNonceSize)
        } else if server_nonce@.len() != CRYPT_BLOCK {
            Err(HandshakeError::InvalidServerNonceSize)
        } else {
            Ok(HandshakeStep::ReadNext)
        },
        ServerPacket::ServerSync { .. } => Ok(HandshakeStep::LoggedIn),
        ServerPacket::Reject { reason } => Err(HandshakeError::Rejected { reason }),
        _ => Ok(HandshakeStep::ReadNext),
    }
}

/// What a login has learned after a packet.
pub open spec fn login_after(l: Login, packet: ServerPacket) -> Login {
    match packet {
        ServerPacket::CryptSetup { .. } => Login {
            crypt_ready: l.crypt_ready || step_after(packet) is Ok,
            ..l
        },
        ServerPacket::ChannelState { channel_id, name } => Login {
            names: l.names.insert(channel_id, name),
            highest: if channel_id > l.highest {
                channel_id
            } else {
                l.highest
            },
            target: if l.wanted.len() > 0 && name@ == l.wanted {
                Some(channel_id)
            } else {
                l.target
            },
            ..l
        },
        ServerPacket::ServerSync { session } => Login { session: Some(session), ..l },
        _ => l,
    }
}

/// What a login leads to.
pub open spec fn logged_in(l: Login, r: Result<MumbleClient, HandshakeError>) -> bool {
    match l.session {
        None => r == Err::<MumbleClient, HandshakeError>(HandshakeError::ClosedBeforeSync),
        Some(session) => {
            &&& r matches Ok(c)
            &&& c.well_formed()
            &&& c.session() == session
            &&& c.joined() == (match l.target {
                Some(id) => id,
                None => ROOT_CHANNEL,
            })
            &&& c.highest() == l.highest
            &&& c.names() == l.names
        },
    }
}

impl View for Handshake {
    type V = Login;

    closed spec fn view(&self) -> Login {
        Login {
            wanted: self.wanted_channel@,
            session: self.session_id,
            target: self.target_channel_id,
            highest: self.max_channel_id,
            names: self.channel_names@,
            crypt_ready: self.crypt_ready,
        }
    }
}

impl Handshake {
    /// A login that is about to join the given channel.
    pub fn new(wanted_channel: &str) -> (r: Self)
        ensures
            r@ == fresh_login(wanted_channel@),
            login_valid(r@),
    {
        Handshake {
            wanted_channel: wanted_channel.to_owned(),
            session_id: None,
            target_channel_id: None,
            max_channel_id: 0,
            channel_names: HashMap::new(),
            crypt_ready: false,
        }
    }

    /// The channel to join, if one of the wanted name was reported.
    pub fn target_channel_id(&self) -> (r: Option<u32>)
        ensures
            r == self@.target,
    {
        self.target_channel_id
    }

    /// Tells whether the keys for voice were received.
    pub fn crypt_ready(&self) -> (r: bool)
        ensures
            r == self@.crypt_ready,
    {
        self.crypt_ready
    }

    /// Handles a packet of the login.
    pub fn on_packet(&mut self, packet: ServerPacket) -> (r: Result<HandshakeStep, HandshakeError>)
        requires
            login_valid(old(self)@),
        ensures
            login_valid(final(self)@),
            final(self)@ == login_after(old(self)@, packet),
            r == step_after(packet),
    {
        match packet {
            ServerPacket::CryptSetup { key, client_nonce, server_nonce } => {
                if key.len() != CRYPT_BLOCK {
                    return Err(HandshakeError::InvalidKeySize);
                }
                if client_nonce.len() != CRYPT_BLOCK {
                    return Err(HandshakeError::InvalidClientNonceSize);
                }
                if server_nonce.len() != CRYPT_BLOCK {
                    return Err(HandshakeError::InvalidServerNonceSize);
                }
                self.crypt_ready = true;
                Ok(HandshakeStep::ReadNext)
            },
            ServerPacket::ChannelState { channel_id, name } => {
                let wanted: bool = !self.wanted_channel.as_str().is_empty() && name
                    == self.wanted_channel;
                self.channel_names.insert(channel_id, name);
                if channel_id > self.max_channel_id {
                    self.max_channel_id = channel_id;
                }
                if wanted {
                    self.target_channel_id = Some(channel_id);
                }
                Ok(HandshakeStep::ReadNext)
            },
            ServerPacket::ServerSync { session } => {
                self.session_id = Some(session);
                Ok(HandshakeStep::LoggedIn)
            },
            ServerPacket::Reject { reason } => Err(HandshakeError::Rejected { reason }),
            _ => Ok(HandshakeStep::ReadNext),
        }
    }

    /// Ends the login, whether the server synchronized or the connection closed.
    pub fn finish(self) -> (r: Result<MumbleClient, HandshakeError>)
        requires
            login_valid(self@),
        ensures
            logged_in(self@, r),
    {
        let ghost login = self@;
        assert(login.target matches Some(id) ==> login.names.contains_key(id));
        assert(forall|id: u32| #[trigger]
            self.channel_names@.contains_key(id) ==> login.names.contains_key(id));
        match self.session_id {
            None => Err(HandshakeError::ClosedBeforeSync),
            Some(session_id) => Ok(
                MumbleClient {
                    session_id,
                    channel_id: match self.target_channel_id {
                        Some(id) => id,
                        None => ROOT_CHANNEL,
                    },
                    max_channel_id: self.max_channel_id,
                    channel_names: self.channel_names,
                },
            ),
        }
    }
}

impl MumbleClient {
    pub closed spec fn session(&self) -> u32 {
        self.session_id
    }

    pub closed spec fn joined(&self) -> u32 {
        self.channel_id
    }

    pub closed spec fn highest(&self) -> u32 {
        self.max_channel_id
    }

    pub closed spec fn names(&self) -> Map<u32, String> {
        self.channel_names@
    }

    /// The joined channel and every known one lie within the highest number.
    pub open spec fn well_formed(&self) -> bool {
        &&& self.joined() <= self.highest()
        &&& forall|id: u32| #[trigger] self.names().contains_key(id) ==> id <= self.highest()
    }

    pub fn session_id(&self) -> (r: u32)
        ensures
            r == self.session(),
    {
        self.session_id
    }

    /// The channel joined at login.
    pub fn channel_id(&self) -> (r: u32)
        ensures
            r == self.joined(),
    {
        self.channel_id
    }

    /// The highest channel known at login.
    pub fn max_channel_id(&self) -> (r: u32)
        ensures
            r == self.highest(),
    {
        self.max_channel_id
    }

    /// Tells whether a channel was known at login.
    pub fn has_channel(&self, channel_id: u32) -> (r: bool)
        ensures
            r == self.names().contains_key(channel_id),
    {
        self.channel_names.contains_key(&channel_id)
    }

    /// The channels known at login and their names.
    pub fn channel_names(&self) -> (r: HashMap<u32, String>)
        ensures
            r@ == self.names(),
    {
        self.channel_names.clone()
    }
}

/// The channel among the reported ones that was reported last under a name, where
/// the name is not empty.
pub open spec fn reported_under(packets: Seq<ServerPacket>, wanted: Seq<char>) -> Option<u32>
    decreases packets.len(),
{
    if packets.len() == 0 {
        None
    } else {
        match packets.last() {
            ServerPacket::ChannelState { channel_id, name } if wanted.len() > 0 && name@
                == wanted => Some(channel_id),
            _ => reported_under(packets.drop_last(), wanted),
        }
    }
}

/// The latest names of the reported channels.
pub open spec fn reported_names(packets: Seq<ServerPacket>) -> Map<u32, String>
    decreases packets.len(),
{
    if packets.len() == 0 {
        Map::empty()
    } else {
        match packets.last() {
            ServerPacket::ChannelState { channel_id, name } => reported_names(
                packets.drop_last(),
            ).insert(channel_id, name),
            _ => reported_names(packets.drop_last()),
        }
    }
}

/// The highest of the reported channels, and the root where none was reported.
pub open spec fn reported_highest(packets: Seq<ServerPacket>) -> u32
    decreases packets.len(),
{
    if packets.len() == 0 {
        ROOT_CHANNEL
    } else {
        match packets.last() {
            ServerPacket::ChannelState { channel_id, .. } if channel_id > reported_highest(
                packets.drop_last(),
            ) => channel_id,
            _ => reported_highest(packets.drop_last()),
        }
    }
}

/// What a login has learned after several packets.
pub open spec fn login_history(l: Login, packets: Seq<ServerPacket>) -> Login
    decreases packets.len(),
{
    if packets.len() == 0 {
        l
    } else {
        login_after(login_history(l, packets.drop_last()), packets.last())
    }
}

/// A login knows the channels under the names last reported and the highest of them,
/// and is about to join the one last reported under the wanted name.
pub proof fn law_login_follows_the_reports(wanted: Seq<char>, packets: Seq<ServerPacket>)
    ensures
        ({
            let l = login_history(fresh_login(wanted), packets);
            &&& login_valid(l)
            &&& l.wanted == wanted
            &&& l.names == reported_names(packets)
            &&& l.highest == reported_highest(packets)
            &&& l.target == reported_under(packets, wanted)
        }),
    decreases packets.len(),
{
    if packets.len() > 0 {
        law_login_follows_the_reports(wanted, packets.drop_last());
    }
}

/// The login request carries the name and the password as configured, and an empty
/// password is not sent. Opus is always asked for.
pub proof fn law_login_request_carries_the_settings(config: MumbleConfig, r: AuthRequest)
    requires
        asks_for(config, r),
    ensures
        r.username@ == config.username@,
        r.opus,
        config.password@.len() > 0 ==> r.password is Some && r.password->0@ == config.password@,
        config.password@.len() == 0 ==> r.password is None,
{
}

/// A login goes on until the server synchronizes, rejects it or sends keys of a wrong
/// size. The reason of a rejection is passed on, and of several wrong sizes the first is
/// reported.
pub proof fn law_login_ends_for_a_reason(
    packet: ServerPacket,
    key: Vec<u8>,
    client_nonce: Vec<u8>,
    server_nonce: Vec<u8>,
    reason: String,
)
    ensures
        step_after(packet) == Ok::<HandshakeStep, HandshakeError>(HandshakeStep::LoggedIn)
            <==> packet is ServerSync,
        step_after(packet) is Err ==> packet is Reject || packet is CryptSetup,
        step_after(ServerPacket::Reject { reason }) == Err::<HandshakeStep, HandshakeError>(
            HandshakeError::Rejected { reason },
        ),
        ({
            let step = step_after(ServerPacket::CryptSetup { key, client_nonce, server_nonce });
            let (k, c, s) = (key@.len(), client_nonce@.len(), server_nonce@.len());
            &&& step is Ok <==> k == 16 && c == 16 && s == 16
            &&& step is Ok ==> step->Ok_0 is ReadNext
            &&& step is Err ==> (step->Err_0 is InvalidKeySize <==> k != 16)
            &&& step is Err ==> (step->Err_0 is InvalidClientNonceSize <==> k == 16 && c != 16)
            &&& step is Err ==> (step->Err_0 is InvalidServerNonceSize <==> k == 16 && c == 16 && s
                != 16)
        }),
{
}

/// The voice keys are ready once a setup of the right size came, and stay so; the session
/// is the one synchronized last, and no other packet changes it.
pub proof fn law_login_keeps_keys_and_session(l: Login, packet: ServerPacket)
    ensures
        login_after(l, packet).crypt_ready <==> l.crypt_ready || (packet is CryptSetup
            && step_after(packet) is Ok),
        packet matches ServerPacket::ServerSync { session } ==> login_after(l, packet).session
            == Some(session),
        !(packet is ServerSync) ==> login_after(l, packet).session == l.session,
        login_after(l, packet).wanted == l.wanted,
        !(packet is ChannelState) ==> login_after(l, packet).names == l.names && login_after(
            l,
            packet,
        ).highest == l.highest && login_after(l, packet).target == l.target,
{
}

/// A report of a channel is remembered under its name, and other channels keep theirs. It
/// raises the highest channel where it lies above it, and is the one to join where its
/// name is the wanted one.
pub proof fn law_login_remembers_channels(l: Login, channel_id: u32, name: String, other: u32)
    requires
        other != channel_id,
    ensures
        ({
            let t = login_after(l, ServerPacket::ChannelState { channel_id, name });
            &&& t.names.get(channel_id) == Some(name)
            &&& t.names.get(other) == l.names.get(other)
            &&& t.highest >= channel_id && t.highest >= l.highest
            &&& t.highest == channel_id || t.highest == l.highest
            &&& l.wanted.len() > 0 && name@ == l.wanted ==> t.target == Some(channel_id)
            &&& l.wanted.len() == 0 || name@ != l.wanted ==> t.target == l.target
        }),
{
}

/// Every reported channel is known under the name it was reported by last, lies within the
/// highest one, and is joined where it was the last to be reported under the wanted name.
/// A login to which none was reported under that name joins the root.
pub proof fn law_login_joins_the_wanted_channel(
    wanted: Seq<char>,
    before: Seq<ServerPacket>,
    channel_id: u32,
    name: String,
    after: Seq<ServerPacket>,
    r: Result<MumbleClient, HandshakeError>,
)
    requires
        logged_in(
            login_history(
                fresh_login(wanted),
                before.push(ServerPacket::ChannelState { channel_id, name }) + after,
            ),
            r,
        ),
        name@ == wanted,
        wanted.len() > 0,
        forall|i: int|
            0 <= i < after.len() ==> (#[trigger] after[i] matches ServerPacket::ChannelState {
                name: other,
                ..
            } ==> other@ != wanted),
        r is Ok,
    ensures
        r->Ok_0.joined() == channel_id,
        r->Ok_0.highest() >= channel_id,
        r->Ok_0.names().contains_key(channel_id),
{
    let report = ServerPacket::ChannelState { channel_id, name };
    let packets = before.push(report) + after;
    law_login_follows_the_reports(wanted, packets);
    lemma_reported_last(before.push(report), wanted, after);
    assert(before.push(report).last() == report);
}

proof fn lemma_reported_last(
    packets: Seq<ServerPacket>,
    wanted: Seq<char>,
    after: Seq<ServerPacket>,
)
    requires
        forall|i: int|
            0 <= i < after.len() ==> (#[trigger] after[i] matches ServerPacket::ChannelState {
                name: other,
                ..
            } ==> other@ != wanted),
    ensures
        reported_under(packets + after, wanted) == reported_under(packets, wanted),
    decreases after.len(),
{
    if after.len() == 0 {
        assert(packets + after == packets);
    } else {
        let earlier = after.drop_last();
        assert((packets + after).drop_last() == packets + earlier);
        assert((packets + after).last() == after[after.len() - 1]);
        assert forall|i: int| 0 <= i < earlier.len() implies (
        #[trigger] earlier[i] matches ServerPacket::ChannelState { name: other, .. } ==> other@
            != wanted) by {
            assert(earlier[i] == after[i]);
        }
        lemma_reported_last(packets, wanted, earlier);
    }
}

/// A login without a channel of the wanted name leads to the root, and one that the server
/// never synchronized leads nowhere.
pub proof fn law_login_without_the_channel_joins_the_root(
    l: Login,
    r: Result<MumbleClient, HandshakeError>,
)
    requires
        logged_in(l, r),
    ensures
        r is Ok <==> l.session is Some,
        r is Ok ==> Some(r->Ok_0.session()) == l.session && r->Ok_0.names() == l.names
            && r->Ok_0.highest() == l.highest,
        r is Ok && l.target is None ==> r->Ok_0.joined() == 0,
        r is Ok && l.target is Some ==> Some(r->Ok_0.joined()) == l.target,
        r is Err ==> r->Err_0 is ClosedBeforeSync,
{
}

} // verus!
