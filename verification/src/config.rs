//! The configuration of the bridge, its defaults and its validation.

use crate::control::MumbleConfig;
use crate::phrase::opt_text;
use crate::sip::SipConfig;
use crate::text::{decimal, decimal_text, push_all, push_text, string_of};
use vstd::prelude::*;

verus! {

/// The whole configuration.
#[derive(Clone, Debug)]
pub struct Config {
    pub sip: SipSection,
    pub mumble: MumbleSection,
    pub audio: AudioSection,
    pub tts: TtsSection,
}

/// The SIP endpoint.
#[derive(Clone, Debug)]
pub struct SipSection {
    pub listen_port: u16,
    pub account_uri: String,
    pub registrar: String,
    pub username: String,
    pub password: String,
    pub max_concurrent_calls: u32,
}

/// The Mumble servers.
#[derive(Clone, Debug)]
pub struct MumbleSection {
    pub default_host: String,
    pub port: u16,
    pub username: String,
    pub password: String,
    pub channel: String,
    pub accept_invalid_cert: bool,
}

/// The audio path.
#[derive(Clone, Debug)]
pub struct AudioSection {
    pub sample_rate: u32,
    pub frame_duration_ms: u32,
    pub opus_bitrate: u32,
    pub jitter_buffer_ms: u32,
    /// The intro is played again to callers who stayed away this many days.
    pub intro_replay_after_days: u64,
}

/// Speech synthesis.
#[derive(Clone, Debug)]
pub struct TtsSection {
    pub enabled: bool,
    pub host: String,
    pub port: u16,
    pub voice: String,
    pub announce_on_connect: bool,
    pub startup_timeout_ms: u64,
    pub request_timeout_ms: u64,
    pub announcement_debounce_ms: u64,
    pub auto_restart: bool,
}

/// A SIP section as written, with gaps where a key is missing.
#[derive(Debug)]
pub struct RawSip {
    pub listen_port: Option<u16>,
    pub account_uri: String,
    pub registrar: Option<String>,
    pub username: Option<String>,
    pub password: Option<String>,
    pub max_concurrent_calls: Option<u32>,
}

/// A Mumble section as written.
#[derive(Debug)]
pub struct RawMumble {
    pub default_host: String,
    pub port: Option<u16>,
    pub username: Option<String>,
    pub password: Option<String>,
    pub channel: Option<String>,
    pub accept_invalid_cert: Option<bool>,
}

/// An audio section as written.
#[derive(Debug)]
pub struct RawAudio {
    pub sample_rate: Option<u32>,
    pub frame_duration_ms: Option<u32>,
    pub opus_bitrate: Option<u32>,
    pub jitter_buffer_ms: Option<u32>,
    pub intro_replay_after_days: Option<u64>,
}

/// A speech section as written.
#[derive(Debug)]
pub struct RawTts {
    pub enabled: Option<bool>,
    pub host: Option<String>,
    pub port: Option<u16>,
    pub voice: Option<String>,
    pub announce_on_connect: Option<bool>,
    pub startup_timeout_ms: Option<u64>,
    pub request_timeout_ms: Option<u64>,
    pub announcement_debounce_ms: Option<u64>,
    pub auto_restart: Option<bool>,
}

/// A configuration as written. The audio and speech sections may be missing.
#[derive(Debug)]
pub struct RawConfig {
    pub sip: RawSip,
    pub mumble: RawMumble,
    pub audio: Option<RawAudio>,
    pub tts: Option<RawTts>,
}

/// Why a configuration is refused.
#[derive(Clone, Copy, Debug, PartialEq, Eq, Structural)]
pub enum ConfigError {
    /// The limit of concurrent calls is below one.
    TooFewConcurrentCalls { got: u32 },
}

/// The verdict on a limit of concurrent calls.
pub open spec fn limit_checked(max_concurrent_calls: u32) -> Result<(), ConfigError> {
    if max_concurrent_calls >= 1 {
        Ok(())
    } else {
        Err(ConfigError::TooFewConcurrentCalls { got: max_concurrent_calls })
    }
}

/// The settings of a Mumble connection under a name, to the given host or to the default
/// one.
pub open spec fn connects_to(
    config: Config,
    host: Option<Seq<char>>,
    username: Seq<char>,
    r: MumbleConfig,
) -> bool {
    &&& r.host@ == (match host {
        Some(h) => h,
        None => config.mumble.default_host@,
    })
    &&& r.port == config.mumble.port
    &&& r.username@ == username
    &&& r.password@ == config.mumble.password@
    &&& r.channel@ == config.mumble.channel@
    &&& r.accept_invalid_cert == config.mumble.accept_invalid_cert
}

pub open spec fn value_or<T>(given: Option<T>, default: T) -> T {
    match given {
        Some(v) => v,
        None => default,
    }
}

pub open spec fn text_or(given: Option<String>, default: Seq<char>) -> Seq<char> {
    match given {
        Some(v) => v@,
        None => default,
    }
}

pub fn default_sip_port() -> (r: u16)
    ensures
        r == 5060,
{
    5060
}

pub fn default_max_calls() -> (r: u32)
    ensures
        r == 10,
{
    10
}

pub fn default_mumble_port() -> (r: u16)
    ensures
        r == 64738,
{
    64738
}

pub fn default_mumble_username() -> (r: String)
    ensures
        r@ == "SIP-Bridge"@,
{
    "SIP-Bridge".to_owned()
}

pub fn default_true() -> (r: bool)
    ensures
        r,
{
    true
}

pub fn default_sample_rate() -> (r: u32)
    ensures
        r == 48000,
{
    48000
}

pub fn default_frame_duration() -> (r: u32)
    ensures
        r == 10,
{
    10
}

pub fn default_opus_bitrate() -> (r: u32)
    ensures
        r == 64000,
{
    64000
}

pub fn default_jitter_buffer() -> (r: u32)
    ensures
        r == 60,
{
    60
}

pub fn default_intro_replay_after_days() -> (r: u64)
    ensures
        r == 30,
{
    30
}

pub fn default_tts_host() -> (r: String)
    ensures
        r@ == "127.0.0.1"@,
{
    "127.0.0.1".to_owned()
}

pub fn default_tts_port() -> (r: u16)
    ensures
        r == 8000,
{
    8000
}

pub fn default_tts_voice() -> (r: String)
    ensures
        r@ == "eponine"@,
{
    "eponine".to_owned()
}

pub fn default_tts_startup_timeout_ms() -> (r: u64)
    ensures
        r == 20_000,
{
    20_000
}

pub fn default_tts_request_timeout_ms() -> (r: u64)
    ensures
        r == 3_000,
{
    3_000
}

pub fn default_tts_announcement_debounce_ms() -> (r: u64)
    ensures
        r == 750,
{
    750
}

fn text_or_else(given: Option<String>, default: String) -> (r: String)
    ensures
        r@ == text_or(given, default@),
{
    match given {
        Some(v) => v,
        None => default,
    }
}

impl RawAudio {
    /// The section with nothing written in it.
    pub fn blank() -> (r: Self)
        ensures
            r.sample_rate is None,
            r.frame_duration_ms is None,
            r.opus_bitrate is None,
            r.jitter_buffer_ms is None,
            r.intro_replay_after_days is None,
    {
        RawAudio {
            sample_rate: None,
            frame_duration_ms: None,
            opus_bitrate: None,
            jitter_buffer_ms: None,
            intro_replay_after_days: None,
        }
    }
}

impl RawTts {
    /// The section with nothing written in it.
    pub fn blank() -> (r: Self)
        ensures
            r.enabled is None,
            r.host is None,
            r.port is None,
            r.voice is None,
            r.announce_on_connect is None,
            r.startup_timeout_ms is None,
            r.request_timeout_ms is None,
            r.announcement_debounce_ms is None,
            r.auto_restart is None,
    {
        RawTts {
            enabled: None,
            host: None,
            port: None,
            voice: None,
            announce_on_connect: None,
            startup_timeout_ms: None,
            request_timeout_ms: None,
            announcement_debounce_ms: None,
            auto_restart: None,
        }
    }
}

impl AudioSection {
    /// Each value is the one written, or its default.
    pub open spec fn fills(self, raw: RawAudio) -> bool {
        &&& self.sample_rate == value_or(raw.sample_rate, 48000)
        &&& self.frame_duration_ms == value_or(raw.frame_duration_ms, 10)
        &&& self.opus_bitrate == value_or(raw.opus_bitrate, 64000)
        &&& self.jitter_buffer_ms == value_or(raw.jitter_buffer_ms, 60)
        &&& self.intro_replay_after_days == value_or(raw.intro_replay_after_days, 30)
    }

    /// Every value is its default.
    pub open spec fn is_default(self) -> bool {
        &&& self.sample_rate == 48000
        &&& self.frame_duration_ms == 10
        &&& self.opus_bitrate == 64000
        &&& self.jitter_buffer_ms == 60
        &&& self.intro_replay_after_days == 30
    }

    /// Fills the gaps of a section.
    pub fn from_raw(raw: RawAudio) -> (r: Self)
        ensures
            r.fills(raw),
    {
        AudioSection {
            sample_rate: raw.sample_rate.unwrap_or(default_sample_rate()),
            frame_duration_ms: raw.frame_duration_ms.unwrap_or(default_frame_duration()),
            opus_bitrate: raw.opus_bitrate.unwrap_or(default_opus_bitrate()),
            jitter_buffer_ms: raw.jitter_buffer_ms.unwrap_or(default_jitter_buffer()),
            intro_replay_after_days: raw.intro_replay_after_days.unwrap_or(
                default_intro_replay_after_days(),
            ),
        }
    }
}

impl Default for AudioSection {
    fn default() -> (r: Self)
        ensures
            r.is_default(),
    {
        AudioSection::from_raw(RawAudio::blank())
    }
}

impl TtsSection {
    /// Each value is the one written, or its default.
    pub open spec fn fills(self, raw: RawTts) -> bool {
        &&& self.enabled == value_or(raw.enabled, false)
        &&& self.host@ == text_or(raw.host, "127.0.0.1"@)
        &&& self.port == value_or(raw.port, 8000)
        &&& self.voice@ == text_or(raw.voice, "eponine"@)
        &&& self.announce_on_connect == value_or(raw.announce_on_connect, true)
        &&& self.startup_timeout_ms == value_or(raw.startup_timeout_ms, 20_000)
        &&& self.request_timeout_ms == value_or(raw.request_timeout_ms, 3_000)
        &&& self.announcement_debounce_ms == value_or(raw.announcement_debounce_ms, 750)
        &&& self.auto_restart == value_or(raw.auto_restart, true)
    }

    /// Every value is its default.
    pub open spec fn is_default(self) -> bool {
        &&& !self.enabled
        &&& self.host@ == "127.0.0.1"@
        &&& self.port == 8000
        &&& self.voice@ == "eponine"@
        &&& self.announce_on_connect
        &&& self.startup_timeout_ms == 20_000
        &&& self.request_timeout_ms == 3_000
        &&& self.announcement_debounce_ms == 750
        &&& self.auto_restart
    }

    /// Fills the gaps of a section.
    pub fn from_raw(raw: RawTts) -> (r: Self)
        ensures
            r.fills(raw),
    {
        TtsSection {
            enabled: raw.enabled.unwrap_or(false),
            host: text_or_else(raw.host, default_tts_host()),
            port: raw.port.unwrap_or(default_tts_port()),
            voice: text_or_else(raw.voice, default_tts_voice()),
            announce_on_connect: raw.announce_on_connect.unwrap_or(default_true()),
            startup_timeout_ms: raw.startup_timeout_ms.unwrap_or(default_tts_startup_timeout_ms()),
            request_timeout_ms: raw.request_timeout_ms.unwrap_or(default_tts_request_timeout_ms()),
            announcement_debounce_ms: raw.announcement_debounce_ms.unwrap_or(
                default_tts_announcement_debounce_ms(),
            ),
            auto_restart: raw.auto_restart.unwrap_or(default_true()),
        }
    }
}

impl Default for TtsSection {
    fn default() -> (r: Self)
        ensures
            r.is_default(),
    {
        TtsSection::from_raw(RawTts::blank())
    }
}

impl SipSection {
    /// Each value is the one written, or its default.
    pub open spec fn fills(self, raw: RawSip) -> bool {
        &&& self.listen_port == value_or(raw.listen_port, 5060)
        &&& self.account_uri@ == raw.account_uri@
        &&& self.registrar@ == text_or(raw.registrar, seq![])
        &&& self.username@ == text_or(raw.username, seq![])
        &&& self.password@ == text_or(raw.password, seq![])
        &&& self.max_concurrent_calls == value_or(raw.max_concurrent_calls, 10)
    }

    /// Fills the gaps of a section.
    pub fn from_raw(raw: RawSip) -> (r: Self)
        ensures
            r.fills(raw),
    {
        SipSection {
            listen_port: raw.listen_port.unwrap_or(default_sip_port()),
            account_uri: raw.account_uri,
            registrar: text_or_else(raw.registrar, String::new()),
            username: text_or_else(raw.username, String::new()),
            password: text_or_else(raw.password, String::new()),
            max_concurrent_calls: raw.max_concurrent_calls.unwrap_or(default_max_calls()),
        }
    }

    /// Accepts a limit of at least one concurrent call.
    pub fn validate(&self) -> (r: Result<(), ConfigError>)
        ensures
            r == limit_checked(self.max_concurrent_calls),
    {
        if self.max_concurrent_calls >= 1 {
            Ok(())
        } else {
            Err(ConfigError::TooFewConcurrentCalls { got: self.max_concurrent_calls })
        }
    }
}

impl MumbleSection {
    /// Each value is the one written, or its default.
    pub open spec fn fills(self, raw: RawMumble) -> bool {
        &&& self.default_host@ == raw.default_host@
        &&& self.port == value_or(raw.port, 64738)
        &&& self.username@ == text_or(raw.username, "SIP-Bridge"@)
        &&& self.password@ == text_or(raw.password, seq![])
        &&& self.channel@ == text_or(raw.channel, seq![])
        &&& self.accept_invalid_cert == value_or(raw.accept_invalid_cert, true)
    }

    /// Fills the gaps of a section.
    pub fn from_raw(raw: RawMumble) -> (r: Self)
        ensures
            r.fills(raw),
    {
        MumbleSection {
            default_host: raw.default_host,
            port: raw.port.unwrap_or(default_mumble_port()),
            username: text_or_else(raw.username, default_mumble_username()),
            password: text_or_else(raw.password, String::new()),
            channel: text_or_else(raw.channel, String::new()),
            accept_invalid_cert: raw.accept_invalid_cert.unwrap_or(default_true()),
        }
    }
}

impl Config {
    /// Fills the gaps of a configuration; a missing section is all defaults.
    pub fn from_raw(raw: RawConfig) -> (r: Self)
        ensures
            r.sip.fills(raw.sip),
            r.mumble.fills(raw.mumble),
            match raw.audio {
                Some(a) => r.audio.fills(a),
                None => r.audio.is_default(),
            },
            match raw.tts {
                Some(t) => r.tts.fills(t),
                None => r.tts.is_default(),
            },
    {
        Config {
            sip: SipSection::from_raw(raw.sip),
            mumble: MumbleSection::from_raw(raw.mumble),
            audio: match raw.audio {
                Some(a) => AudioSection::from_raw(a),
                None => AudioSection::default(),
            },
            tts: match raw.tts {
                Some(t) => TtsSection::from_raw(t),
                None => TtsSection::default(),
            },
        }
    }

    /// Accepts a configuration whose SIP section is valid.
    pub fn validate(&self) -> (r: Result<(), ConfigError>)
        ensures
            r == limit_checked(self.sip.max_concurrent_calls),
    {
        self.sip.validate()
    }

    /// The settings of the SIP endpoint.
    pub fn sip_config(&self) -> (r: SipConfig)
        ensures
            r.listen_port == self.sip.listen_port,
            r.account_uri@ == self.sip.account_uri@,
            r.registrar@ == self.sip.registrar@,
            r.username@ == self.sip.username@,
            r.password@ == self.sip.password@,
            r.max_concurrent_calls == self.sip.max_concurrent_calls,
    {
        SipConfig {
            listen_port: self.sip.listen_port,
            account_uri: self.sip.account_uri.clone(),
            registrar: self.sip.registrar.clone(),
            username: self.sip.username.clone(),
            password: self.sip.password.clone(),
            max_concurrent_calls: self.sip.max_concurrent_calls,
        }
    }

    /// The settings of one Mumble connection: to the given host, or to the
    /// default one.
    pub fn mumble_config(&self, host_override: Option<&str>) -> (r: MumbleConfig)
        ensures
            connects_to(*self, opt_text(host_override), self.mumble.username@, r),
    {
        MumbleConfig {
            host: match host_override {
                Some(h) => h.to_owned(),
                None => self.mumble.default_host.clone(),
            },
            port: self.mumble.port,
            username: self.mumble.username.clone(),
            password: self.mumble.password.clone(),
            channel: self.mumble.channel.clone(),
            accept_invalid_cert: self.mumble.accept_invalid_cert,
        }
    }
}

impl ConfigError {
    /// The error in words.
    pub fn message(&self) -> (r: String)
        ensures
            r@ == (match *self {
                ConfigError::TooFewConcurrentCalls { got } => {
                    "sip.max_concurrent_calls must be 1 or greater (got "@ + decimal(got as nat)
                        + ")"@
                },
            }),
    {
        match *self {
            ConfigError::TooFewConcurrentCalls { got } => {
                let mut out: Vec<char> = Vec::new();
                push_text(&mut out, "sip.max_concurrent_calls must be 1 or greater (got ");
                let digits = decimal_text(got as u64);
                push_all(&mut out, digits.as_slice());
                push_text(&mut out, ")");
                string_of(out.as_slice())
            },
        }
    }
}

/// What is written in a section is what counts.
pub proof fn law_written_values_count(
    audio: AudioSection,
    raw_audio: RawAudio,
    tts: TtsSection,
    raw_tts: RawTts,
    sip: SipSection,
    raw_sip: RawSip,
    mumble: MumbleSection,
    raw_mumble: RawMumble,
)
    requires
        audio.fills(raw_audio),
        tts.fills(raw_tts),
        sip.fills(raw_sip),
        mumble.fills(raw_mumble),
    ensures
        raw_audio.sample_rate matches Some(v) ==> audio.sample_rate == v,
        raw_audio.frame_duration_ms matches Some(v) ==> audio.frame_duration_ms == v,
        raw_audio.opus_bitrate matches Some(v) ==> audio.opus_bitrate == v,
        raw_audio.jitter_buffer_ms matches Some(v) ==> audio.jitter_buffer_ms == v,
        raw_audio.intro_replay_after_days matches Some(v) ==> audio.intro_replay_after_days == v,
        raw_tts.enabled matches Some(v) ==> tts.enabled == v,
        raw_tts.host matches Some(v) ==> tts.host@ == v@,
        raw_tts.port matches Some(v) ==> tts.port == v,
        raw_tts.voice matches Some(v) ==> tts.voice@ == v@,
        raw_tts.announce_on_connect matches Some(v) ==> tts.announce_on_connect == v,
        raw_tts.startup_timeout_ms matches Some(v) ==> tts.startup_timeout_ms == v,
        raw_tts.request_timeout_ms matches Some(v) ==> tts.request_timeout_ms == v,
        raw_tts.announcement_debounce_ms matches Some(v) ==> tts.announcement_debounce_ms == v,
        raw_tts.auto_restart matches Some(v) ==> tts.auto_restart == v,
        raw_sip.listen_port matches Some(v) ==> sip.listen_port == v,
        sip.account_uri@ == raw_sip.account_uri@,
        raw_sip.registrar matches Some(v) ==> sip.registrar@ == v@,
        raw_sip.username matches Some(v) ==> sip.username@ == v@,
        raw_sip.password matches Some(v) ==> sip.password@ == v@,
        raw_sip.max_concurrent_calls matches Some(v) ==> sip.max_concurrent_calls == v,
        mumble.default_host@ == raw_mumble.default_host@,
        raw_mumble.port matches Some(v) ==> mumble.port == v,
        raw_mumble.username matches Some(v) ==> mumble.username@ == v@,
        raw_mumble.password matches Some(v) ==> mumble.password@ == v@,
        raw_mumble.channel matches Some(v) ==> mumble.channel@ == v@,
        raw_mumble.accept_invalid_cert matches Some(v) ==> mumble.accept_invalid_cert == v,
{
}

/// What is not written in a section has its default, whatever else is written.
pub proof fn law_gaps_have_their_defaults(
    audio: AudioSection,
    raw_audio: RawAudio,
    tts: TtsSection,
    raw_tts: RawTts,
    sip: SipSection,
    raw_sip: RawSip,
    mumble: MumbleSection,
    raw_mumble: RawMumble,
)
    requires
        audio.fills(raw_audio),
        tts.fills(raw_tts),
        sip.fills(raw_sip),
        mumble.fills(raw_mumble),
    ensures
        raw_audio.sample_rate is None ==> audio.sample_rate == 48000,
        raw_audio.frame_duration_ms is None ==> audio.frame_duration_ms == 10,
        raw_audio.opus_bitrate is None ==> audio.opus_bitrate == 64000,
        raw_audio.jitter_buffer_ms is None ==> audio.jitter_buffer_ms == 60,
        raw_audio.intro_replay_after_days is None ==> audio.intro_replay_after_days == 30,
        raw_tts.enabled is None ==> !tts.enabled,
        raw_tts.host is None ==> tts.host@ == "127.0.0.1"@,
        raw_tts.port is None ==> tts.port == 8000,
        raw_tts.voice is None ==> tts.voice@ == "eponine"@,
        raw_tts.announce_on_connect is None ==> tts.announce_on_connect,
        raw_tts.startup_timeout_ms is None ==> tts.startup_timeout_ms == 20_000,
        raw_tts.request_timeout_ms is None ==> tts.request_timeout_ms == 3_000,
        raw_tts.announcement_debounce_ms is None ==> tts.announcement_debounce_ms == 750,
        raw_tts.auto_restart is None ==> tts.auto_restart,
        raw_sip.listen_port is None ==> sip.listen_port == 5060,
        raw_sip.registrar is None ==> sip.registrar@.len() == 0,
        raw_sip.username is None ==> sip.username@.len() == 0,
        raw_sip.password is None ==> sip.password@.len() == 0,
        raw_sip.max_concurrent_calls is None ==> sip.max_concurrent_calls == 10,
        raw_mumble.port is None ==> mumble.port == 64738,
        raw_mumble.username is None ==> mumble.username@ == "SIP-Bridge"@,
        raw_mumble.password is None ==> mumble.password@.len() == 0,
        raw_mumble.channel is None ==> mumble.channel@.len() == 0,
        raw_mumble.accept_invalid_cert is None ==> mumble.accept_invalid_cert,
{
}

/// A section that is missing counts as one in which nothing is written.
pub proof fn law_missing_sections_are_blank(
    audio: AudioSection,
    raw_audio: RawAudio,
    tts: TtsSection,
    raw_tts: RawTts,
)
    requires
        raw_audio.sample_rate is None,
        raw_audio.frame_duration_ms is None,
        raw_audio.opus_bitrate is None,
        raw_audio.jitter_buffer_ms is None,
        raw_audio.intro_replay_after_days is None,
        raw_tts.enabled is None,
        raw_tts.host is None,
        raw_tts.port is None,
        raw_tts.voice is None,
        raw_tts.announce_on_connect is None,
        raw_tts.startup_timeout_ms is None,
        raw_tts.request_timeout_ms is None,
        raw_tts.announcement_debounce_ms is None,
        raw_tts.auto_restart is None,
    ensures
        audio.is_default() <==> audio.fills(raw_audio),
        tts.is_default() <==> tts.fills(raw_tts),
{
}

/// Every limit is accepted but zero, which is reported.
pub proof fn law_only_a_limit_of_zero_is_refused(max_concurrent_calls: u32)
    ensures
        limit_checked(max_concurrent_calls) is Ok <==> max_concurrent_calls != 0,
        limit_checked(0) == Err::<(), ConfigError>(ConfigError::TooFewConcurrentCalls { got: 0 }),
{
}

/// A call reaches the server it asked for, and the default one where it asked for none,
/// under the name it was given and with the settings of the bridge.
pub proof fn law_calls_reach_their_server(
    config: Config,
    host: Seq<char>,
    username: Seq<char>,
    asked: MumbleConfig,
    unasked: MumbleConfig,
)
    requires
        connects_to(config, Some(host), username, asked),
        connects_to(config, None, username, unasked),
    ensures
        asked.host@ == host,
        unasked.host@ == config.mumble.default_host@,
        asked.username@ == username && unasked.username@ == username,
        asked.port == config.mumble.port && unasked.port == config.mumble.port,
        asked.password@ == config.mumble.password@ && unasked.password@ == config.mumble.password@,
        asked.channel@ == config.mumble.channel@ && unasked.channel@ == config.mumble.channel@,
        asked.accept_invalid_cert == config.mumble.accept_invalid_cert,
        unasked.accept_invalid_cert == config.mumble.accept_invalid_cert,
{
}

} // verus!
