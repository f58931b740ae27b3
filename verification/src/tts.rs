//! The decisions of the speech synthesis client.

use crate::cache::{
    fetched, law_stored_phrase_is_found, law_storing_evicts_only_the_oldest, lemma_place, lookup,
    place, stored, CacheState, Entry,
};
use crate::config::TtsSection;
use crate::phrase::{channel_announcement_phrase, channel_phrase, opt_text};
use crate::text::{
    chars_of, decimal, decimal_text, in_class, is_space, lemma_span_in, lemma_tail_in, push_all,
    push_text, span_in, string_of, tail_in, trim, trim_start, trimmed, CharClass,
};
use vstd::prelude::*;

verus! {

/// How long to wait between two looks at a server that is starting.
pub const POLL_INTERVAL_MS: u64 = 250;

/// The only HTTP status that comes with audio.
pub const STATUS_OK: u16 = 200;

/// A request for speech: a form posted to a URL.
#[derive(Debug)]
pub struct TtsRequest {
    pub url: String,
    pub text: String,
    pub voice_url: Option<String>,
}

/// What is left to do for a phrase.
#[derive(Debug)]
pub enum SynthesisStep {
    /// Nothing: its samples are known.
    Done { pcm: Vec<i16> },
    /// Make the server ready, starting it only where that is allowed, and post
    /// the request.
    Request { allow_spawn: bool, request: TtsRequest },
}

/// Why speech was not synthesized.
#[derive(Debug, PartialEq, Eq)]
pub enum TtsError {
    /// The server is not ready and must not be started.
    RestartDisabled,
    /// The server exited before it became ready. The status is given in words.
    SidecarExited { status: String },
    /// The state of the server process could not be queried.
    SidecarUnknown,
    /// The server did not become healthy in time.
    StartupTimeout { after_ms: u64 },
    /// The server answered with another status than `STATUS_OK`, given in words.
    BadStatus { status: String },
}

/// What is known of the server process.
#[derive(Debug)]
pub enum SidecarStatus {
    /// None was started.
    Absent,
    Running,
    /// It is gone, with a status given in words.
    Exited { status: String },
    /// The query failed.
    Unknown,
}

/// The next step towards a ready server.
#[derive(Debug)]
pub enum ReadyStep {
    Ready,
    /// Start the server if none is running, and look again.
    Start,
    /// Wait for `POLL_INTERVAL_MS` and look again.
    Wait,
    Fail { error: TtsError },
}

/// The client, apart from its connections.
pub struct PocketTtsRuntime {
    config: TtsSection,
    sample_rate: u32,
    cache: CacheState,
}

/// The name under which a phrase is cached.
pub open spec fn cache_key(voice: Seq<char>, sample_rate: nat, phrase: Seq<char>) -> Seq<char> {
    voice + "|"@ + decimal(sample_rate) + "|"@ + phrase
}

/// The address of an endpoint of the server.
pub open spec fn endpoint(host: Seq<char>, port: nat, path: Seq<char>) -> Seq<char> {
    "http://"@ + host + ":"@ + decimal(port) + path
}

fn endpoint_text(host: &str, port: u16, path: &str) -> (r: String)
    ensures
        r@ == endpoint(host@, port as nat, path@),
{
    let mut out = chars_of("http://");
    push_text(&mut out, host);
    push_text(&mut out, ":");
    let digits = decimal_text(port as u64);
    push_all(&mut out, digits.as_slice());
    push_text(&mut out, path);
    string_of(out.as_slice())
}

/// What the first health check leads to.
pub open spec fn first_checked(healthy: bool, allow_spawn: bool) -> ReadyStep {
    if healthy {
        ReadyStep::Ready
    } else if allow_spawn {
        ReadyStep::Start
    } else {
        ReadyStep::Fail { error: TtsError::RestartDisabled }
    }
}

/// Decides after the first health check.
pub fn after_first_check(healthy: bool, allow_spawn: bool) -> (r: ReadyStep)
    ensures
        r == first_checked(healthy, allow_spawn),
{
    if healthy {
        ReadyStep::Ready
    } else if allow_spawn {
        ReadyStep::Start
    } else {
        ReadyStep::Fail { error: TtsError::RestartDisabled }
    }
}

/// Tells whether a server process has to be started.
pub fn must_spawn(sidecar: &SidecarStatus) -> (r: bool)
    ensures
        r == !(sidecar is Running),
{
    match sidecar {
        SidecarStatus::Running => false,
        _ => true,
    }
}

/// What a look at a starting server leads to. A healthy server is ready whatever
/// became of the process, and a process that is gone fails before its deadline.
pub open spec fn polled(
    healthy: bool,
    sidecar: SidecarStatus,
    deadline_reached: bool,
    timeout_ms: u64,
) -> ReadyStep {
    if healthy {
        ReadyStep::Ready
    } else if let SidecarStatus::Exited { status } = sidecar {
        ReadyStep::Fail { error: TtsError::SidecarExited { status } }
    } else if sidecar is Unknown {
        ReadyStep::Fail { error: TtsError::SidecarUnknown }
    } else if deadline_reached {
        ReadyStep::Fail { error: TtsError::StartupTimeout { after_ms: timeout_ms } }
    } else {
        ReadyStep::Wait
    }
}

/// Decides after a look at a starting server.
pub fn after_poll(
    healthy: bool,
    sidecar: SidecarStatus,
    deadline_reached: bool,
    timeout_ms: u64,
) -> (r: ReadyStep)
    ensures
        r == polled(healthy, sidecar, deadline_reached, timeout_ms),
{
    if healthy {
        return ReadyStep::Ready;
    }
    match sidecar {
        SidecarStatus::Exited { status } => ReadyStep::Fail {
            error: TtsError::SidecarExited { status },
        },
        SidecarStatus::Unknown => ReadyStep::Fail { error: TtsError::SidecarUnknown },
        _ => if deadline_reached {
            ReadyStep::Fail { error: TtsError::StartupTimeout { after_ms: timeout_ms } }
        } else {
            ReadyStep::Wait
        },
    }
}

/// The verdict on the status of a reply.
pub open spec fn status_checked(code: u16, status: String) -> Result<(), TtsError> {
    if code == STATUS_OK {
        Ok(())
    } else {
        Err(TtsError::BadStatus { status })
    }
}

/// Accepts the status of a reply that carries audio. It is given as a number and in
/// words.
pub fn check_status(code: u16, status: String) -> (r: Result<(), TtsError>)
    ensures
        r == status_checked(code, status),
{
    if code == STATUS_OK {
        Ok(())
    } else {
        Err(TtsError::BadStatus { status })
    }
}

impl TtsError {
    /// The error in words.
    pub fn message(&self) -> (r: String)
        ensures
            r@ == (match *self {
                TtsError::RestartDisabled => "pocket-tts sidecar not ready and auto_restart=false"@,
                TtsError::SidecarExited { status } => {
                    "pocket-tts sidecar exited before becoming ready (status="@ + status@ + ")"@
                },
                TtsError::SidecarUnknown => "failed to query pocket-tts sidecar status"@,
                TtsError::StartupTimeout { after_ms } => {
                    "pocket-tts sidecar did not become healthy within "@ + decimal(after_ms as nat)
                        + "ms"@
                },
                TtsError::BadStatus { status } => {
                    "pocket-tts returned non-OK status "@ + status@
                },
            }),
    {
        let mut out: Vec<char> = Vec::new();
        match self {
            TtsError::RestartDisabled => {
                push_text(&mut out, "pocket-tts sidecar not ready and auto_restart=false");
            },
            TtsError::SidecarExited { status } => {
                push_text(&mut out, "pocket-tts sidecar exited before becoming ready (status=");
                push_text(&mut out, status.as_str());
                push_text(&mut out, ")");
            },
            TtsError::SidecarUnknown => {
                push_text(&mut out, "failed to query pocket-tts sidecar status");
            },
            TtsError::StartupTimeout { after_ms } => {
                push_text(&mut out, "pocket-tts sidecar did not become healthy within ");
                let digits = decimal_text(*after_ms);
                push_all(&mut out, digits.as_slice());
                push_text(&mut out, "ms");
            },
            TtsError::BadStatus { status } => {
                push_text(&mut out, "pocket-tts returned non-OK status ");
                push_text(&mut out, status.as_str());
            },
        }
        string_of(out.as_slice())
    }
}

impl PocketTtsRuntime {
    /// The speech settings.
    pub closed spec fn settings(&self) -> TtsSection {
        self.config
    }

    /// The rate of the samples.
    pub closed spec fn rate(&self) -> u32 {
        self.sample_rate
    }

    /// The cached phrases.
    pub closed spec fn entries(&self) -> Seq<Entry> {
        self.cache@
    }

    /// The cache is valid.
    pub closed spec fn well_formed(&self) -> bool {
        self.cache.well_formed()
    }

    /// The name under which this client caches a phrase.
    pub open spec fn key(&self, phrase: Seq<char>) -> Seq<char> {
        cache_key(self.settings().voice@, self.rate() as nat, phrase)
    }

    /// The step for a phrase, given the entries of the cache.
    pub open spec fn step_for(&self, entries: Seq<Entry>, phrase: Seq<char>, r: SynthesisStep) -> bool {
        match lookup(entries, self.key(phrase)) {
            Some(known) => r matches SynthesisStep::Done { pcm } && pcm@ == known,
            None => {
                &&& r matches SynthesisStep::Request { allow_spawn, request }
                &&& allow_spawn == self.settings().auto_restart
                &&& request.url@ == endpoint(self.settings().host@, self.settings().port as nat, "/tts"@)
                &&& request.text@ == phrase
                &&& match request.voice_url {
                    Some(v) => v@ == self.settings().voice@ && trim(
                        self.settings().voice@,
                        CharClass::Space,
                    ).len() > 0,
                    None => trim(self.settings().voice@, CharClass::Space).len() == 0,
                }
            },
        }
    }

    /// A client with an empty cache.
    pub fn new(config: TtsSection, sample_rate: u32) -> (r: Self)
        ensures
            r.well_formed(),
            r.settings() == config,
            r.rate() == sample_rate,
            r.entries() == Seq::<Entry>::empty(),
    {
        PocketTtsRuntime { config, sample_rate, cache: CacheState::new() }
    }

    fn key_text(&self, phrase: &str) -> (r: String)
        ensures
            r@ == self.key(phrase@),
    {
        let mut out = chars_of(self.config.voice.as_str());
        push_text(&mut out, "|");
        let digits = decimal_text(self.sample_rate as u64);
        push_all(&mut out, digits.as_slice());
        push_text(&mut out, "|");
        push_text(&mut out, phrase);
        string_of(out.as_slice())
    }

    /// The address at which the health of the server is checked.
    pub fn health_url(&self) -> (r: String)
        ensures
            r@ == endpoint(self.settings().host@, self.settings().port as nat, "/health"@),
    {
        endpoint_text(self.config.host.as_str(), self.config.port, "/health")
    }

    /// The request for a phrase. A blank voice is left to the server.
    pub fn request_for(&self, phrase: &str) -> (r: TtsRequest)
        ensures
            r.url@ == endpoint(self.settings().host@, self.settings().port as nat, "/tts"@),
            r.text@ == phrase@,
            match r.voice_url {
                Some(v) => v@ == self.settings().voice@ && trim(
                    self.settings().voice@,
                    CharClass::Space,
                ).len() > 0,
                None => trim(self.settings().voice@, CharClass::Space).len() == 0,
            },
    {
        let voice = chars_of(self.config.voice.as_str());
        let named: bool = trimmed(voice.as_slice(), CharClass::Space).len() > 0;
        TtsRequest {
            url: endpoint_text(self.config.host.as_str(), self.config.port, "/tts"),
            text: phrase.to_owned(),
            voice_url: if named {
                Some(self.config.voice.clone())
            } else {
                None
            },
        }
    }

    /// Begins the synthesis of a phrase: its samples where they are cached, and
    /// otherwise the request to make.
    pub fn synthesize_phrase(&mut self, phrase: &str) -> (r: SynthesisStep)
        requires
            old(self).well_formed(),
        ensures
            final(self).well_formed(),
            final(self).settings() == old(self).settings(),
            final(self).rate() == old(self).rate(),
            final(self).entries() == fetched(old(self).entries(), old(self).key(phrase@)),
            old(self).step_for(old(self).entries(), phrase@, r),
    {
        let key = self.key_text(phrase);
        match self.cache.get(key.as_str()) {
            Some(pcm) => SynthesisStep::Done { pcm },
            None => SynthesisStep::Request {
                allow_spawn: self.config.auto_restart,
                request: self.request_for(phrase),
            },
        }
    }

    /// Begins the announcement of a channel.
    pub fn synth_channel_announcement(
        &mut self,
        channel_name: Option<&str>,
        channel_id: u32,
    ) -> (r: SynthesisStep)
        requires
            old(self).well_formed(),
        ensures
            final(self).well_formed(),
            final(self).settings() == old(self).settings(),
            final(self).rate() == old(self).rate(),
            final(self).entries() == fetched(
                old(self).entries(),
                old(self).key(channel_phrase(opt_text(channel_name), channel_id as nat)),
            ),
            old(self).step_for(
                old(self).entries(),
                channel_phrase(opt_text(channel_name), channel_id as nat),
                r,
            ),
    {
        let phrase = channel_announcement_phrase(channel_name, channel_id);
        self.synthesize_phrase(phrase.as_str())
    }

    /// Keeps the samples that were synthesized for a phrase.
    pub fn keep(&mut self, phrase: &str, pcm: Vec<i16>)
        requires
            old(self).well_formed(),
        ensures
            final(self).well_formed(),
            final(self).settings() == old(self).settings(),
            final(self).rate() == old(self).rate(),
            final(self).entries() == stored(old(self).entries(), old(self).key(phrase@), pcm@),
    {
        let key = self.key_text(phrase);
        self.cache.insert(key, pcm);
    }

    /// The command that starts the server.
    pub fn sidecar_command(&self) -> (r: Vec<String>)
        ensures
            r@.map_values(|s: String| s@) == seq![
                "uvx"@,
                "pocket-tts"@,
                "serve"@,
                "--port"@,
                decimal(self.settings().port as nat),
            ],
    {
        let mut out: Vec<String> = Vec::new();
        out.push("uvx".to_owned());
        out.push("pocket-tts".to_owned());
        out.push("serve".to_owned());
        out.push("--port".to_owned());
        let digits = decimal_text(self.config.port as u64);
        out.push(string_of(digits.as_slice()));
        assert(out@.map_values(|s: String| s@) =~= seq![
            "uvx"@,
            "pocket-tts"@,
            "serve"@,
            "--port"@,
            decimal(self.config.port as nat),
        ]);
        out
    }
}

/// A phrase whose samples were kept is not requested again: the next synthesis
/// yields those samples.
pub proof fn law_kept_phrase_is_not_requested_again(
    client: PocketTtsRuntime,
    phrase: Seq<char>,
    pcm: Seq<i16>,
    r: SynthesisStep,
)
    requires
        client.step_for(stored(client.entries(), client.key(phrase), pcm), phrase, r),
    ensures
        r matches SynthesisStep::Done { pcm: again } && again@ == pcm,
{
    law_stored_phrase_is_found(client.cache@, client.key(phrase), pcm);
}

/// Keeping the samples of one phrase never changes what another phrase sounds like:
/// the other one yields the samples it had, or is requested.
pub proof fn law_phrases_do_not_share_samples(
    client: PocketTtsRuntime,
    phrase: Seq<char>,
    pcm: Seq<i16>,
    other: Seq<char>,
    r: SynthesisStep,
)
    requires
        client.well_formed(),
        phrase != other,
        client.step_for(stored(client.entries(), client.key(phrase), pcm), other, r),
    ensures
        r matches SynthesisStep::Done { pcm: heard } ==> lookup(client.entries(), client.key(other))
            == Some(heard@),
{
    let head = client.config.voice@ + "|"@ + decimal(client.sample_rate as nat) + "|"@;
    assert(client.key(phrase).skip(head.len() as int) =~= phrase);
    assert(client.key(other).skip(head.len() as int) =~= other);
    law_storing_evicts_only_the_oldest(client.cache@, client.key(phrase), pcm, client.key(other));
}

/// A server is waited for only while its process may still be alive and its
/// deadline lies ahead, so waiting ends with the deadline.
pub proof fn law_waiting_ends_with_the_deadline(
    healthy: bool,
    sidecar: SidecarStatus,
    timeout_ms: u64,
)
    ensures
        !(polled(healthy, sidecar, true, timeout_ms) is Wait),
        polled(healthy, sidecar, false, timeout_ms) is Wait ==> !healthy && (sidecar is Running
            || sidecar is Absent),
{
}

/// A healthy server is ready, however it came to be and however late it is. One that is
/// not is waited for as long as its process may still come up and there is time left, and
/// its failure is reported otherwise.
pub proof fn law_servers_are_waited_for(
    sidecar: SidecarStatus,
    late: bool,
    timeout_ms: u64,
    allow_spawn: bool,
    status: String,
)
    ensures
        polled(true, sidecar, late, timeout_ms) is Ready,
        !(polled(false, sidecar, late, timeout_ms) is Ready),
        !(polled(false, sidecar, late, timeout_ms) is Start),
        polled(false, SidecarStatus::Running, false, timeout_ms) is Wait,
        polled(false, SidecarStatus::Absent, false, timeout_ms) is Wait,
        polled(false, SidecarStatus::Running, true, timeout_ms) == (ReadyStep::Fail {
            error: TtsError::StartupTimeout { after_ms: timeout_ms },
        }),
        polled(false, SidecarStatus::Absent, true, timeout_ms) == (ReadyStep::Fail {
            error: TtsError::StartupTimeout { after_ms: timeout_ms },
        }),
        polled(false, SidecarStatus::Exited { status }, late, timeout_ms) == (ReadyStep::Fail {
            error: TtsError::SidecarExited { status },
        }),
        polled(false, SidecarStatus::Unknown, late, timeout_ms) == (ReadyStep::Fail {
            error: TtsError::SidecarUnknown,
        }),
        first_checked(true, allow_spawn) is Ready,
        first_checked(false, true) is Start,
        first_checked(false, false) == (ReadyStep::Fail { error: TtsError::RestartDisabled }),
{
}

/// A reply counts exactly where its status is 200, and any other status is reported.
pub proof fn law_only_good_replies_count(code: u16, status: String)
    ensures
        status_checked(code, status) is Ok <==> code == 200,
        code != 200 ==> status_checked(code, status) == Err::<(), TtsError>(
            TtsError::BadStatus { status },
        ),
{
}

/// A phrase that is not cached is asked for as it is, in the configured voice, or in the
/// server's own where the configured one is blank. The server is started for it exactly
/// where the settings allow that.
pub proof fn law_phrases_are_asked_for_as_they_are(
    client: PocketTtsRuntime,
    entries: Seq<Entry>,
    phrase: Seq<char>,
    r: SynthesisStep,
)
    requires
        client.step_for(entries, phrase, r),
        forall|i: int|
            0 <= i < entries.len() ==> (#[trigger] entries[i]).0 != client.key(phrase),
    ensures
        ({
            let voice = client.settings().voice@;
            let blank = forall|i: int| 0 <= i < voice.len() ==> is_space(#[trigger] voice[i]);
            &&& r matches SynthesisStep::Request { allow_spawn, request }
            &&& request.text@ == phrase
            &&& allow_spawn == client.settings().auto_restart
            &&& blank ==> request.voice_url is None
            &&& !blank ==> request.voice_url is Some && request.voice_url->0@ == voice
            &&& request.url@ == "http://"@ + client.settings().host@ + ":"@ + decimal(
                client.settings().port as nat,
            ) + "/tts"@
        }),
{
    lemma_place(entries, client.key(phrase));
    if let Some(i) = place(entries, client.key(phrase)) {
        assert(entries[i].0 == client.key(phrase));
    }
    let voice = client.settings().voice@;
    let k = CharClass::Space;
    lemma_span_in(voice, k);
    let t = trim_start(voice, k);
    lemma_tail_in(t, k);
    let n = span_in(voice, k) as int;
    if forall|i: int| 0 <= i < voice.len() ==> is_space(#[trigger] voice[i]) {
        if n < voice.len() {
            assert(is_space(voice[n]));
        }
    } else {
        if n >= voice.len() {
            assert forall|i: int| 0 <= i < voice.len() implies is_space(#[trigger] voice[i]) by {
                assert(in_class(k, voice[i]));
            }
        }
        assert(t[0] == voice[n]);
        if tail_in(t, k) == t.len() {
            assert(in_class(k, t[0]));
        }
    }
}

} // verus!
