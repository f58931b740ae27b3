use mumble_sip::config::{
    AudioSection, Config, ConfigError, RawAudio, RawConfig, RawMumble, RawSip, RawTts, TtsSection,
};

fn text(table: &toml::Table, key: &str) -> Option<String> {
    table.get(key).map(|v| v.as_str().expect("text").to_string())
}

fn number(table: &toml::Table, key: &str) -> Option<i64> {
    table.get(key).map(|v| v.as_integer().expect("number"))
}

fn flag(table: &toml::Table, key: &str) -> Option<bool> {
    table.get(key).map(|v| v.as_bool().expect("flag"))
}

fn parse(source: &str) -> Option<Config> {
    let root: toml::Table = source.parse().ok()?;
    let sip = root.get("sip")?.as_table()?;
    let mumble = root.get("mumble")?.as_table()?;
    Some(Config::from_raw(RawConfig {
        sip: RawSip {
            listen_port: number(sip, "listen_port").map(|n| n as u16),
            account_uri: text(sip, "account_uri")?,
            registrar: text(sip, "registrar"),
            username: text(sip, "username"),
            password: text(sip, "password"),
            max_concurrent_calls: number(sip, "max_concurrent_calls").map(|n| n as u32),
        },
        mumble: RawMumble {
            default_host: text(mumble, "default_host")?,
            port: number(mumble, "port").map(|n| n as u16),
            username: text(mumble, "username"),
            password: text(mumble, "password"),
            channel: text(mumble, "channel"),
            accept_invalid_cert: flag(mumble, "accept_invalid_cert"),
        },
        audio: root.get("audio").and_then(|v| v.as_table()).map(|t| RawAudio {
            sample_rate: number(t, "sample_rate").map(|n| n as u32),
            frame_duration_ms: number(t, "frame_duration_ms").map(|n| n as u32),
            opus_bitrate: number(t, "opus_bitrate").map(|n| n as u32),
            jitter_buffer_ms: number(t, "jitter_buffer_ms").map(|n| n as u32),
            intro_replay_after_days: number(t, "intro_replay_after_days").map(|n| n as u64),
        }),
        tts: root.get("tts").and_then(|v| v.as_table()).map(|t| RawTts {
            enabled: flag(t, "enabled"),
            host: text(t, "host"),
            port: number(t, "port").map(|n| n as u16),
            voice: text(t, "voice"),
            announce_on_connect: flag(t, "announce_on_connect"),
            startup_timeout_ms: number(t, "startup_timeout_ms").map(|n| n as u64),
            request_timeout_ms: number(t, "request_timeout_ms").map(|n| n as u64),
            announcement_debounce_ms: number(t, "announcement_debounce_ms").map(|n| n as u64),
            auto_restart: flag(t, "auto_restart"),
        }),
    }))
}

#[test]
fn parses_tts_defaults_when_section_missing() {
    let parsed: Config = parse(
        r#"
[sip]
listen_port = 5060
account_uri = "sip:bridge@pbx.example.com"

[mumble]
default_host = "mumble.example.com"
"#,
    )
    .expect("config should parse");

    assert!(!parsed.tts.enabled);
    assert_eq!(parsed.tts.host, "127.0.0.1");
    assert_eq!(parsed.tts.port, 8000);
    assert_eq!(parsed.tts.voice, "eponine");
    assert!(parsed.tts.announce_on_connect);
    assert_eq!(parsed.tts.startup_timeout_ms, 20_000);
    assert_eq!(parsed.tts.request_timeout_ms, 3_000);
    assert_eq!(parsed.tts.announcement_debounce_ms, 750);
    assert!(parsed.tts.auto_restart);
}

#[test]
fn parses_tts_overrides() {
    let parsed: Config = parse(
        r#"
[sip]
listen_port = 5060
account_uri = "sip:bridge@pbx.example.com"

[mumble]
default_host = "mumble.example.com"

[tts]
enabled = true
host = "0.0.0.0"
port = 9000
voice = "alice"
announce_on_connect = false
startup_timeout_ms = 5000
request_timeout_ms = 1500
announcement_debounce_ms = 400
auto_restart = false
"#,
    )
    .expect("config should parse");

    assert!(parsed.tts.enabled);
    assert_eq!(parsed.tts.host, "0.0.0.0");
    assert_eq!(parsed.tts.port, 9000);
    assert_eq!(parsed.tts.voice, "alice");
    assert!(!parsed.tts.announce_on_connect);
    assert_eq!(parsed.tts.startup_timeout_ms, 5_000);
    assert_eq!(parsed.tts.request_timeout_ms, 1_500);
    assert_eq!(parsed.tts.announcement_debounce_ms, 400);
    assert!(!parsed.tts.auto_restart);
}

#[test]
fn validate_rejects_zero_max_concurrent_calls() {
    let parsed: Config = parse(
        r#"
[sip]
listen_port = 5060
account_uri = "sip:bridge@pbx.example.com"
max_concurrent_calls = 0

[mumble]
default_host = "mumble.example.com"
"#,
    )
    .expect("config should parse");

    assert!(parsed.validate().is_err());
    let error = parsed.validate().unwrap_err();
    assert_eq!(error, ConfigError::TooFewConcurrentCalls { got: 0 });
    assert_eq!(
        error.message(),
        "sip.max_concurrent_calls must be 1 or greater (got 0)"
    );
}

#[test]
fn validate_accepts_positive_max_concurrent_calls() {
    let parsed: Config = parse(
        r#"
[sip]
listen_port = 5060
account_uri = "sip:bridge@pbx.example.com"
max_concurrent_calls = 1

[mumble]
default_host = "mumble.example.com"
"#,
    )
    .expect("config should parse");

    parsed.validate().expect("config should validate");
}

#[test]
fn missing_keys_get_their_defaults() {
    let parsed: Config = parse(
        r#"
[sip]
account_uri = "sip:bridge@pbx.example.com"

[mumble]
default_host = "mumble.example.com"

[audio]
opus_bitrate = 32000
"#,
    )
    .expect("config should parse");

    assert_eq!(parsed.sip.listen_port, 5060);
    assert_eq!(parsed.sip.registrar, "");
    assert_eq!(parsed.sip.max_concurrent_calls, 10);
    assert_eq!(parsed.mumble.port, 64738);
    assert_eq!(parsed.mumble.channel, "");
    assert_eq!(parsed.audio.sample_rate, 48000);
    assert_eq!(parsed.audio.frame_duration_ms, AudioSection::default().frame_duration_ms);
    assert_eq!(parsed.audio.opus_bitrate, 32000);
    assert_eq!(parsed.tts.voice, TtsSection::default().voice);
}

#[test]
fn connection_settings_come_from_the_sections() {
    let parsed: Config = parse(
        r#"
[sip]
account_uri = "sip:bridge@pbx.example.com"
registrar = "sip:pbx.example.com"
username = "bridge"
password = "word"
max_concurrent_calls = 4

[mumble]
default_host = "mumble.example.com"
channel = "Lobby"
"#,
    )
    .expect("config should parse");

    let sip = parsed.sip_config();
    assert_eq!(sip.account_uri, "sip:bridge@pbx.example.com");
    assert_eq!(sip.registrar, "sip:pbx.example.com");
    assert_eq!(sip.username, "bridge");
    assert_eq!(sip.password, "word");
    assert_eq!(sip.max_concurrent_calls, 4);

    let default = parsed.mumble_config(None);
    assert_eq!(default.host, "mumble.example.com");
    assert_eq!(default.channel, "Lobby");
    let other = parsed.mumble_config(Some("other.example.com"));
    assert_eq!(other.host, "other.example.com");
    assert_eq!(other.port, default.port);
}
