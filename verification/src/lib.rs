pub mod text;
pub mod search;
pub mod html;
pub mod escaping;
pub mod hosts;
pub mod phrase;
pub mod text_laws;
pub mod wav;
pub mod config;
pub mod sip;
pub mod control;
pub mod sounds;
pub mod speech;
pub mod cache;
pub mod tts;
pub mod ring;
pub mod media_port;
pub mod bridge;
pub mod db;
pub mod callbacks;
pub mod calls;
pub mod session;
pub mod call_events;
pub mod announce;
pub mod sms;
pub mod message_laws;
pub mod host_laws;
pub mod spoken_laws;
pub mod call_laws;
