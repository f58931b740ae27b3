use mumble_sip::db::{
    after_nickname, after_search, channel_from_row, generate_nickname, nickname_from,
    set_last_channel_id, set_nickname, should_play_intro, CallerInfo, CallerRow, LookupStep,
    NicknameStep, StoreCommand,
};
use std::collections::HashMap;

#[derive(Default)]
struct MemoryStore {
    callers: HashMap<String, (String, i64)>,
    channels: HashMap<(String, String), i64>,
}

impl MemoryStore {
    fn run(&mut self, command: StoreCommand) {
        match command {
            StoreCommand::Touch { phone_number, now } => {
                if let Some(caller) = self.callers.get_mut(&phone_number) {
                    caller.1 = now;
                }
            }
            StoreCommand::Register { phone_number, nickname, now } => {
                self.callers.entry(phone_number).or_insert((nickname, now)).1 = now;
            }
            StoreCommand::Rename { phone_number, nickname } => {
                if let Some(caller) = self.callers.get_mut(&phone_number) {
                    caller.0 = nickname;
                }
            }
            StoreCommand::SetChannel { phone_number, server_host, channel_id } => {
                self.channels.insert((phone_number, server_host), channel_id);
            }
        }
    }

    fn get_or_create_caller(&mut self, phone_number: &str, now: i64) -> CallerInfo {
        let row = self.callers.get(phone_number).map(|(nickname, last_seen)| CallerRow {
            phone_number: phone_number.to_string(),
            nickname: nickname.clone(),
            last_seen: *last_seen,
        });
        match after_search(phone_number, row, now) {
            LookupStep::Known { command, info } => {
                self.run(command);
                info
            }
            LookupStep::FindNickname => loop {
                let candidate = generate_nickname();
                let taken = self.callers.values().any(|(nickname, _)| *nickname == candidate);
                if let NicknameStep::Free { command, info } =
                    after_nickname(phone_number, candidate, taken, now)
                {
                    self.run(command);
                    return info;
                }
            },
        }
    }

    fn get_last_channel_id(&self, phone_number: &str, server_host: &str) -> Option<u32> {
        let key = (phone_number.to_string(), server_host.to_string());
        channel_from_row(self.channels.get(&key).copied())
    }
}

#[test]
fn first_call_creates_nickname() {
    let mut store = MemoryStore::default();
    let info = store.get_or_create_caller("5551234567", 1_000);
    assert_eq!(info.phone_number, "5551234567");
    assert!(!info.nickname.is_empty());
    assert!(!info.nickname.contains('-'));
    assert!(info.is_new);
    assert_eq!(info.last_seen, 1_000);
}

#[test]
fn second_call_returns_same_nickname() {
    let mut store = MemoryStore::default();
    let first = store.get_or_create_caller("5551234567", 1_000);
    let second = store.get_or_create_caller("5551234567", 2_000);
    assert_eq!(first.nickname, second.nickname);
    assert!(!second.is_new);
    assert_eq!(second.last_seen, 1_000);
    assert_eq!(store.get_or_create_caller("5551234567", 3_000).last_seen, 2_000);
}

#[test]
fn different_numbers_get_different_records() {
    let mut store = MemoryStore::default();
    let a = store.get_or_create_caller("5551111111", 1_000);
    let b = store.get_or_create_caller("5552222222", 1_000);
    assert_ne!(a.phone_number, b.phone_number);
    assert_ne!(a.nickname, b.nickname);
}

#[test]
fn set_nickname_overrides() {
    let mut store = MemoryStore::default();
    store.get_or_create_caller("5551234567", 1_000);
    store.run(set_nickname("5551234567", "custom_name"));
    let info = store.get_or_create_caller("5551234567", 2_000);
    assert_eq!(info.nickname, "custom_name");
}

#[test]
fn set_and_get_last_channel_id() {
    let mut store = MemoryStore::default();
    store.get_or_create_caller("5551234567", 1_000);
    assert_eq!(store.get_last_channel_id("5551234567", "mumble.example.com"), None);
    store.run(set_last_channel_id("5551234567", "mumble.example.com", 42));
    assert_eq!(store.get_last_channel_id("5551234567", "mumble.example.com"), Some(42));
    store.run(set_last_channel_id("5551234567", "mumble.example.com", 7));
    assert_eq!(store.get_last_channel_id("5551234567", "mumble.example.com"), Some(7));
    store.run(set_last_channel_id("5551234567", "mumble.example.com", u32::MAX));
    assert_eq!(store.get_last_channel_id("5551234567", "mumble.example.com"), Some(u32::MAX));
}

#[test]
fn last_channel_is_per_server() {
    let mut store = MemoryStore::default();
    store.get_or_create_caller("5551234567", 1_000);
    store.run(set_last_channel_id("5551234567", "server-a.example.com", 10));
    store.run(set_last_channel_id("5551234567", "server-b.example.com", 20));
    assert_eq!(store.get_last_channel_id("5551234567", "server-a.example.com"), Some(10));
    assert_eq!(store.get_last_channel_id("5551234567", "server-b.example.com"), Some(20));
}

#[test]
fn generate_nickname_has_underscores() {
    let name = generate_nickname();
    assert!(!name.is_empty());
    assert!(!name.contains('-'));
    assert!(name.contains('_'));
}

#[test]
fn nicknames_replace_hyphens() {
    assert_eq!(nickname_from(Some("selfish-change".to_string())), "selfish_change");
    assert_eq!(nickname_from(None), "anonymous");
}

#[test]
fn taken_nicknames_are_tried_again() {
    assert!(matches!(
        after_nickname("5551234567", "quiet_river".to_string(), true, 5),
        NicknameStep::Taken
    ));
}

#[test]
fn intro_plays_for_new_and_long_absent_callers() {
    let caller = |is_new, last_seen| CallerInfo {
        phone_number: "5551234567".to_string(),
        nickname: "quiet_river".to_string(),
        last_seen,
        is_new,
    };
    let day = 86_400;
    assert!(should_play_intro(&caller(true, 1_000), 1_000, 30));
    assert!(!should_play_intro(&caller(false, 1_000), 1_000 + 30 * day - 1, 30));
    assert!(should_play_intro(&caller(false, 1_000), 1_000 + 30 * day, 30));
    assert!(!should_play_intro(&caller(false, 1_000), 0, 30));
    assert!(should_play_intro(&caller(false, 1_000), 0, 0));
}
