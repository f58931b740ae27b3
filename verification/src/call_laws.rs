//! What callers can rely on, whatever happened before.

use crate::call_events::{
    action_after, hand_over_step, room_after, room_entered, EventAction, HandOver, HandOverStep,
    Room,
};
use crate::callbacks::{action_for, last_action_for, CallAction, SipEvent};
use crate::calls::{
    aborted, begun, cancelled, ended, finished, history, load, moved, navigated, no_calls, owns,
    released, CallSession, Calls, Change,
};
use crate::config::TtsSection;
use crate::control::{event_of, MumbleEvent, ServerPacket};
use crate::db::CallerInfo;
use crate::session::{
    greeted, identified, key_step, refused, rejoined, stage_after, stop_extras, CallerLookup,
    DtmfStep, Greeting, SetupOutcome, SetupStage,
};
use crate::sounds::SoundEvent;
use vstd::prelude::*;

verus! {

/// Every voice frame that a server sends reaches the decoder as it was sent, whoever
/// speaks, whatever was reported of users and channels, and wherever the keys have led.
/// It changes nothing of what is known.
pub proof fn law_voice_reaches_the_decoder(
    room: Room,
    keys: Option<u32>,
    session_id: u32,
    seq_num: u64,
    data: bytes::Bytes,
)
    ensures
        event_of(ServerPacket::OpusAudio { session_id, seq_num, data }) matches Some(event)
            && action_after(room_entered(room, keys), event) == (EventAction::Decode {
            session_id,
            opus_data: data,
        }) && room_after(room_entered(room, keys), event) == room_entered(room, keys),
{
}

/// A text message is read out with its sender and its words as they came, and where
/// nothing is read out it makes a sound.
pub proof fn law_text_messages_are_heard(
    room: Room,
    sender_name: Option<String>,
    message: String,
)
    ensures
        event_of(ServerPacket::TextMessage { sender_name, message }) matches Some(event)
            && action_after(room, event) == (if room.tts_enabled {
            EventAction::Speak { sender_name, message }
        } else {
            EventAction::Play(SoundEvent::TextMessage)
        }) && room_after(room, event) == room,
{
}

/// Other users are heard exactly as they are reported in our channel, and as they leave it
/// for another or for good: by the sound for each, and by nothing else.
pub proof fn law_moves_of_others_are_heard(room: Room, user: u32, from: u32, to: u32)
    requires
        user != room.us,
        room.users.contains_key(user),
        room.users[user] == from,
    ensures
        ({
            let action = action_after(
                room,
                MumbleEvent::UserChangedChannel { session_id: user, channel_id: to },
            );
            &&& to == room.our_channel <==> action == EventAction::Play(
                SoundEvent::UserJoinedChannel,
            )
            &&& (from == room.our_channel && to != room.our_channel) <==> action
                == EventAction::Play(SoundEvent::UserLeftChannel)
            &&& (from != room.our_channel && to != room.our_channel) <==> action
                == EventAction::Nothing
        }),
        action_after(room, MumbleEvent::UserDisconnected { session_id: user }) == (if from
            == room.our_channel {
            EventAction::Play(SoundEvent::UserLeftChannel)
        } else {
            EventAction::Nothing
        }),
{
}

/// A user of whom nothing was reported is heard as they enter our channel, and is not
/// heard otherwise.
pub proof fn law_strangers_are_heard_as_they_enter(room: Room, user: u32, to: u32)
    requires
        user != room.us,
        !room.users.contains_key(user),
    ensures
        action_after(room, MumbleEvent::UserChangedChannel { session_id: user, channel_id: to })
            == (if to == room.our_channel {
            EventAction::Play(SoundEvent::UserJoinedChannel)
        } else {
            EventAction::Nothing
        }),
        action_after(room, MumbleEvent::UserDisconnected { session_id: user })
            == EventAction::Nothing,
{
}

/// A report of a user is remembered, and touches nothing that is known of others, of the
/// channels' names, or of our own settings. Only a report of ourselves moves us.
pub proof fn law_reports_are_remembered(room: Room, user: u32, channel_id: u32, other: u32)
    requires
        other != user,
    ensures
        ({
            let t = room_after(
                room,
                MumbleEvent::UserChangedChannel { session_id: user, channel_id },
            );
            let gone = room_after(room, MumbleEvent::UserDisconnected { session_id: user });
            &&& t.users.contains_key(user) && t.users[user] == channel_id
            &&& t.users.contains_key(other) == room.users.contains_key(other)
            &&& room.users.contains_key(other) ==> t.users[other] == room.users[other]
            &&& t.our_channel == (if user == room.us {
                channel_id
            } else {
                room.our_channel
            })
            &&& t.names == room.names && t.us == room.us && t.tts_enabled == room.tts_enabled
            &&& !gone.users.contains_key(user)
            &&& gone.users.contains_key(other) == room.users.contains_key(other)
            &&& room.users.contains_key(other) ==> gone.users[other] == room.users[other]
            &&& gone.our_channel == room.our_channel && gone.names == room.names
            &&& gone.us == room.us && gone.tts_enabled == room.tts_enabled
        }),
{
}

/// Our move is announced under the name that was reported last for the channel, by its
/// number alone where no name was reported, and not at all without speech.
pub proof fn law_moves_are_announced_by_name(
    room: Room,
    channel_id: u32,
    name: String,
    other: u32,
)
    requires
        !room.users.contains_key(room.us) || room.users[room.us] != channel_id,
        other != channel_id,
    ensures
        ({
            let move_there = MumbleEvent::UserChangedChannel { session_id: room.us, channel_id };
            let named = room_after(room, MumbleEvent::ChannelState { channel_id, name });
            let elsewhere = room_after(
                room,
                MumbleEvent::ChannelState { channel_id: other, name },
            );
            &&& action_after(named, move_there) == (if room.tts_enabled {
                EventAction::Announce { channel_id, channel_name: Some(name) }
            } else {
                EventAction::Nothing
            })
            &&& action_after(elsewhere, move_there) == action_after(room, move_there)
            &&& !room.names.contains_key(channel_id) && room.tts_enabled ==> action_after(
                room,
                move_there,
            ) == (EventAction::Announce { channel_id, channel_name: None })
        }),
{
}

/// The channel that the keys led to counts as ours from then on; without a key, ours
/// stays.
pub proof fn law_keys_change_our_channel(room: Room, channel_id: u32, user: u32)
    requires
        user != room.us,
    ensures
        action_after(
            room_entered(room, Some(channel_id)),
            MumbleEvent::UserChangedChannel { session_id: user, channel_id },
        ) == EventAction::Play(SoundEvent::UserJoinedChannel),
        room_entered(room, None) == room,
        room_entered(room, Some(channel_id)).users == room.users,
        room_entered(room, Some(channel_id)).names == room.names,
        room_entered(room, Some(channel_id)).us == room.us,
        room_entered(room, Some(channel_id)).tts_enabled == room.tts_enabled,
{
}

/// The loss of the connection ends a call's events, and nothing else does.
pub proof fn law_only_a_lost_connection_ends_the_events(room: Room, event: MumbleEvent)
    ensures
        action_after(room, event) is Stop <==> event is Disconnected,
        action_after(room, event) is Decode <==> event is AudioReceived,
        action_after(room, event) is Speak ==> event is TextMessageReceived,
        action_after(room, event) is Announce ==> {
            &&& event matches MumbleEvent::UserChangedChannel { session_id, .. }
            &&& session_id == room.us
        },
{
}

/// A frame that is taken raises no warning and a closed decoder ends the events; of
/// dropped frames every hundredth is reported with their number.
pub proof fn law_every_hundredth_drop_is_reported(k: u64, dropped_frames: u64)
    requires
        k * 100 <= u64::MAX,
    ensures
        hand_over_step(HandOver::Taken, dropped_frames) is GoOn,
        hand_over_step(HandOver::Closed, dropped_frames) is Stop,
        hand_over_step(HandOver::QueueFull, (k * 100) as u64) == (HandOverStep::Warn {
            dropped_frames: (k * 100) as u64,
        }),
        hand_over_step(HandOver::QueueFull, dropped_frames) is Warn ==> exists|m: int|
            dropped_frames == #[trigger] (m * 100),
        !(hand_over_step(HandOver::QueueFull, dropped_frames) is Stop),
{
    assert((k * 100) % 100 == 0);
    if hand_over_step(HandOver::QueueFull, dropped_frames) is Warn {
        let m = dropped_frames as int / 100;
        assert(dropped_frames == m * 100);
    }
}

/// `#` leads one channel on and never beyond the last, `*` one channel back and never
/// below the first, and no other key leads anywhere. From wherever a caller is, `#` never
/// leads back and `*` never leads on.
pub proof fn law_keys_have_their_direction(current: u32, max: u32, key: char)
    requires
        current <= max,
    ensures
        navigated(current, max, '#') matches Some(next) && current <= next <= max && next
            <= current + 1 && (current < max ==> next == current + 1),
        navigated(current, max, '*') matches Some(previous) && previous <= current && current
            <= previous + 1 && (current > 0 ==> previous + 1 == current),
        key != '#' && key != '*' ==> navigated(current, max, key) is None,
{
}

/// In a call, `1` plays the intro, `#` and `*` ask for the neighbouring channels of that
/// call, and other keys do nothing. Without a call, no key does anything.
pub proof fn law_keys_act_on_their_call(c: Calls, call_id: i32, key: char)
    ensures
        !c.sessions.contains_key(call_id) ==> key_step(c, call_id, key) is Ignore,
        c.sessions.contains_key(call_id) ==> {
            let current = c.sessions[call_id].current_channel_id;
            let max = c.sessions[call_id].max_channel_id;
            &&& key == '1' <==> key_step(c, call_id, key) is PlayIntro
            &&& key == '#' || key == '*' <==> key_step(c, call_id, key) is Navigate
            &&& key_step(c, call_id, '#') == (DtmfStep::Navigate {
                channel_id: if current < max {
                    (current + 1) as u32
                } else {
                    max
                },
            })
            &&& key_step(c, call_id, '*') == (DtmfStep::Navigate {
                channel_id: if current > 0 {
                    (current - 1) as u32
                } else {
                    0
                },
            })
        },
{
}

/// A move takes a call to the channel, and keeps everything else of it.
pub proof fn law_moves_keep_the_rest(c: Calls, call_id: i32, channel_id: u32)
    requires
        c.sessions.contains_key(call_id),
    ensures
        ({
            let t = moved(c, call_id, channel_id);
            let (before, after) = (c.sessions[call_id], t.sessions[call_id]);
            &&& t.sessions.contains_key(call_id)
            &&& after.current_channel_id == channel_id
            &&& after.max_channel_id == before.max_channel_id
            &&& after.port == before.port
            &&& after.caller_number == before.caller_number
            &&& after.server_host == before.server_host
            &&& t.pending == c.pending && t.cancelled == c.cancelled && t.next == c.next
        }),
{
}

/// A bridge turns a call away, as busy, exactly when the established calls and those in
/// setup together have reached the limit, whatever the limit is.
pub proof fn law_the_limit_counts_every_call(c: Calls, max: u32)
    ensures
        refused(c, max) == (if c.sessions.dom().len() + c.pending.dom().len() >= max {
            Some(486u32)
        } else {
            None
        }),
{
}

/// A bridge without calls has no load. A setup under a free number adds one, a session
/// that ends takes one off, a setup that is given up takes one off, and a setup that
/// becomes a session under a free number keeps the load.
pub proof fn law_the_load_counts_calls(
    c: Calls,
    call_id: i32,
    generation: u64,
    session: CallSession,
)
    requires
        c.sessions.dom().finite(),
        c.pending.dom().finite(),
    ensures
        load(no_calls()) == 0,
        !c.pending.contains_key(call_id) ==> load(begun(c, call_id)) == load(c) + 1,
        c.sessions.contains_key(call_id) ==> load(ended(c, call_id)) + 1 == load(c),
        !c.sessions.contains_key(call_id) ==> load(ended(c, call_id)) == load(c),
        owns(c, call_id, generation) ==> load(aborted(c, call_id, generation)) + 1 == load(c),
        !owns(c, call_id, generation) ==> load(aborted(c, call_id, generation)) == load(c),
        owns(c, call_id, generation) && !c.cancelled.contains(generation)
            && !c.sessions.contains_key(call_id) ==> load(
            finished(c, call_id, generation, session),
        ) == load(c),
        owns(c, call_id, generation) && c.cancelled.contains(generation) ==> load(
            finished(c, call_id, generation, session),
        ) + 1 == load(c),
        load(cancelled(c, call_id)) == load(c),
{
    if owns(c, call_id, generation) && !c.sessions.contains_key(call_id) {
        let t = finished(c, call_id, generation, session);
        assert(t.pending == c.pending.remove(call_id));
    }
}

/// The changes by which calls begin, in order.
pub open spec fn beginnings(call_ids: Seq<i32>) -> Seq<Change> {
    call_ids.map_values(|call_id: i32| Change::Begin { call_id })
}

/// However many calls begin under different numbers, each counts once: the next is turned
/// away exactly once their number has reached the limit.
pub proof fn law_the_call_beyond_the_limit_is_refused(call_ids: Seq<i32>, max: u32)
    requires
        forall|i: int, j: int|
            0 <= i < j < call_ids.len() ==> #[trigger] call_ids[i] != #[trigger] call_ids[j],
    ensures
        ({
            let c = history(no_calls(), beginnings(call_ids));
            &&& load(c) == call_ids.len()
            &&& refused(c, max) == (if call_ids.len() >= max {
                Some(486u32)
            } else {
                None
            })
        }),
{
    lemma_beginnings(call_ids);
}

proof fn lemma_beginnings(call_ids: Seq<i32>)
    requires
        forall|i: int, j: int|
            0 <= i < j < call_ids.len() ==> #[trigger] call_ids[i] != #[trigger] call_ids[j],
    ensures
        ({
            let c = history(no_calls(), beginnings(call_ids));
            &&& c.pending.dom().finite()
            &&& c.pending.len() == call_ids.len()
            &&& c.sessions == Map::<i32, CallSession>::empty()
            &&& forall|id: i32| #[trigger]
                c.pending.contains_key(id) ==> exists|i: int|
                    0 <= i < call_ids.len() && #[trigger] call_ids[i] == id
        }),
    decreases call_ids.len(),
{
    let changes = beginnings(call_ids);
    let c = history(no_calls(), changes);
    if call_ids.len() > 0 {
        let earlier = call_ids.drop_last();
        let last = call_ids.last();
        assert forall|i: int, j: int| 0 <= i < j < earlier.len() implies #[trigger] earlier[i]
            != #[trigger] earlier[j] by {
            assert(earlier[i] == call_ids[i] && earlier[j] == call_ids[j]);
        }
        lemma_beginnings(earlier);
        assert(changes.drop_last() == beginnings(earlier));
        let before = history(no_calls(), beginnings(earlier));
        assert(c == begun(before, last));
        assert(!before.pending.contains_key(last)) by {
            if before.pending.contains_key(last) {
                let i = choose|i: int| 0 <= i < earlier.len() && #[trigger] earlier[i] == last;
                assert(call_ids[i] == earlier[i]);
                assert(call_ids[i] != call_ids[call_ids.len() - 1]);
            }
        }
        assert forall|id: i32| #[trigger] c.pending.contains_key(id) implies exists|i: int|
            0 <= i < call_ids.len() && #[trigger] call_ids[i] == id by {
            if id == last {
                assert(call_ids[call_ids.len() - 1] == id);
            } else {
                assert(before.pending.contains_key(id));
                let i = choose|i: int| 0 <= i < earlier.len() && #[trigger] earlier[i] == id;
                assert(call_ids[i] == id);
            }
        }
    }
}

/// The intro is played to every new caller, whatever the time and the period; to a
/// returning one exactly when at least the period has passed since the last call; and to
/// nobody whom the store does not know.
pub proof fn law_intro_is_for_new_and_long_absent_callers(
    info: CallerInfo,
    last_channel_id: Option<u32>,
    fallback: Seq<char>,
    now: u64,
    days: u64,
)
    ensures
        ({
            let found = identified(
                CallerLookup::Found { info, last_channel_id },
                fallback,
                now,
                days,
            );
            &&& info.is_new ==> found.2
            &&& !info.is_new && now >= info.last_seen ==> found.2 == (now - info.last_seen >= days
                * 86400)
            &&& !info.is_new && now < info.last_seen ==> found.2 == (days == 0)
        }),
        !identified(CallerLookup::NoNumber, fallback, now, days).2,
        !identified(CallerLookup::Failed, fallback, now, days).2,
{
}

/// A known caller is shown by the stored nickname and offered the stored channel; anyone
/// else gets the made-up name and no channel.
pub proof fn law_callers_keep_name_and_channel(
    info: CallerInfo,
    last_channel_id: Option<u32>,
    fallback: Seq<char>,
    now: u64,
    days: u64,
)
    ensures
        identified(CallerLookup::Found { info, last_channel_id }, fallback, now, days).0
            == info.nickname@,
        identified(CallerLookup::Found { info, last_channel_id }, fallback, now, days).1
            == last_channel_id,
        identified(CallerLookup::NoNumber, fallback, now, days).0 == fallback,
        identified(CallerLookup::NoNumber, fallback, now, days).1 is None,
        identified(CallerLookup::Failed, fallback, now, days).0 == fallback,
        identified(CallerLookup::Failed, fallback, now, days).1 is None,
{
}

/// A channel is rejoined only where that moves the caller, only where it was the last
/// one, and only where the server has it.
pub proof fn law_rejoining_moves_the_caller(
    last: Option<u32>,
    joined: u32,
    names: Map<u32, String>,
)
    ensures
        rejoined(last, joined, names) matches Some(id) ==> id != joined && last == Some(id)
            && names.contains_key(id),
        rejoined(last, joined, names) is None ==> (last matches Some(id) ==> id == joined
            || !names.contains_key(id)),
{
}

/// How far a setup has come.
pub open spec fn progress(stage: SetupStage) -> int {
    match stage {
        SetupStage::AwaitMedia => 1,
        SetupStage::PlayIntro => 2,
        SetupStage::Connect => 3,
        SetupStage::Bridge => 4,
    }
}

/// A setup that goes well awaits the media, plays the intro where one is due, connects
/// and bridges, in this order; the intro comes before the connection. One that goes wrong
/// at any stage, or whose caller hangs up during it, stops.
pub proof fn law_setup_runs_in_order(play_intro: bool)
    ensures
        stage_after(SetupOutcome::Answered, play_intro) matches Some(stage) && progress(stage)
            == 1,
        stage_after(SetupOutcome::MediaReady, play_intro) matches Some(stage) && progress(stage)
            == (if play_intro {
            2int
        } else {
            3
        }),
        stage_after(SetupOutcome::IntroPlayed, play_intro) matches Some(stage) && progress(stage)
            == 3,
        stage_after(SetupOutcome::Connected, play_intro) matches Some(stage) && progress(stage)
            == 4,
        stage_after(SetupOutcome::AnswerFailed, play_intro) is None,
        stage_after(SetupOutcome::MediaLost, play_intro) is None,
        stage_after(SetupOutcome::ConnectFailed, play_intro) is None,
        stage_after(SetupOutcome::CancelledBeforeMedia, play_intro) is None,
        stage_after(SetupOutcome::CancelledDuringIntro, play_intro) is None,
        stage_after(SetupOutcome::CancelledDuringConnect, play_intro) is None,
{
}

/// A setup that lost its call number hangs nobody up and withdraws nothing. One that
/// still owns it hangs up, as unavailable, exactly where the server could not be reached,
/// and withdraws its wait for the media exactly where it ends before the media came and
/// the wait is still registered.
pub proof fn law_only_owners_touch_their_call(outcome: SetupOutcome)
    ensures
        stop_extras(outcome, false) == (false, None::<u32>),
        stop_extras(outcome, true).1 == (if outcome is ConnectFailed {
            Some(503u32)
        } else {
            None
        }),
        stop_extras(outcome, true).0 <==> outcome is AnswerFailed
            || outcome is CancelledBeforeMedia,
{
}

/// A setup whose caller stays becomes a session, with the session as it was made, and
/// gives its number free for a further setup.
pub proof fn law_setup_of_a_waiting_caller_becomes_a_session(
    c: Calls,
    call_id: i32,
    generation: u64,
    session: CallSession,
)
    requires
        owns(c, call_id, generation),
        !c.cancelled.contains(generation),
    ensures
        ({
            let t = finished(c, call_id, generation, session);
            &&& t.sessions.contains_key(call_id)
            &&& t.sessions[call_id] == session
            &&& !t.pending.contains_key(call_id)
            &&& t.next == c.next
        }),
{
}

/// A caller who hangs up ends their session, or else cancels their setup and no other.
pub proof fn law_hanging_up_ends_the_call(c: Calls, call_id: i32, generation: u64)
    ensures
        ({
            let t = ended(c, call_id);
            &&& !t.sessions.contains_key(call_id)
            &&& t.pending == c.pending && t.next == c.next
            &&& c.sessions.contains_key(call_id) ==> t.cancelled == c.cancelled
            &&& !c.sessions.contains_key(call_id) ==> (t.cancelled.contains(generation)
                <==> c.cancelled.contains(generation) || owns(c, call_id, generation))
        }),
{
}

/// A setup that is given up frees its number where it owns it, leaves no cancellation
/// behind, and makes no session.
pub proof fn law_giving_up_frees_the_number(c: Calls, call_id: i32, generation: u64)
    ensures
        ({
            let t = aborted(c, call_id, generation);
            &&& !owns(t, call_id, generation)
            &&& !t.cancelled.contains(generation)
            &&& t.sessions == c.sessions && t.next == c.next
            &&& !owns(released(c, call_id, generation), call_id, generation)
            &&& released(c, call_id, generation).cancelled == c.cancelled
        }),
{
}

/// A setup takes the number over from whoever had it, and does not start out cancelled by
/// a hang-up before it.
pub proof fn law_beginning_takes_the_number(c: Calls, call_id: i32)
    ensures
        ({
            let t = begun(c, call_id);
            &&& owns(t, call_id, c.next)
            &&& t.sessions == c.sessions
            &&& t.cancelled == c.cancelled
            &&& c.next < u64::MAX ==> t.next == c.next + 1
            &&& c.next == u64::MAX ==> t.next == 0
        }),
{
}

/// What the SIP stack reports leads to the call that it is about, with what was reported.
/// A call is torn down exactly when it has ended, and during shutdown nothing else is
/// done.
pub proof fn law_reports_lead_to_their_call(
    acc_id: i32,
    call_id: i32,
    mumble_server: Option<String>,
    caller_number: Option<String>,
    state: u32,
    digit: char,
)
    ensures
        ({
            let incoming = Some(
                SipEvent::IncomingCall { acc_id, call_id, mumble_server, caller_number },
            );
            let changed = Some(SipEvent::CallStateChanged { call_id, state });
            let key = Some(SipEvent::DtmfDigit { call_id, digit });
            &&& action_for(incoming) == (CallAction::SetUp {
                call_id,
                mumble_server,
                caller_number,
            })
            &&& last_action_for(incoming) is Wait
            &&& action_for(key) == (CallAction::Press { call_id, digit })
            &&& last_action_for(key) is Wait
            &&& state == 6 ==> action_for(changed) == (CallAction::TearDown { call_id })
            &&& state != 6 ==> action_for(changed) is Wait
            &&& last_action_for(changed) == action_for(changed)
        }),
        action_for(None) is Leave,
        last_action_for(None) is Leave,
{
}

/// A caller is greeted with the channel and its name exactly where announcements are
/// spoken and wanted on connecting, and with a chime otherwise.
pub proof fn law_callers_are_greeted(
    tts: TtsSection,
    channel_id: u32,
    names: Map<u32, String>,
    name: String,
)
    ensures
        tts.enabled && tts.announce_on_connect ==> greeted(
            tts,
            channel_id,
            names.insert(channel_id, name),
        ) == (Greeting::Announce { channel_id, channel_name: Some(name) }),
        tts.enabled && tts.announce_on_connect && !names.contains_key(channel_id) ==> greeted(
            tts,
            channel_id,
            names,
        ) == (Greeting::Announce { channel_id, channel_name: None }),
        !tts.enabled || !tts.announce_on_connect ==> greeted(tts, channel_id, names) is Chime,
{
}

/// A report that a user is in a channel becomes an event about that user and channel; one
/// that names no channel becomes none. Names and departures are passed on as reported.
pub proof fn law_packets_become_events(session: u32, channel_id: u32, name: String)
    ensures
        event_of(ServerPacket::UserState { session, channel_id: Some(channel_id) }) == Some(
            MumbleEvent::UserChangedChannel { session_id: session, channel_id },
        ),
        event_of(ServerPacket::UserState { session, channel_id: None }) is None,
        event_of(ServerPacket::UserRemove { session }) == Some(
            MumbleEvent::UserDisconnected { session_id: session },
        ),
        event_of(ServerPacket::ChannelState { channel_id, name }) == Some(
            MumbleEvent::ChannelState { channel_id, name },
        ),
{
}

} // verus!
