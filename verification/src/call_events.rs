//! What a call makes of the events of its Mumble connection.

use crate::control::MumbleEvent;
use crate::session::channel_name;
use crate::sounds::{get_sound, SoundBank, SoundEvent};
use std::collections::HashMap;
use vstd::prelude::*;

verus! {

broadcast use vstd::std_specs::hash::group_hash_axioms;

/// A warning is given each time this many more voice frames were dropped.
pub const DROPPED_FRAMES_STEP: u64 = 100;

/// What a call knows of its Mumble server.
#[derive(Debug)]
pub struct CallEvents {
    pub tts_enabled: bool,
    pub our_session_id: u32,
    pub our_channel_id: u32,
    /// The channel of each user, as far as the server reported it.
    pub user_channels: HashMap<u32, u32>,
    pub channel_names: HashMap<u32, String>,
    /// Voice frames that the decoder was too busy for.
    pub dropped_frames: u64,
}

/// What follows an event.
#[derive(Debug)]
pub enum EventAction {
    Nothing,
    /// Hand a voice frame to the decoder.
    Decode { session_id: u32, opus_data: bytes::Bytes },
    Announce { channel_id: u32, channel_name: Option<String> },
    Play(SoundEvent),
    Speak { sender_name: Option<String>, message: String },
    /// The connection is gone.
    Stop,
}

/// How a voice frame was handed to the decoder.
#[derive(Clone, Copy, Debug, PartialEq, Eq, Structural)]
pub enum HandOver {
    Taken,
    QueueFull,
    Closed,
}

/// What follows.
#[derive(Clone, Copy, Debug, PartialEq, Eq, Structural)]
pub enum HandOverStep {
    GoOn,
    Warn { dropped_frames: u64 },
    Stop,
}


/// What a call knows of its Mumble server, as mathematical values.
#[verifier::ext_equal]
pub ghost struct Room {
    pub tts_enabled: bool,
    pub us: u32,
    pub our_channel: u32,
    pub users: Map<u32, u32>,
    pub names: Map<u32, String>,
}

/// What an event changes.
pub open spec fn room_after(room: Room, event: MumbleEvent) -> Room {
    match event {
        MumbleEvent::UserChangedChannel { session_id, channel_id } => Room {
            users: room.users.insert(session_id, channel_id),
            our_channel: if session_id == room.us {
                channel_id
            } else {
                room.our_channel
            },
            ..room
        },
        MumbleEvent::UserDisconnected { session_id } => Room {
            users: room.users.remove(session_id),
            ..room
        },
        MumbleEvent::ChannelState { channel_id, name } => Room {
            names: room.names.insert(channel_id, name),
            ..room
        },
        _ => room,
    }
}

/// What follows an event. Our own move is announced unless the server reported that
/// channel before; others are heard as they enter and leave our channel.
pub open spec fn action_after(room: Room, event: MumbleEvent) -> EventAction {
    match event {
        MumbleEvent::AudioReceived { session_id, opus_data, .. } => EventAction::Decode {
            session_id,
            opus_data,
        },
        MumbleEvent::UserChangedChannel { session_id, channel_id } => if session_id == room.us {
            if room.tts_enabled && room.users.get(session_id) != Some(channel_id) {
                EventAction::Announce { channel_id, channel_name: room.names.get(channel_id) }
            } else {
                EventAction::Nothing
            }
        } else if channel_id == room.our_channel {
            EventAction::Play(SoundEvent::UserJoinedChannel)
        } else if room.users.get(session_id) == Some(room.our_channel) {
            EventAction::Play(SoundEvent::UserLeftChannel)
        } else {
            EventAction::Nothing
        },
        MumbleEvent::UserDisconnected { session_id } => if room.users.get(session_id) == Some(
            room.our_channel,
        ) {
            EventAction::Play(SoundEvent::UserLeftChannel)
        } else {
            EventAction::Nothing
        },
        MumbleEvent::TextMessageReceived { sender_name, message } => if room.tts_enabled {
            EventAction::Speak { sender_name, message }
        } else {
            EventAction::Play(SoundEvent::TextMessage)
        },
        MumbleEvent::ChannelState { .. } => EventAction::Nothing,
        MumbleEvent::Disconnected => EventAction::Stop,
        MumbleEvent::Connected { .. } => EventAction::Nothing,
    }
}

/// The room in which the keys have led to a channel since the last event.
pub open spec fn room_entered(room: Room, navigated: Option<u32>) -> Room {
    Room {
        our_channel: match navigated {
            Some(channel_id) => channel_id,
            None => room.our_channel,
        },
        ..room
    }
}

/// What follows the attempt to hand a voice frame over, given how many were dropped so
/// far.
pub open spec fn hand_over_step(outcome: HandOver, dropped_frames: u64) -> HandOverStep {
    match outcome {
        HandOver::Taken => HandOverStep::GoOn,
        HandOver::QueueFull => if dropped_frames % DROPPED_FRAMES_STEP == 0 {
            HandOverStep::Warn { dropped_frames }
        } else {
            HandOverStep::GoOn
        },
        HandOver::Closed => HandOverStep::Stop,
    }
}

impl View for CallEvents {
    type V = Room;

    open spec fn view(&self) -> Room {
        Room {
            tts_enabled: self.tts_enabled,
            us: self.our_session_id,
            our_channel: self.our_channel_id,
            users: self.user_channels@,
            names: self.channel_names@,
        }
    }
}

impl CallEvents {
    /// The start of a call in a channel. No user's channel is known.
    pub fn new(
        tts_enabled: bool,
        our_session_id: u32,
        our_channel_id: u32,
        channel_names: HashMap<u32, String>,
    ) -> (r: Self)
        ensures
            r@ == (Room {
                tts_enabled,
                us: our_session_id,
                our_channel: our_channel_id,
                users: Map::empty(),
                names: channel_names@,
            }),
            r.dropped_frames == 0,
    {
        CallEvents {
            tts_enabled,
            our_session_id,
            our_channel_id,
            user_channels: HashMap::new(),
            channel_names,
            dropped_frames: 0,
        }
    }

    /// Handles an event, given the channel that the keys led to since the last one.
    pub fn on_event(&mut self, event: MumbleEvent, navigated: Option<u32>) -> (r: EventAction)
        ensures
            final(self)@ == room_after(room_entered(old(self)@, navigated), event),
            r == action_after(room_entered(old(self)@, navigated), event),
            final(self).dropped_frames == old(self).dropped_frames,
    {
        if let Some(channel_id) = navigated {
            self.our_channel_id = channel_id;
        }
        match event {
            MumbleEvent::AudioReceived { session_id, opus_data, seq_num: _ } =>
                EventAction::Decode { session_id, opus_data },
            MumbleEvent::UserChangedChannel { session_id, channel_id } => {
                let before: Option<u32> = self.user_channels.insert(session_id, channel_id);
                if session_id == self.our_session_id {
                    self.our_channel_id = channel_id;
                    if self.tts_enabled && before != Some(channel_id) {
                        EventAction::Announce {
                            channel_id,
                            channel_name: channel_name(&self.channel_names, channel_id),
                        }
                    } else {
                        EventAction::Nothing
                    }
                } else if channel_id == self.our_channel_id {
                    EventAction::Play(SoundEvent::UserJoinedChannel)
                } else if before == Some(self.our_channel_id) {
                    EventAction::Play(SoundEvent::UserLeftChannel)
                } else {
                    EventAction::Nothing
                }
            },
            MumbleEvent::UserDisconnected { session_id } => {
                if self.user_channels.remove(&session_id) == Some(self.our_channel_id) {
                    EventAction::Play(SoundEvent::UserLeftChannel)
                } else {
                    EventAction::Nothing
                }
            },
            MumbleEvent::TextMessageReceived { sender_name, message } => if self.tts_enabled {
                EventAction::Speak { sender_name, message }
            } else {
                EventAction::Play(SoundEvent::TextMessage)
            },
            MumbleEvent::ChannelState { channel_id, name } => {
                self.channel_names.insert(channel_id, name);
                EventAction::Nothing
            },
            MumbleEvent::Disconnected => EventAction::Stop,
            MumbleEvent::Connected { session_id: _ } => EventAction::Nothing,
        }
    }

    /// Counts a voice frame that was dropped.
    pub fn on_hand_over(&mut self, outcome: HandOver) -> (r: HandOverStep)
        requires
            outcome is QueueFull ==> old(self).dropped_frames < u64::MAX,
        ensures
            final(self)@ == old(self)@,
            final(self).dropped_frames == old(self).dropped_frames + (if outcome is QueueFull {
                1int
            } else {
                0
            }),
            r == hand_over_step(outcome, final(self).dropped_frames),
    {
        match outcome {
            HandOver::Taken => HandOverStep::GoOn,
            HandOver::QueueFull => {
                self.dropped_frames += 1;
                if self.dropped_frames % DROPPED_FRAMES_STEP == 0 {
                    HandOverStep::Warn { dropped_frames: self.dropped_frames }
                } else {
                    HandOverStep::GoOn
                }
            },
            HandOver::Closed => HandOverStep::Stop,
        }
    }
}

/// What follows the attempt to queue a text message for speech.
pub open spec fn queueing_followed(queued: bool) -> EventAction {
    if queued {
        EventAction::Nothing
    } else {
        EventAction::Play(SoundEvent::TextMessage)
    }
}

/// What follows the attempt to queue a text message for speech: a sound where it
/// failed.
pub fn after_queueing(queued: bool) -> (r: EventAction)
    ensures
        r == queueing_followed(queued),
{
    if queued {
        EventAction::Nothing
    } else {
        EventAction::Play(SoundEvent::TextMessage)
    }
}

/// What a caller hears: the speech, or the sound for an event where there is none.
pub open spec fn heard_or(
    speech: Option<Vec<i16>>,
    bank: &SoundBank,
    event: SoundEvent,
) -> Seq<i16> {
    match speech {
        Some(pcm) => pcm@,
        None => bank.clip(event),
    }
}

/// What a caller hears of a channel change: its announcement, or the sound for a joined
/// channel where it could not be spoken.
pub fn announcement_or_chime(bank: &SoundBank, speech: Option<Vec<i16>>) -> (r: Vec<i16>)
    ensures
        r@ == heard_or(speech, bank, SoundEvent::SelfJoinedChannel),
{
    match speech {
        Some(pcm) => pcm,
        None => get_sound(bank, SoundEvent::SelfJoinedChannel),
    }
}

/// What a caller hears of a text message: its speech, or a sound where it could not
/// be spoken.
pub fn speech_or_sound(bank: &SoundBank, speech: Option<Vec<i16>>) -> (r: Vec<i16>)
    ensures
        r@ == heard_or(speech, bank, SoundEvent::TextMessage),
{
    match speech {
        Some(pcm) => pcm,
        None => get_sound(bank, SoundEvent::TextMessage),
    }
}

/// A user who enters our channel and leaves it again is heard twice, first as they
/// come and at last as they go, whether they move on or disconnect.
pub proof fn law_visitors_are_heard(room: Room, user: u32, elsewhere: u32)
    requires
        user != room.us,
        elsewhere != room.our_channel,
    ensures
        ({
            let enter = MumbleEvent::UserChangedChannel {
                session_id: user,
                channel_id: room.our_channel,
            };
            let inside = room_after(room, enter);
            &&& action_after(room, enter) == EventAction::Play(SoundEvent::UserJoinedChannel)
            &&& action_after(
                inside,
                MumbleEvent::UserChangedChannel { session_id: user, channel_id: elsewhere },
            ) == EventAction::Play(SoundEvent::UserLeftChannel)
            &&& action_after(inside, MumbleEvent::UserDisconnected { session_id: user })
                == EventAction::Play(SoundEvent::UserLeftChannel)
        }),
{
}

/// A move that the server confirms is announced once, also where the keys had led to
/// the channel before the server confirmed it.
pub proof fn law_own_move_is_announced_once(room: Room, channel_id: u32)
    requires
        room.tts_enabled,
        room.users.get(room.us) != Some(channel_id),
    ensures
        ({
            let confirmed = MumbleEvent::UserChangedChannel { session_id: room.us, channel_id };
            let ahead = room_entered(room, Some(channel_id));
            &&& action_after(ahead, confirmed) == (EventAction::Announce {
                channel_id,
                channel_name: room.names.get(channel_id),
            })
            &&& room_after(ahead, confirmed).our_channel == channel_id
            &&& action_after(room_after(ahead, confirmed), confirmed) == EventAction::Nothing
        }),
{
}

/// Speech is heard as it was synthesized, and where there is none the sound for the event
/// is. A text message that could not be queued for speech makes its sound instead.
pub proof fn law_callers_hear_speech_or_its_sound(
    pcm: Vec<i16>,
    bank: &SoundBank,
    event: SoundEvent,
)
    ensures
        heard_or(Some(pcm), bank, event) == pcm@,
        heard_or(None, bank, event) == bank.clip(event),
        queueing_followed(true) is Nothing,
        queueing_followed(false) == EventAction::Play(SoundEvent::TextMessage),
{
}

} // verus!
