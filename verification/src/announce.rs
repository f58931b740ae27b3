//! Announcements of channel changes. A quick run of changes is announced once, with
//! the channel it ends in.

use crate::config::TtsSection;
use vstd::prelude::*;

verus! {

/// A channel to announce.
#[derive(Debug)]
pub struct Announcement {
    pub channel_id: u32,
    pub channel_name: Option<String>,
}

/// What the announcer hears.
#[derive(Debug)]
pub enum QueueEvent {
    Next(Announcement),
    /// Nothing came for the length of the wait.
    Quiet,
    /// Nothing will come any more.
    Closed,
}

/// What the announcer waits for.
#[derive(Clone, Copy, Debug, PartialEq, Eq, Structural)]
pub enum WaitFor {
    /// The next announcement, however long it takes.
    Next,
    /// The next announcement, or so many milliseconds without one.
    NextOrQuiet { millis: u64 },
    /// Nothing: the announcer is done.
    Nothing,
}

/// What the announcer does.
#[derive(Debug)]
pub struct AnnounceStep {
    pub speak: Option<Announcement>,
    pub wait_for: WaitFor,
}

/// The announcer of a call.
#[derive(Debug)]
pub struct Announcer {
    pub enabled: bool,
    pub debounce_ms: u64,
    /// The latest change that is not settled yet.
    pub latest: Option<Announcement>,
    pub last_announced: Option<u32>,
}

/// The memory of an announcer.
pub ghost struct Memory {
    pub latest: Option<Announcement>,
    pub last_announced: Option<u32>,
}

/// The change that a settled announcer speaks of: the latest one, unless it leads to
/// the channel announced last.
pub open spec fn due(enabled: bool, m: Memory) -> Option<Announcement> {
    match m.latest {
        Some(a) if enabled && m.last_announced != Some(a.channel_id) => Some(a),
        _ => None,
    }
}

/// The memory once the latest change is settled.
pub open spec fn settled(m: Memory) -> Memory {
    Memory {
        latest: None,
        last_announced: match m.latest {
            Some(a) => Some(a.channel_id),
            None => m.last_announced,
        },
    }
}

/// The memory with a new change in it.
pub open spec fn noted(m: Memory, event: QueueEvent) -> Memory {
    match event {
        QueueEvent::Next(a) => Memory { latest: Some(a), ..m },
        _ => m,
    }
}

/// An event leaves the latest change unsettled: more may come before the wait is
/// over.
pub open spec fn must_wait(debounce_ms: u64, event: QueueEvent) -> bool {
    event is Next && debounce_ms > 0
}

/// The memory after an event. A change replaces the one before; a quiet spell or the
/// end of the queue settles it, and without a wait it is settled at once.
pub open spec fn heard(debounce_ms: u64, m: Memory, event: QueueEvent) -> Memory {
    if must_wait(debounce_ms, event) {
        noted(m, event)
    } else {
        settled(noted(m, event))
    }
}

/// What is spoken after an event.
pub open spec fn spoken(
    enabled: bool,
    debounce_ms: u64,
    m: Memory,
    event: QueueEvent,
) -> Option<Announcement> {
    if must_wait(debounce_ms, event) {
        None
    } else {
        due(enabled, noted(m, event))
    }
}

/// What the announcer waits for after an event.
pub open spec fn waits_for(debounce_ms: u64, event: QueueEvent) -> WaitFor {
    if must_wait(debounce_ms, event) {
        WaitFor::NextOrQuiet { millis: debounce_ms }
    } else if event is Closed {
        WaitFor::Nothing
    } else {
        WaitFor::Next
    }
}

/// An announcer is set up for the speech settings, and has heard of nothing.
pub open spec fn announces_for(r: Announcer, tts: TtsSection) -> bool {
    &&& r.enabled == tts.enabled
    &&& r.debounce_ms == (if tts.enabled {
        tts.announcement_debounce_ms
    } else {
        0
    })
    &&& r.latest is None
    &&& r.last_announced is None
}

impl View for Announcer {
    type V = Memory;

    open spec fn view(&self) -> Memory {
        Memory { latest: self.latest, last_announced: self.last_announced }
    }
}

impl Announcer {
    /// The announcer of a call under the speech settings. Without speech there is no
    /// wait and nothing is spoken.
    pub fn new(tts: &TtsSection) -> (r: Self)
        ensures
            announces_for(r, *tts),
    {
        Announcer {
            enabled: tts.enabled,
            debounce_ms: if tts.enabled {
                tts.announcement_debounce_ms
            } else {
                0
            },
            latest: None,
            last_announced: None,
        }
    }

    /// Settles the latest change.
    fn settle(&mut self) -> (r: Option<Announcement>)
        ensures
            r == due(old(self).enabled, old(self)@),
            final(self)@ == settled(old(self)@),
            final(self).enabled == old(self).enabled,
            final(self).debounce_ms == old(self).debounce_ms,
    {
        match self.latest.take() {
            None => None,
            Some(a) => {
                let again = self.last_announced == Some(a.channel_id);
                self.last_announced = Some(a.channel_id);
                if again || !self.enabled {
                    None
                } else {
                    Some(a)
                }
            },
        }
    }

    /// Handles what the announcer hears. Each change starts the wait anew.
    pub fn on_event(&mut self, event: QueueEvent) -> (r: AnnounceStep)
        ensures
            final(self).enabled == old(self).enabled,
            final(self).debounce_ms == old(self).debounce_ms,
            final(self)@ == heard(old(self).debounce_ms, old(self)@, event),
            r.speak == spoken(old(self).enabled, old(self).debounce_ms, old(self)@, event),
            r.wait_for == waits_for(old(self).debounce_ms, event),
    {
        match event {
            QueueEvent::Next(a) => {
                self.latest = Some(a);
                if self.debounce_ms > 0 {
                    AnnounceStep {
                        speak: None,
                        wait_for: WaitFor::NextOrQuiet { millis: self.debounce_ms },
                    }
                } else {
                    AnnounceStep { speak: self.settle(), wait_for: WaitFor::Next }
                }
            },
            QueueEvent::Quiet => AnnounceStep { speak: self.settle(), wait_for: WaitFor::Next },
            QueueEvent::Closed => AnnounceStep {
                speak: self.settle(),
                wait_for: WaitFor::Nothing,
            },
        }
    }
}

/// The memory after a run of changes, each within the wait for the one before.
pub open spec fn run_heard(debounce_ms: u64, m: Memory, run: Seq<Announcement>) -> Memory
    decreases run.len(),
{
    if run.len() == 0 {
        m
    } else {
        heard(debounce_ms, run_heard(debounce_ms, m, run.drop_last()), QueueEvent::Next(run.last()))
    }
}

/// Of a run of changes, the last one is announced once all is quiet, and no other,
/// unless it leads back to the channel announced before the run.
pub proof fn law_run_is_announced_once(debounce_ms: u64, m: Memory, run: Seq<Announcement>)
    requires
        debounce_ms > 0,
        run.len() > 0,
    ensures
        forall|i: int|
            0 <= i < run.len() ==> spoken(
                true,
                debounce_ms,
                run_heard(debounce_ms, m, run.take(i)),
                QueueEvent::Next(#[trigger] run[i]),
            ) is None,
        spoken(true, debounce_ms, run_heard(debounce_ms, m, run), QueueEvent::Quiet) == (
        if m.last_announced == Some(run.last().channel_id) {
            None
        } else {
            Some(run.last())
        }),
{
    lemma_run_keeps_last_announced(debounce_ms, m, run);
}

proof fn lemma_run_keeps_last_announced(debounce_ms: u64, m: Memory, run: Seq<Announcement>)
    requires
        debounce_ms > 0,
    ensures
        run_heard(debounce_ms, m, run).last_announced == m.last_announced,
    decreases run.len(),
{
    if run.len() > 0 {
        lemma_run_keeps_last_announced(debounce_ms, m, run.drop_last());
    }
}

/// A channel that was announced is not announced again until the announcer has heard
/// of another one.
pub proof fn law_channel_is_not_repeated(
    debounce_ms: u64,
    m: Memory,
    first: Announcement,
    again: Announcement,
)
    requires
        first.channel_id == again.channel_id,
    ensures
        ({
            let announced = heard(
                debounce_ms,
                heard(debounce_ms, m, QueueEvent::Next(first)),
                QueueEvent::Quiet,
            );
            let next = QueueEvent::Next(again);
            &&& spoken(true, debounce_ms, announced, next) is None
            &&& spoken(
                true,
                debounce_ms,
                heard(debounce_ms, announced, next),
                QueueEvent::Quiet,
            ) is None
        }),
{
}

/// An announcer that waits speaks of a change only after quiet or at the end, and one that
/// does not wait speaks of it at once. Either way it speaks of the change as it was
/// reported, unless it spoke of that channel last, and it speaks of no change twice.
pub proof fn law_every_change_is_settled_once(
    debounce_ms: u64,
    m: Memory,
    a: Announcement,
    end: QueueEvent,
)
    requires
        !(end is Next),
    ensures
        ({
            let waited = heard(debounce_ms, m, QueueEvent::Next(a));
            let first = spoken(true, debounce_ms, m, QueueEvent::Next(a));
            let then = spoken(true, debounce_ms, waited, end);
            let done = heard(debounce_ms, waited, end);
            let expected = if m.last_announced == Some(a.channel_id) {
                None
            } else {
                Some(a)
            };
            &&& debounce_ms > 0 ==> first is None && then == expected
            &&& debounce_ms == 0 ==> first == expected && then is None
            &&& done.last_announced == Some(a.channel_id)
            &&& done.latest is None
            &&& spoken(true, debounce_ms, done, end) is None
        }),
{
}

/// An announcer that is switched off speaks of nothing.
pub proof fn law_switched_off_announcer_is_silent(
    debounce_ms: u64,
    m: Memory,
    event: QueueEvent,
)
    ensures
        spoken(false, debounce_ms, m, event) is None,
{
}

/// A channel that was left in between is announced again on return.
pub proof fn law_return_is_announced(
    debounce_ms: u64,
    m: Memory,
    there: Announcement,
    back: Announcement,
)
    requires
        there.channel_id != back.channel_id,
    ensures
        ({
            let quiet = QueueEvent::Quiet;
            let left = heard(
                debounce_ms,
                heard(debounce_ms, m, QueueEvent::Next(there)),
                quiet,
            );
            let next = QueueEvent::Next(back);
            &&& debounce_ms == 0 ==> spoken(true, debounce_ms, left, next) == Some(back)
            &&& debounce_ms > 0 ==> spoken(
                true,
                debounce_ms,
                heard(debounce_ms, left, next),
                quiet,
            ) == Some(back)
        }),
{
}

/// A change is waited on for the whole time that is set, and only the end of the queue
/// ends the waiting.
pub proof fn law_waiting_starts_anew(debounce_ms: u64, a: Announcement)
    ensures
        waits_for(debounce_ms, QueueEvent::Next(a)) == (if debounce_ms > 0 {
            WaitFor::NextOrQuiet { millis: debounce_ms }
        } else {
            WaitFor::Next
        }),
        waits_for(debounce_ms, QueueEvent::Quiet) is Next,
        waits_for(debounce_ms, QueueEvent::Closed) is Nothing,
{
}

/// With speech switched on, the first change that a new announcer hears of is announced,
/// whatever channel it leads to, after the wait that is set. With speech switched off it
/// waits for nothing and says nothing.
pub proof fn law_first_change_is_announced(r: Announcer, tts: TtsSection, a: Announcement)
    requires
        announces_for(r, tts),
    ensures
        ({
            let next = QueueEvent::Next(a);
            let then = heard(r.debounce_ms, r@, next);
            let first = spoken(r.enabled, r.debounce_ms, r@, next);
            let second = spoken(r.enabled, r.debounce_ms, then, QueueEvent::Quiet);
            &&& tts.enabled && tts.announcement_debounce_ms > 0 ==> first is None && second
                == Some(a) && waits_for(r.debounce_ms, next) == (WaitFor::NextOrQuiet {
                millis: tts.announcement_debounce_ms,
            })
            &&& tts.enabled && tts.announcement_debounce_ms == 0 ==> first == Some(a)
            &&& !tts.enabled ==> first is None && second is None && waits_for(
                r.debounce_ms,
                next,
            ) is Next
        }),
{
}

} // verus!
