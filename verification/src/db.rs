//! Callers: their nicknames, their visits and their last channels.

use crate::text::{chars_of, string_of};
use crate::text_laws::lacks;
use vstd::prelude::*;

verus! {

pub const SECS_PER_DAY: u64 = 86_400;

/// What is known of a caller.
#[derive(Debug)]
pub struct CallerInfo {
    pub phone_number: String,
    pub nickname: String,
    /// For a new caller the time of this call, for a returning caller the time of
    /// the call before.
    pub last_seen: u64,
    /// This is the caller's first call.
    pub is_new: bool,
}

/// A caller as stored.
#[derive(Debug)]
pub struct CallerRow {
    pub phone_number: String,
    pub nickname: String,
    pub last_seen: i64,
}

/// A change to the stored callers.
#[derive(Debug)]
pub enum StoreCommand {
    /// Set when a caller was last seen.
    Touch { phone_number: String, now: i64 },
    /// Add a caller. Where the number is stored already, only set when it was
    /// last seen.
    Register { phone_number: String, nickname: String, now: i64 },
    /// Rename a stored caller.
    Rename { phone_number: String, nickname: String },
    /// Set the last channel of a number on a server.
    SetChannel { phone_number: String, server_host: String, channel_id: i64 },
}

/// What follows the search for a caller.
#[derive(Debug)]
pub enum LookupStep {
    /// The caller is known: run the command, and the lookup is done.
    Known { command: StoreCommand, info: CallerInfo },
    /// The caller is new: find a nickname that nobody has.
    FindNickname,
}

/// What follows the search for a nickname.
#[derive(Debug)]
pub enum NicknameStep {
    /// The nickname is free: run the command, and the lookup is done.
    Free { command: StoreCommand, info: CallerInfo },
    /// Somebody has it: try another.
    Taken,
}

/// A name with its hyphens turned into underscores.
pub open spec fn underscored(s: Seq<char>) -> Seq<char> {
    s.map_values(
        |c: char|
            if c == '-' {
                '_'
            } else {
                c
            },
    )
}

/// A character stands somewhere in a text, with more text on both sides of it.
pub open spec fn has_inner(s: Seq<char>, c: char) -> bool {
    exists|i: int| 0 < i < s.len() - 1 && #[trigger] s[i] == c
}

/// A nickname: words joined by underscores, without a hyphen.
pub open spec fn is_nickname(s: Seq<char>) -> bool {
    has_inner(s, '_') && lacks(s, '-')
}

/// Draws a name with `names::Generator`: the default generator always yields one,
/// an adjective and a noun with a hyphen between them. Its lists hold no empty word.
/// Which one is drawn is up to chance.
#[verifier::external_body]
fn draw_name() -> (r: Option<String>)
    ensures
        r is Some,
        has_inner(r->0@, '-'),
{
    names::Generator::default().next()
}

/// The nickname made of a drawn name, or of `anonymous` where none was drawn.
pub fn nickname_from(drawn: Option<String>) -> (r: String)
    ensures
        r@ == underscored(
            match drawn {
                Some(name) => name@,
                None => "anonymous"@,
            },
        ),
{
    let name: Vec<char> = match drawn {
        Some(n) => chars_of(n.as_str()),
        None => chars_of("anonymous"),
    };
    let mut out: Vec<char> = Vec::new();
    let mut i: usize = 0;
    while i < name.len()
        invariant
            i <= name.len(),
            out@ == underscored(name@.take(i as int)),
        decreases name.len() - i,
    {
        let c = name[i];
        out.push(
            if c == '-' {
                '_'
            } else {
                c
            },
        );
        assert(underscored(name@.take(i + 1)) =~= underscored(name@.take(i as int)).push(
            if c == '-' {
                '_'
            } else {
                c
            },
        ));
        i += 1;
    }
    assert(name@.take(name.len() as int) == name@);
    string_of(out.as_slice())
}

/// Generates a nickname such as `relaxed_babbage`.
pub fn generate_nickname() -> (r: String)
    ensures
        is_nickname(r@),
{
    let drawn = draw_name();
    let ghost name = drawn->0@;
    let r = nickname_from(drawn);
    proof {
        let i = choose|i: int| 0 < i < name.len() - 1 && #[trigger] name[i] == '-';
        assert(r@[i] == '_');
    }
    r
}

/// The intro is due to a caller: one who is new, or who stayed away for the given number
/// of days or longer.
pub open spec fn intro_due(info: CallerInfo, now: u64, replay_after_days: u64) -> bool {
    info.is_new || (if now >= info.last_seen {
        now - info.last_seen
    } else {
        0
    }) >= replay_after_days * SECS_PER_DAY
}

/// The intro is played to new callers, and to those who stayed away for the
/// given number of days or longer.
pub fn should_play_intro(info: &CallerInfo, now: u64, replay_after_days: u64) -> (r: bool)
    requires
        replay_after_days * SECS_PER_DAY <= u64::MAX,
    ensures
        r == intro_due(*info, now, replay_after_days),
{
    let limit: u64 = replay_after_days * SECS_PER_DAY;
    info.is_new || now.saturating_sub(info.last_seen) >= limit
}

/// A known caller is recognised: the visit is to be recorded, and the caller keeps the
/// stored nickname and is told when they were seen before.
pub open spec fn recognised(
    phone_number: Seq<char>,
    row: CallerRow,
    now: i64,
    command: StoreCommand,
    info: CallerInfo,
) -> bool {
    &&& command matches StoreCommand::Touch { phone_number: touched, now: at }
    &&& touched@ == phone_number && at == now
    &&& info.phone_number@ == row.phone_number@
    &&& info.nickname@ == row.nickname@
    &&& info.last_seen == row.last_seen as u64
    &&& !info.is_new
}

/// A new caller is registered under a nickname.
pub open spec fn registered(
    phone_number: Seq<char>,
    nickname: Seq<char>,
    now: i64,
    command: StoreCommand,
    info: CallerInfo,
) -> bool {
    &&& command matches StoreCommand::Register { phone_number: added, nickname: named, now: at }
    &&& added@ == phone_number && named@ == nickname && at == now
    &&& info.phone_number@ == phone_number
    &&& info.nickname@ == nickname
    &&& info.last_seen == now as u64
    &&& info.is_new
}

/// Decides after the search for a caller.
pub fn after_search(phone_number: &str, row: Option<CallerRow>, now: i64) -> (r: LookupStep)
    ensures
        match row {
            Some(found) => r matches LookupStep::Known { command, info } && recognised(
                phone_number@,
                found,
                now,
                command,
                info,
            ),
            None => r is FindNickname,
        },
{
    match row {
        Some(found) => LookupStep::Known {
            command: StoreCommand::Touch { phone_number: phone_number.to_owned(), now },
            info: CallerInfo {
                phone_number: found.phone_number,
                nickname: found.nickname,
                last_seen: found.last_seen as u64,
                is_new: false,
            },
        },
        None => LookupStep::FindNickname,
    }
}

/// Decides after the search for a nickname.
pub fn after_nickname(phone_number: &str, candidate: String, taken: bool, now: i64) -> (r:
    NicknameStep)
    ensures
        taken ==> r is Taken,
        !taken ==> {
            &&& r matches NicknameStep::Free { command, info }
            &&& registered(phone_number@, candidate@, now, command, info)
        },
{
    if taken {
        return NicknameStep::Taken;
    }
    NicknameStep::Free {
        command: StoreCommand::Register {
            phone_number: phone_number.to_owned(),
            nickname: candidate.clone(),
            now,
        },
        info: CallerInfo {
            phone_number: phone_number.to_owned(),
            nickname: candidate,
            last_seen: now as u64,
            is_new: true,
        },
    }
}

/// A command renames a caller.
pub open spec fn renames(
    command: StoreCommand,
    phone_number: Seq<char>,
    nickname: Seq<char>,
) -> bool {
    &&& command matches StoreCommand::Rename { phone_number: p, nickname: n }
    &&& p@ == phone_number
    &&& n@ == nickname
}

/// A command records the last channel of a caller on a server.
pub open spec fn stores_channel(
    command: StoreCommand,
    phone_number: Seq<char>,
    server_host: Seq<char>,
    channel_id: u32,
) -> bool {
    &&& command matches StoreCommand::SetChannel {
        phone_number: p,
        server_host: h,
        channel_id: c,
    }
    &&& p@ == phone_number
    &&& h@ == server_host
    &&& c == channel_id
}

/// The channel that a stored number stands for.
pub open spec fn stored_channel(row: Option<i64>) -> Option<u32> {
    match row {
        Some(id) => Some(id as u32),
        None => None,
    }
}

/// The command that renames a caller.
pub fn set_nickname(phone_number: &str, nickname: &str) -> (r: StoreCommand)
    ensures
        renames(r, phone_number@, nickname@),
{
    StoreCommand::Rename { phone_number: phone_number.to_owned(), nickname: nickname.to_owned() }
}

/// The command that records the last channel of a caller on a server.
pub fn set_last_channel_id(phone_number: &str, server_host: &str, channel_id: u32) -> (r:
    StoreCommand)
    ensures
        stores_channel(r, phone_number@, server_host@, channel_id),
{
    StoreCommand::SetChannel {
        phone_number: phone_number.to_owned(),
        server_host: server_host.to_owned(),
        channel_id: channel_id as i64,
    }
}

/// The channel that a stored number stands for: its low 32 bits.
pub fn channel_from_row(row: Option<i64>) -> (r: Option<u32>)
    ensures
        r == stored_channel(row),
{
    match row {
        Some(id) => Some(id as u32),
        None => None,
    }
}

/// The stored callers and channels, as the commands describe them. Nothing here ties
/// them to a database: that it runs the commands in this sense is up to the program.
pub ghost struct Store {
    /// Nickname and last visit by phone number.
    pub callers: Map<Seq<char>, (Seq<char>, int)>,
    /// Channel by phone number and server.
    pub channels: Map<(Seq<char>, Seq<char>), int>,
}

/// What a command makes of the stored callers.
pub open spec fn applied(s: Store, command: StoreCommand) -> Store {
    match command {
        StoreCommand::Touch { phone_number, now } => if s.callers.contains_key(phone_number@) {
            Store {
                callers: s.callers.insert(
                    phone_number@,
                    (s.callers[phone_number@].0, now as int),
                ),
                ..s
            }
        } else {
            s
        },
        StoreCommand::Register { phone_number, nickname, now } => Store {
            callers: s.callers.insert(
                phone_number@,
                (
                    if s.callers.contains_key(phone_number@) {
                        s.callers[phone_number@].0
                    } else {
                        nickname@
                    },
                    now as int,
                ),
            ),
            ..s
        },
        StoreCommand::Rename { phone_number, nickname } => if s.callers.contains_key(
            phone_number@,
        ) {
            Store {
                callers: s.callers.insert(
                    phone_number@,
                    (nickname@, s.callers[phone_number@].1),
                ),
                ..s
            }
        } else {
            s
        },
        StoreCommand::SetChannel { phone_number, server_host, channel_id } => Store {
            channels: s.channels.insert((phone_number@, server_host@), channel_id as int),
            ..s
        },
    }
}

/// Somebody has the nickname.
pub open spec fn nickname_taken(s: Store, nickname: Seq<char>) -> bool {
    exists|p: Seq<char>| #[trigger] s.callers.contains_key(p) && s.callers[p].0 == nickname
}

/// No two callers have the same nickname.
pub open spec fn nicknames_unique(s: Store) -> bool {
    forall|p: Seq<char>, q: Seq<char>|
        #[trigger] s.callers.contains_key(p) && #[trigger] s.callers.contains_key(q)
            && s.callers[p].0 == s.callers[q].0 ==> p == q
}

/// Registering a new caller under a free nickname stores just that caller, and
/// nicknames stay unique.
pub proof fn law_registering_adds_one_caller(
    s: Store,
    phone_number: String,
    nickname: String,
    now: i64,
)
    requires
        !s.callers.contains_key(phone_number@),
        !nickname_taken(s, nickname@),
        nicknames_unique(s),
    ensures
        ({
            let t = applied(s, StoreCommand::Register { phone_number, nickname, now });
            &&& t.callers == s.callers.insert(phone_number@, (nickname@, now as int))
            &&& t.channels == s.channels
            &&& nicknames_unique(t)
        }),
{
    let t = applied(s, StoreCommand::Register { phone_number, nickname, now });
    assert forall|p: Seq<char>, q: Seq<char>|
        #[trigger] t.callers.contains_key(p) && #[trigger] t.callers.contains_key(q)
            && t.callers[p].0 == t.callers[q].0 implies p == q by {
        if p == phone_number@ && q != phone_number@ {
            assert(s.callers.contains_key(q));
        } else if q == phone_number@ && p != phone_number@ {
            assert(s.callers.contains_key(p));
        } else if p != phone_number@ {
            assert(s.callers.contains_key(p) && s.callers.contains_key(q));
        }
    }
}

/// The stored row of a number.
pub open spec fn row_of(s: Store, phone_number: Seq<char>, row: CallerRow) -> bool {
    &&& s.callers.contains_key(phone_number)
    &&& row.phone_number@ == phone_number
    &&& row.nickname@ == s.callers[phone_number].0
    &&& row.last_seen == s.callers[phone_number].1
}

/// A caller is looked up: the store turns from `s` into `t`, and `info` is reported. A
/// known caller is recognised by the stored row, a new one is registered under a
/// nickname that nobody has.
pub open spec fn looked_up(
    s: Store,
    phone_number: Seq<char>,
    now: i64,
    t: Store,
    info: CallerInfo,
) -> bool {
    ||| exists|row: CallerRow, command: StoreCommand|
        row_of(s, phone_number, row) && #[trigger] recognised(phone_number, row, now, command, info)
            && t == applied(s, command)
    ||| !s.callers.contains_key(phone_number) && exists|nickname: Seq<char>, command: StoreCommand|
        !nickname_taken(s, nickname) && #[trigger] registered(
            phone_number,
            nickname,
            now,
            command,
            info,
        ) && t == applied(s, command)
}

/// The store after several commands.
pub open spec fn store_after(s: Store, commands: Seq<StoreCommand>) -> Store
    decreases commands.len(),
{
    if commands.len() == 0 {
        s
    } else {
        applied(store_after(s, commands.drop_last()), commands.last())
    }
}

/// A command is about the nickname or the visits of a caller.
pub open spec fn concerns(command: StoreCommand, phone_number: Seq<char>) -> bool {
    match command {
        StoreCommand::Touch { phone_number: p, .. } => p@ == phone_number,
        StoreCommand::Register { phone_number: p, .. } => p@ == phone_number,
        StoreCommand::Rename { phone_number: p, .. } => p@ == phone_number,
        StoreCommand::SetChannel { .. } => false,
    }
}

/// What is stored of a caller stays as it is under commands about others.
pub proof fn law_commands_are_per_caller(
    s: Store,
    commands: Seq<StoreCommand>,
    phone_number: Seq<char>,
)
    requires
        forall|i: int|
            0 <= i < commands.len() ==> !concerns(#[trigger] commands[i], phone_number),
    ensures
        store_after(s, commands).callers.contains_key(phone_number) == s.callers.contains_key(
            phone_number,
        ),
        s.callers.contains_key(phone_number) ==> store_after(s, commands).callers[phone_number]
            == s.callers[phone_number],
    decreases commands.len(),
{
    if commands.len() > 0 {
        let earlier = commands.drop_last();
        assert forall|i: int| 0 <= i < earlier.len() implies !concerns(
            #[trigger] earlier[i],
            phone_number,
        ) by {
            assert(earlier[i] == commands[i]);
        }
        law_commands_are_per_caller(s, earlier, phone_number);
        assert(!concerns(commands[commands.len() - 1], phone_number));
    }
}

/// A lookup reports a caller and keeps the reported nickname and the time of the call.
/// A new caller is told this time, and gets a nickname that nobody had.
pub proof fn law_lookup_keeps_what_it_reports(
    s: Store,
    phone_number: Seq<char>,
    now: i64,
    t: Store,
    info: CallerInfo,
)
    requires
        looked_up(s, phone_number, now, t, info),
    ensures
        info.phone_number@ == phone_number,
        info.is_new == !s.callers.contains_key(phone_number),
        info.is_new ==> info.last_seen == now as u64 && !nickname_taken(s, info.nickname@),
        !info.is_new ==> info.nickname@ == s.callers[phone_number].0,
        t.callers.contains_key(phone_number),
        t.callers[phone_number] == (info.nickname@, now as int),
{
}

/// Of two calls, the second finds the caller that the first one reported: under the same
/// nickname, no longer new, and last seen at the time of the first. The time of the
/// second is what a third would be told. Meanwhile anything may happen to others, and
/// channels may be stored.
pub proof fn law_second_call_finds_the_first(
    s: Store,
    phone_number: Seq<char>,
    first_time: i64,
    after_first: Store,
    first: CallerInfo,
    between: Seq<StoreCommand>,
    second_time: i64,
    after_second: Store,
    second: CallerInfo,
)
    requires
        looked_up(s, phone_number, first_time, after_first, first),
        forall|i: int| 0 <= i < between.len() ==> !concerns(#[trigger] between[i], phone_number),
        looked_up(
            store_after(after_first, between),
            phone_number,
            second_time,
            after_second,
            second,
        ),
    ensures
        second.nickname@ == first.nickname@,
        !second.is_new,
        second.last_seen == first_time as u64,
        after_second.callers[phone_number] == (first.nickname@, second_time as int),
{
    law_lookup_keeps_what_it_reports(s, phone_number, first_time, after_first, first);
    law_commands_are_per_caller(after_first, between, phone_number);
    law_lookup_keeps_what_it_reports(
        store_after(after_first, between),
        phone_number,
        second_time,
        after_second,
        second,
    );
}

/// Visits change the time of the last visit and nothing else.
pub proof fn law_visits_keep_nicknames(s: Store, phone_number: String, now: i64, other: Seq<char>)
    ensures
        ({
            let t = applied(s, StoreCommand::Touch { phone_number, now });
            &&& t.channels == s.channels
            &&& t.callers.contains_key(other) == s.callers.contains_key(other)
            &&& s.callers.contains_key(other) ==> t.callers[other] == (if other == phone_number@ {
                (s.callers[other].0, now as int)
            } else {
                s.callers[other]
            })
        }),
{
}

/// A rename is what later calls find.
pub proof fn law_rename_overrides(s: Store, phone_number: String, nickname: String)
    requires
        s.callers.contains_key(phone_number@),
    ensures
        applied(s, StoreCommand::Rename { phone_number, nickname }).callers[phone_number@] == (
            nickname@,
            s.callers[phone_number@].1,
        ),
{
}

/// The last channel is kept per caller and server, and the latest one counts.
pub proof fn law_last_channel_is_per_server(
    s: Store,
    phone_number: String,
    server_host: String,
    channel_id: u32,
    p: Seq<char>,
    h: Seq<char>,
)
    ensures
        ({
            let t = applied(
                s,
                StoreCommand::SetChannel {
                    phone_number,
                    server_host,
                    channel_id: channel_id as i64,
                },
            );
            &&& t.callers == s.callers
            &&& if p == phone_number@ && h == server_host@ {
                t.channels.contains_key((p, h)) && t.channels[(p, h)] == channel_id
            } else {
                t.channels.contains_key((p, h)) == s.channels.contains_key((p, h)) && t.channels[(
                    p,
                    h,
                )] == s.channels[(p, h)]
            }
        }),
{
}

/// A channel that was stored is read back as it was.
pub proof fn law_channel_survives_storage(channel_id: u32)
    ensures
        (channel_id as i64) as u32 == channel_id,
{
}

/// A store with nothing in it.
pub open spec fn new_store() -> Store {
    Store { callers: Map::empty(), channels: Map::empty() }
}

/// The number stored as the channel of a caller on a server.
pub open spec fn channel_row(s: Store, phone_number: Seq<char>, server_host: Seq<char>) -> Option<
    i64,
> {
    match s.channels.get((phone_number, server_host)) {
        Some(id) => Some(id as i64),
        None => None,
    }
}

/// The latest channel that commands set for a caller on a server.
pub open spec fn latest_channel(
    commands: Seq<StoreCommand>,
    phone_number: Seq<char>,
    server_host: Seq<char>,
) -> Option<i64>
    decreases commands.len(),
{
    if commands.len() == 0 {
        None
    } else {
        match commands.last() {
            StoreCommand::SetChannel { phone_number: p, server_host: h, channel_id } if p@
                == phone_number && h@ == server_host => Some(channel_id),
            _ => latest_channel(commands.drop_last(), phone_number, server_host),
        }
    }
}

/// Whatever commands were run on a new store, the channel found for a caller on a server
/// is the latest that was set for that caller on that server, and none where there was
/// none.
pub proof fn law_latest_channel_is_found(
    commands: Seq<StoreCommand>,
    phone_number: Seq<char>,
    server_host: Seq<char>,
)
    ensures
        channel_row(store_after(new_store(), commands), phone_number, server_host)
            == latest_channel(commands, phone_number, server_host),
    decreases commands.len(),
{
    if commands.len() > 0 {
        law_latest_channel_is_found(commands.drop_last(), phone_number, server_host);
    }
}

/// A channel that was recorded is read back as it was, as long as none was recorded
/// later for the same caller on the same server.
pub proof fn law_last_channel_is_read_back(
    before: Seq<StoreCommand>,
    phone_number: String,
    server_host: String,
    channel_id: u32,
    later: Seq<StoreCommand>,
)
    requires
        latest_channel(later, phone_number@, server_host@) is None,
    ensures
        ({
            let set = StoreCommand::SetChannel {
                phone_number,
                server_host,
                channel_id: channel_id as i64,
            };
            let s = store_after(new_store(), before.push(set) + later);
            &&& channel_row(s, phone_number@, server_host@) matches Some(id)
            &&& id as u32 == channel_id
        }),
{
    let set = StoreCommand::SetChannel {
        phone_number,
        server_host,
        channel_id: channel_id as i64,
    };
    assert(before.push(set).drop_last() == before);
    lemma_latest_of_joined(before.push(set), later, phone_number@, server_host@);
    law_latest_channel_is_found(before.push(set) + later, phone_number@, server_host@);
}

proof fn lemma_latest_of_joined(
    a: Seq<StoreCommand>,
    b: Seq<StoreCommand>,
    phone_number: Seq<char>,
    server_host: Seq<char>,
)
    requires
        latest_channel(b, phone_number, server_host) is None,
    ensures
        latest_channel(a + b, phone_number, server_host) == latest_channel(
            a,
            phone_number,
            server_host,
        ),
    decreases b.len(),
{
    if b.len() == 0 {
        assert(a + b == a);
    } else {
        assert((a + b).drop_last() == a + b.drop_last());
        lemma_latest_of_joined(a, b.drop_last(), phone_number, server_host);
    }
}

/// The intro is due to every new caller, and to a returning one exactly once the whole
/// period has passed since the call before. A clock that went back makes no difference to
/// when it is due.
pub proof fn law_intro_is_due_after_the_period(info: CallerInfo, now: u64, days: u64)
    ensures
        info.is_new ==> intro_due(info, now, days),
        !info.is_new && now >= info.last_seen ==> (intro_due(info, now, days) <==> now
            >= info.last_seen + days * 86400),
        !info.is_new && now < info.last_seen ==> (intro_due(info, now, days) <==> days == 0),
{
}

/// What commands about a caller's channel record is what is found on the next call to the
/// same server, and nothing changes for other callers and servers.
pub proof fn law_recorded_channel_is_found(
    s: Store,
    command: StoreCommand,
    phone_number: Seq<char>,
    server_host: Seq<char>,
    channel_id: u32,
    p: Seq<char>,
    h: Seq<char>,
)
    requires
        stores_channel(command, phone_number, server_host, channel_id),
    ensures
        stored_channel(channel_row(applied(s, command), phone_number, server_host)) == Some(
            channel_id,
        ),
        p != phone_number || h != server_host ==> channel_row(applied(s, command), p, h)
            == channel_row(s, p, h),
        stored_channel(channel_row(new_store(), p, h)) is None,
        applied(s, command).callers == s.callers,
{
}

/// What a command renames a caller to is their nickname from then on, and nobody else's
/// changes.
pub proof fn law_renamed_caller_has_the_name(
    s: Store,
    command: StoreCommand,
    phone_number: Seq<char>,
    nickname: Seq<char>,
    other: Seq<char>,
)
    requires
        renames(command, phone_number, nickname),
        other != phone_number,
    ensures
        s.callers.contains_key(phone_number) ==> applied(s, command).callers[phone_number].0
            == nickname,
        applied(s, command).callers.contains_key(other) == s.callers.contains_key(other),
        s.callers.contains_key(other) ==> applied(s, command).callers[other] == s.callers[other],
        applied(s, command).callers.contains_key(phone_number) == s.callers.contains_key(
            phone_number,
        ),
{
}

/// A name keeps its length and its characters, but for its hyphens: each becomes an
/// underscore.
pub proof fn law_hyphens_become_underscores(s: Seq<char>, i: int)
    requires
        0 <= i < s.len(),
    ensures
        underscored(s).len() == s.len(),
        s[i] == '-' ==> underscored(s)[i] == '_',
        s[i] != '-' ==> underscored(s)[i] == s[i],
{
}

/// Registering a number that is stored already keeps its nickname and records the visit.
pub proof fn law_registering_again_keeps_the_nickname(
    s: Store,
    phone_number: String,
    nickname: String,
    now: i64,
)
    requires
        s.callers.contains_key(phone_number@),
    ensures
        applied(s, StoreCommand::Register { phone_number, nickname, now }) == applied(
            s,
            StoreCommand::Touch { phone_number, now },
        ),
{
}

} // verus!
