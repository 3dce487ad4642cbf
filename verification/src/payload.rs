//! The bodies of the two requests, as the collector reads them.

use crate::data::{
    locale_tallies, Data, GuildMembersData, InteractionData, InteractionKey, InteractionType,
    LocaleData, Snapshot,
};
use crate::tally::Tally;
use vstd::prelude::*;

verus! {

/// The framework that a bot declares.
pub const FRAMEWORK: &'static str = "serenity";

/// The version of this library that a bot declares.
pub const VERSION: &'static str = "0.1.0";

/// What the gateway tells of the bot itself once it is connected.
#[derive(Clone, Debug, PartialEq, Eq)]
pub struct BotIdentity {
    pub id: u64,
    pub username: String,
    pub avatar: Option<String>,
}

/// The body of the request that declares a bot.
#[derive(Clone, Debug, PartialEq, Eq)]
pub struct RegistrationPayload {
    pub username: String,
    pub avatar: Option<String>,
    pub framework: String,
    pub version: String,
}

/// A text that may be missing, as a mathematical value.
pub open spec fn text_of(text: Option<String>) -> Option<Seq<char>> {
    match text {
        Some(text) => Some(text@),
        None => None,
    }
}

/// The body that declares the bot `identity`: its name and avatar, the
/// framework and the version of this library.
pub fn registration_payload(identity: &BotIdentity) -> (payload: RegistrationPayload)
    ensures
        payload.username@ == identity.username@,
        text_of(payload.avatar) == text_of(identity.avatar),
        payload.framework@ == FRAMEWORK@,
        payload.version@ == VERSION@,
{
    let avatar = match &identity.avatar {
        Some(avatar) => Some(avatar.clone()),
        None => None,
    };
    RegistrationPayload {
        username: identity.username.clone(),
        avatar,
        framework: String::from_str(FRAMEWORK),
        version: String::from_str(VERSION),
    }
}

/// One interaction counter as the collector reads it: the kind stands by its
/// name.
#[derive(Clone, Debug, PartialEq, Eq)]
pub struct InteractionEntry {
    pub name: String,
    pub number: i32,
    pub interaction_type: String,
}

/// An interaction counter of a body, as a mathematical value.
pub struct WireInteraction {
    pub name: Seq<char>,
    pub number: int,
    pub kind: Seq<char>,
}

impl View for InteractionEntry {
    type V = WireInteraction;

    open spec fn view(&self) -> WireInteraction {
        WireInteraction {
            name: self.name@,
            number: self.number as int,
            kind: self.interaction_type@,
        }
    }
}

/// The body of the request that carries the statistics of one window.
#[derive(Clone, Debug, PartialEq, Eq)]
pub struct StatsPayload {
    pub date: String,
    pub guilds: i32,
    pub users: i32,
    pub interactions: Vec<InteractionEntry>,
    pub locales: Vec<LocaleData>,
    pub guilds_locales: Vec<LocaleData>,
    pub guild_members: GuildMembersData,
}

/// A statistics body as a mathematical value.
pub struct WireStats {
    pub date: Seq<char>,
    pub guilds: int,
    pub users: int,
    pub interactions: Seq<WireInteraction>,
    pub locales: Seq<Tally<Seq<char>>>,
    pub guilds_locales: Seq<Tally<Seq<char>>>,
    pub guild_members: GuildMembersData,
}

impl View for StatsPayload {
    type V = WireStats;

    open spec fn view(&self) -> WireStats {
        WireStats {
            date: self.date@,
            guilds: self.guilds as int,
            users: self.users as int,
            interactions: self.interactions@.map_values(|entry: InteractionEntry| entry@),
            locales: locale_tallies(self.locales@),
            guilds_locales: locale_tallies(self.guilds_locales@),
            guild_members: self.guild_members,
        }
    }
}

/// An interaction counter as the collector reads it.
pub open spec fn encode_interaction(line: Tally<InteractionKey>) -> WireInteraction {
    WireInteraction { name: line.key.0, number: line.count, kind: line.key.1.name() }
}

/// The interaction counter that an entry of a body stands for, where its kind
/// is known.
pub open spec fn decode_interaction(entry: WireInteraction) -> Tally<InteractionKey> {
    Tally { key: (entry.name, InteractionType::named(entry.kind).unwrap()), count: entry.number }
}

/// The body that carries a window.
pub open spec fn encode(window: Snapshot) -> WireStats {
    WireStats {
        date: window.date,
        guilds: window.guilds,
        users: window.users,
        interactions: window.interactions.map_values(
            |line: Tally<InteractionKey>| encode_interaction(line),
        ),
        locales: window.locales,
        guilds_locales: window.guilds_locales,
        guild_members: window.guild_members,
    }
}

/// Every interaction counter of the body names a known kind.
pub open spec fn decodable(body: WireStats) -> bool {
    forall|i: int|
        0 <= i < body.interactions.len() ==> InteractionType::named(
            (#[trigger] body.interactions[i]).kind,
        ) is Some
}

/// The window that a body carries; `None` where one of its interaction
/// counters names no known kind.
pub open spec fn decode(body: WireStats) -> Option<Snapshot> {
    if decodable(body) {
        Some(
            Snapshot {
                date: body.date,
                guilds: body.guilds,
                users: body.users,
                interactions: body.interactions.map_values(
                    |entry: WireInteraction| decode_interaction(entry),
                ),
                locales: body.locales,
                guilds_locales: body.guilds_locales,
                guild_members: body.guild_members,
            },
        )
    } else {
        None
    }
}

/// A body read back gives the window that it was made from: every counter
/// keeps its key and its count, and the classes of guilds their numbers.
pub proof fn lemma_round_trip(window: Snapshot)
    ensures
        decode(encode(window)) == Some(window),
        encode(window).guild_members.total() == window.guild_members.total(),
{
    let body = encode(window);
    assert forall|i: int| 0 <= i < body.interactions.len() implies InteractionType::named(
        (#[trigger] body.interactions[i]).kind,
    ) is Some && decode_interaction(body.interactions[i]) == window.interactions[i] by {
        window.interactions[i].key.1.lemma_name_round_trip();
    }
    assert(body.interactions.map_values(|entry: WireInteraction| decode_interaction(entry))
        =~= window.interactions);
}

/// A copy of a list of locale counters.
fn copy_locales(list: &Vec<LocaleData>) -> (copy: Vec<LocaleData>)
    ensures
        locale_tallies(copy@) == locale_tallies(list@),
{
    let mut copy: Vec<LocaleData> = Vec::new();
    let mut i: usize = 0;
    while i < list.len()
        invariant
            i <= list.len(),
            copy@.len() == i,
            forall|j: int| 0 <= j < i ==> (#[trigger] copy@[j])@ == list@[j]@,
        decreases list.len() - i,
    {
        copy.push(LocaleData { locale: list[i].locale.clone(), number: list[i].number });
        i += 1;
    }
    assert(locale_tallies(copy@) =~= locale_tallies(list@));
    copy
}

impl StatsPayload {
    /// The body that carries the window `data`.
    pub fn from_data(data: &Data) -> (payload: StatsPayload)
        ensures
            payload@ == encode(data@),
            decode(payload@) == Some(data@),
    {
        proof {
            lemma_round_trip(data@);
        }
        let mut interactions: Vec<InteractionEntry> = Vec::new();
        let mut i: usize = 0;
        while i < data.interactions.len()
            invariant
                i <= data.interactions.len(),
                interactions@.len() == i,
                forall|j: int|
                    0 <= j < i ==> (#[trigger] interactions@[j])@ == encode_interaction(
                        data.interactions@[j]@,
                    ),
            decreases data.interactions.len() - i,
        {
            interactions.push(
                InteractionEntry {
                    name: data.interactions[i].name.clone(),
                    number: data.interactions[i].number,
                    interaction_type: data.interactions[i].interaction_type.to_string(),
                },
            );
            i += 1;
        }
        let payload = StatsPayload {
            date: data.date.clone(),
            guilds: data.guilds,
            users: data.users,
            interactions,
            locales: copy_locales(&data.locales),
            guilds_locales: copy_locales(&data.guilds_locales),
            guild_members: data.guild_members,
        };
        assert(payload@.interactions =~= encode(data@).interactions);
        payload
    }

    /// The window that the body carries; `None` where one of its interaction
    /// counters names no known kind.
    pub fn to_data(&self) -> (data: Option<Data>)
        ensures
            match data {
                Some(data) => decode(self@) == Some(data@),
                None => decode(self@) is None,
            },
    {
        let mut interactions: Vec<InteractionData> = Vec::new();
        let mut i: usize = 0;
        while i < self.interactions.len()
            invariant
                i <= self.interactions.len(),
                interactions@.len() == i,
                forall|j: int|
                    0 <= j < i ==> InteractionType::named(
                        (#[trigger] self.interactions@[j])@.kind,
                    ) is Some,
                forall|j: int|
                    0 <= j < i ==> (#[trigger] interactions@[j])@ == decode_interaction(
                        self.interactions@[j]@,
                    ),
            decreases self.interactions.len() - i,
        {
            match InteractionType::from_name(self.interactions[i].interaction_type.as_str()) {
                Some(kind) => {
                    interactions.push(
                        InteractionData {
                            name: self.interactions[i].name.clone(),
                            number: self.interactions[i].number,
                            interaction_type: kind,
                        },
                    );
                },
                None => {
                    assert(self@.interactions[i as int] == self.interactions@[i as int]@);
                    return None;
                },
            }
            i += 1;
        }
        let data = Data {
            date: self.date.clone(),
            guilds: self.guilds,
            users: self.users,
            interactions,
            locales: copy_locales(&self.locales),
            guilds_locales: copy_locales(&self.guilds_locales),
            guild_members: self.guild_members,
        };
        proof {
            assert forall|j: int| 0 <= j < self@.interactions.len() implies InteractionType::named(
                (#[trigger] self@.interactions[j]).kind,
            ) is Some by {
                assert(self@.interactions[j] == self.interactions@[j]@);
            }
            assert(data@.interactions =~= decode(self@).unwrap().interactions);
        }
        Some(data)
    }
}

} // verus!
