//! The records that make up one reporting window.

use crate::tally::{
    count_of, credit, holds_once, lemma_credit_count, lemma_credit_keeps, merge, merge_fits,
    positive, unique, Tally,
};
use vstd::prelude::*;

verus! {

/// The kinds of interaction that a bot receives.
#[derive(Clone, Copy, Debug, PartialEq, Eq, Structural)]
pub enum InteractionType {
    Ping,
    ApplicationCommand,
    MessageComponent,
    ApplicationCommandAutocomplete,
    ModalSubmit,
}

impl InteractionType {
    /// The name under which a kind is reported to the collector.
    pub open spec fn name(self) -> Seq<char> {
        match self {
            InteractionType::Ping => "Ping"@,
            InteractionType::ApplicationCommand => "ApplicationCommand"@,
            InteractionType::MessageComponent => "MessageComponent"@,
            InteractionType::ApplicationCommandAutocomplete => "ApplicationCommandAutocomplete"@,
            InteractionType::ModalSubmit => "ModalSubmit"@,
        }
    }

    /// The kind that is reported under `name`, if there is one.
    pub open spec fn named(name: Seq<char>) -> Option<InteractionType> {
        if name == InteractionType::Ping.name() {
            Some(InteractionType::Ping)
        } else if name == InteractionType::ApplicationCommand.name() {
            Some(InteractionType::ApplicationCommand)
        } else if name == InteractionType::MessageComponent.name() {
            Some(InteractionType::MessageComponent)
        } else if name == InteractionType::ApplicationCommandAutocomplete.name() {
            Some(InteractionType::ApplicationCommandAutocomplete)
        } else if name == InteractionType::ModalSubmit.name() {
            Some(InteractionType::ModalSubmit)
        } else {
            None
        }
    }

    /// No two kinds are reported under the same name: a kind's name leads
    /// back to the kind.
    pub proof fn lemma_name_round_trip(self)
        ensures
            InteractionType::named(self.name()) == Some(self),
    {
        reveal_strlit("Ping");
        reveal_strlit("ApplicationCommand");
        reveal_strlit("MessageComponent");
        reveal_strlit("ApplicationCommandAutocomplete");
        reveal_strlit("ModalSubmit");
        assert("Ping"@.len() == 4);
        assert("ApplicationCommand"@.len() == 18);
        assert("MessageComponent"@.len() == 16);
        assert("ApplicationCommandAutocomplete"@.len() == 30);
        assert("ModalSubmit"@.len() == 11);
    }

    /// The kind's name as an owned string.
    pub fn to_string(&self) -> (text: String)
        ensures
            text@ == self.name(),
    {
        match self {
            InteractionType::Ping => String::from_str("Ping"),
            InteractionType::ApplicationCommand => String::from_str("ApplicationCommand"),
            InteractionType::MessageComponent => String::from_str("MessageComponent"),
            InteractionType::ApplicationCommandAutocomplete => String::from_str(
                "ApplicationCommandAutocomplete",
            ),
            InteractionType::ModalSubmit => String::from_str("ModalSubmit"),
        }
    }

    /// The kind that is reported under `name`; `None` if `name` is the name of
    /// no kind.
    pub fn from_name(name: &str) -> (kind: Option<InteractionType>)
        ensures
            kind == InteractionType::named(name@),
    {
        let name = name.to_owned();
        if name == String::from_str("Ping") {
            Some(InteractionType::Ping)
        } else if name == String::from_str("ApplicationCommand") {
            Some(InteractionType::ApplicationCommand)
        } else if name == String::from_str("MessageComponent") {
            Some(InteractionType::MessageComponent)
        } else if name == String::from_str("ApplicationCommandAutocomplete") {
            Some(InteractionType::ApplicationCommandAutocomplete)
        } else if name == String::from_str("ModalSubmit") {
            Some(InteractionType::ModalSubmit)
        } else {
            None
        }
    }
}

/// What identifies an interaction counter: the interaction's name and kind.
pub type InteractionKey = (Seq<char>, InteractionType);

/// How often one interaction was received in the window.
#[derive(Clone, Debug, PartialEq, Eq)]
pub struct InteractionData {
    pub name: String,
    pub number: i32,
    pub interaction_type: InteractionType,
}

impl View for InteractionData {
    type V = Tally<InteractionKey>;

    open spec fn view(&self) -> Tally<InteractionKey> {
        Tally { key: (self.name@, self.interaction_type), count: self.number as int }
    }
}

/// How often one locale was seen in the window.
#[derive(Clone, Debug, PartialEq, Eq)]
pub struct LocaleData {
    pub locale: String,
    pub number: i32,
}

impl View for LocaleData {
    type V = Tally<Seq<char>>;

    open spec fn view(&self) -> Tally<Seq<char>> {
        Tally { key: self.locale@, count: self.number as int }
    }
}

/// How many guilds fall into each class of size.
#[derive(Clone, Copy, Debug, PartialEq, Eq, Structural)]
pub struct GuildMembersData {
    pub little: i32,
    pub medium: i32,
    pub big: i32,
    pub huge: i32,
}

impl GuildMembersData {
    /// No class holds a negative number of guilds.
    pub open spec fn wf(self) -> bool {
        self.little >= 0 && self.medium >= 0 && self.big >= 0 && self.huge >= 0
    }

    /// The number of guilds over all classes.
    pub open spec fn total(self) -> int {
        self.little + self.medium + self.big + self.huge
    }

    /// The classes of an empty guild list.
    pub open spec fn no_guilds() -> GuildMembersData {
        GuildMembersData { little: 0, medium: 0, big: 0, huge: 0 }
    }

    /// The classes of an empty guild list.
    #[verifier::when_used_as_spec(no_guilds)]
    pub fn empty() -> (buckets: GuildMembersData)
        ensures
            buckets == Self::no_guilds(),
    {
        GuildMembersData { little: 0, medium: 0, big: 0, huge: 0 }
    }
}

/// The counters of one reporting window.
#[derive(Clone, Debug, PartialEq, Eq)]
pub struct Data {
    pub date: String,
    pub guilds: i32,
    pub users: i32,
    pub interactions: Vec<InteractionData>,
    pub locales: Vec<LocaleData>,
    pub guilds_locales: Vec<LocaleData>,
    pub guild_members: GuildMembersData,
}

/// The tally that a list of interaction counters stands for.
pub open spec fn interaction_tallies(list: Seq<InteractionData>) -> Seq<Tally<InteractionKey>> {
    list.map_values(|line: InteractionData| line@)
}

/// The tally that a list of locale counters stands for.
pub open spec fn locale_tallies(list: Seq<LocaleData>) -> Seq<Tally<Seq<char>>> {
    list.map_values(|line: LocaleData| line@)
}

/// A reporting window as a mathematical value.
pub struct Snapshot {
    pub date: Seq<char>,
    pub guilds: int,
    pub users: int,
    pub interactions: Seq<Tally<InteractionKey>>,
    pub locales: Seq<Tally<Seq<char>>>,
    pub guilds_locales: Seq<Tally<Seq<char>>>,
    pub guild_members: GuildMembersData,
}

/// One event as the counters see it: an interaction's name and kind, and the
/// locale of the user who caused it.
pub struct Ingest {
    pub name: Seq<char>,
    pub kind: InteractionType,
    pub locale: Seq<char>,
}

impl Snapshot {
    /// The lists hold one line for each key, no line counts less than once, and
    /// no class of guilds is negative.
    pub open spec fn wf(self) -> bool {
        &&& unique(self.interactions)
        &&& positive(self.interactions)
        &&& unique(self.locales)
        &&& positive(self.locales)
        &&& unique(self.guilds_locales)
        &&& positive(self.guilds_locales)
        &&& self.guild_members.wf()
    }

    /// A window in which nothing was counted yet.
    pub open spec fn fresh(
        date: Seq<char>,
        guilds: int,
        users: int,
        guild_members: GuildMembersData,
    ) -> Snapshot {
        Snapshot {
            date,
            guilds,
            users,
            interactions: Seq::empty(),
            locales: Seq::empty(),
            guilds_locales: Seq::empty(),
            guild_members,
        }
    }

    /// How often the interaction `name` of kind `kind` was counted.
    pub open spec fn interaction_count(self, name: Seq<char>, kind: InteractionType) -> int {
        count_of(self.interactions, (name, kind))
    }

    /// How often `locale` was counted.
    pub open spec fn locale_count(self, locale: Seq<char>) -> int {
        count_of(self.locales, locale)
    }

    /// The window after one more event: its interaction and its locale are
    /// each counted once more.
    pub open spec fn record(self, event: Ingest) -> Snapshot {
        Snapshot {
            interactions: credit(self.interactions, (event.name, event.kind), 1),
            locales: credit(self.locales, event.locale, 1),
            ..self
        }
    }

    /// This window is `before` with the two counters of `event` raised by one
    /// and every other counter as it was: exactly one line is for the event's
    /// interaction and exactly one for its locale, each counts one more than
    /// `before` had counted for it, and what is counted for any other
    /// interaction or locale is what `before` had counted.
    pub open spec fn raised_by_one(self, before: Snapshot, event: Ingest) -> bool {
        &&& holds_once(self.interactions, (event.name, event.kind))
        &&& holds_once(self.locales, event.locale)
        &&& self.interaction_count(event.name, event.kind) == before.interaction_count(
            event.name,
            event.kind,
        ) + 1
        &&& self.locale_count(event.locale) == before.locale_count(event.locale) + 1
        &&& forall|name: Seq<char>, kind: InteractionType|
            (name, kind) != (event.name, event.kind) ==> #[trigger] self.interaction_count(
                name,
                kind,
            ) == before.interaction_count(name, kind)
        &&& forall|locale: Seq<char>|
            locale != event.locale ==> #[trigger] self.locale_count(locale)
                == before.locale_count(locale)
    }

    /// The window after the events of `events`, in order.
    pub open spec fn record_all(self, events: Seq<Ingest>) -> Snapshot
        decreases events.len(),
    {
        if events.len() == 0 {
            self
        } else {
            self.record_all(events.drop_last()).record(events.last())
        }
    }

    /// The window as it is reported: its counters, with the date, the gauges
    /// and what was derived from the guilds at the time of the report.
    pub open spec fn report(
        self,
        date: Seq<char>,
        guilds: int,
        users: int,
        guilds_locales: Seq<Tally<Seq<char>>>,
        guild_members: GuildMembersData,
    ) -> Snapshot {
        Snapshot {
            date,
            guilds,
            users,
            interactions: self.interactions,
            locales: self.locales,
            guilds_locales,
            guild_members,
        }
    }

    /// The window with other gauges.
    pub open spec fn with_gauges(self, guilds: int, users: int) -> Snapshot {
        Snapshot { guilds, users, ..self }
    }

    /// The window `unsent` put back in place of this one: what this window has
    /// counted meanwhile is counted into it.
    pub open spec fn restore(self, unsent: Snapshot) -> Snapshot {
        Snapshot {
            interactions: merge(unsent.interactions, self.interactions),
            locales: merge(unsent.locales, self.locales),
            ..unsent
        }
    }

    /// The counters that `event` raises are below the largest count.
    pub open spec fn can_record(self, event: Ingest) -> bool {
        &&& self.interaction_count(event.name, event.kind) < i32::MAX
        &&& self.locale_count(event.locale) < i32::MAX
    }

    /// Counting this window into `unsent` keeps every counter within the
    /// largest count.
    pub open spec fn can_restore(self, unsent: Snapshot) -> bool {
        &&& merge_fits(unsent.interactions, self.interactions, i32::MAX as int)
        &&& merge_fits(unsent.locales, self.locales, i32::MAX as int)
    }
}

/// One event raises its two counters by one, each in a single line, and
/// leaves every other counter as it was.
pub proof fn lemma_record_raises_by_one(before: Snapshot, event: Ingest)
    requires
        unique(before.interactions),
        unique(before.locales),
    ensures
        before.record(event).raised_by_one(before, event),
{
    let after = before.record(event);
    lemma_credit_keeps(before.interactions, (event.name, event.kind), 1);
    lemma_credit_keeps(before.locales, event.locale, 1);
    lemma_credit_count(before.interactions, (event.name, event.kind), 1, (event.name, event.kind));
    lemma_credit_count(before.locales, event.locale, 1, event.locale);
    assert forall|name: Seq<char>, kind: InteractionType|
        (name, kind) != (event.name, event.kind) implies #[trigger] after.interaction_count(
        name,
        kind,
    ) == before.interaction_count(name, kind) by {
        lemma_credit_count(before.interactions, (event.name, event.kind), 1, (name, kind));
    }
    assert forall|locale: Seq<char>| locale != event.locale implies #[trigger] after.locale_count(
        locale,
    ) == before.locale_count(locale) by {
        lemma_credit_count(before.locales, event.locale, 1, locale);
    }
}

impl View for Data {
    type V = Snapshot;

    open spec fn view(&self) -> Snapshot {
        Snapshot {
            date: self.date@,
            guilds: self.guilds as int,
            users: self.users as int,
            interactions: interaction_tallies(self.interactions@),
            locales: locale_tallies(self.locales@),
            guilds_locales: locale_tallies(self.guilds_locales@),
            guild_members: self.guild_members,
        }
    }
}

impl Data {
    /// The window is well formed: see `Snapshot::wf`.
    pub open spec fn wf(&self) -> bool {
        self@.wf()
    }

    /// A window in which nothing was counted yet.
    pub fn fresh(date: String, guilds: i32, users: i32, guild_members: GuildMembersData) -> (data:
        Data)
        ensures
            data@ == Snapshot::fresh(date@, guilds as int, users as int, guild_members),
    {
        let data = Data {
            date,
            guilds,
            users,
            interactions: Vec::new(),
            locales: Vec::new(),
            guilds_locales: Vec::new(),
            guild_members,
        };
        assert(data@.interactions =~= Seq::empty());
        assert(data@.locales =~= Seq::empty());
        assert(data@.guilds_locales =~= Seq::empty());
        data
    }
}

} // verus!
