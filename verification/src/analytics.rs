//! The engine: it is made ready by a registration that the collector takes,
//! counts the events it is given, and hands out one window at each report.

use crate::data::{Data, GuildMembersData, Ingest, InteractionType, Snapshot};
use crate::guilds::{
    guild_locales, guild_members_repartition, member_counts, named_locales, GuildInfo,
};
use crate::payload::{
    decode, encode, registration_payload, text_of, BotIdentity, RegistrationPayload, StatsPayload,
    FRAMEWORK, VERSION,
};
use crate::report::{
    bot_url_of, classify_response, headers_of, outcome_of, registration_endpoint, stats_endpoint,
    stats_url_of, Endpoint, Header, Method, ReportError,
};
use crate::store::SnapshotStore;
use crate::tally::{credit_each, lemma_credit_each_keeps, Tally};
use vstd::prelude::*;

verus! {

/// The seconds between two reports where reports are frequent.
pub const FREQUENT_INTERVAL: u64 = 30;

/// The seconds between two reports otherwise.
pub const NORMAL_INTERVAL: u64 = 300;

/// What the engine reads of an event that the gateway delivers.
#[derive(Clone, Debug, PartialEq, Eq)]
pub enum InteractionEvent {
    Ping,
    Command { locale: String, name: String },
    Autocomplete { locale: String, name: String },
    Component { locale: String, custom_id: String },
    Modal { locale: String, custom_id: String },
}

impl InteractionEvent {
    /// What is counted for the event: a command or an autocompletion under
    /// its name, a component or a modal under its identifier, each with the
    /// user's locale; a ping under the empty name and the empty locale.
    pub open spec fn ingest(self) -> Ingest {
        match self {
            InteractionEvent::Ping => Ingest {
                name: Seq::empty(),
                kind: InteractionType::Ping,
                locale: Seq::empty(),
            },
            InteractionEvent::Command { locale, name } => Ingest {
                name: name@,
                kind: InteractionType::ApplicationCommand,
                locale: locale@,
            },
            InteractionEvent::Autocomplete { locale, name } => Ingest {
                name: name@,
                kind: InteractionType::ApplicationCommandAutocomplete,
                locale: locale@,
            },
            InteractionEvent::Component { locale, custom_id } => Ingest {
                name: custom_id@,
                kind: InteractionType::MessageComponent,
                locale: locale@,
            },
            InteractionEvent::Modal { locale, custom_id } => Ingest {
                name: custom_id@,
                kind: InteractionType::ModalSubmit,
                locale: locale@,
            },
        }
    }
}

/// The engine as a mathematical value.
pub struct EngineState {
    pub debug: bool,
    pub ready: bool,
    pub api_key: Seq<char>,
    pub window: Snapshot,
}

impl EngineState {
    /// The engine as it starts: not ready, with a window dated `date` that
    /// has counted nothing.
    pub open spec fn initial(api_key: Seq<char>, debug: bool, date: Seq<char>) -> EngineState {
        EngineState {
            debug,
            ready: false,
            api_key,
            window: Snapshot::fresh(date, 0, 0, GuildMembersData::no_guilds()),
        }
    }

    /// The engine after the collector answered a registration: ready if it
    /// was ready or the answer is a success.
    pub open spec fn registered(self, response: Option<u16>) -> EngineState {
        EngineState { ready: self.ready || outcome_of(response) is Ok, ..self }
    }

    /// The engine after one more event.
    pub open spec fn counted(self, event: Ingest) -> EngineState {
        EngineState { window: self.window.record(event), ..self }
    }

    /// The engine after the events of `events`, in order.
    pub open spec fn counted_all(self, events: Seq<Ingest>) -> EngineState {
        EngineState { window: self.window.record_all(events), ..self }
    }

    /// The engine after a window was handed out: the new window has counted
    /// nothing and carries the date, gauges and guild classes of the report.
    pub open spec fn after_send(
        self,
        date: Seq<char>,
        guilds: int,
        users: int,
        guild_members: GuildMembersData,
    ) -> EngineState {
        EngineState { window: Snapshot::fresh(date, guilds, users, guild_members), ..self }
    }

    /// The engine after the collector answered a report of `sent`: as it was
    /// if the answer is a success, else with `sent` put back.
    pub open spec fn after_response(self, sent: Snapshot, response: Option<u16>) -> EngineState {
        if outcome_of(response) is Ok {
            self
        } else {
            EngineState { window: self.window.restore(sent), ..self }
        }
    }
}

/// The seconds to wait between two reports.
pub fn flush_interval(frequent: bool) -> (seconds: u64)
    ensures
        seconds == if frequent {
            FREQUENT_INTERVAL
        } else {
            NORMAL_INTERVAL
        },
{
    if frequent {
        FREQUENT_INTERVAL
    } else {
        NORMAL_INTERVAL
    }
}

/// The seconds to wait before a registration is tried again after `failures`
/// failures in a row that were not fatal: the frequent interval at first,
/// twice as long after each further failure, and never more than the normal
/// interval.
pub open spec fn retry_delay_of(failures: nat) -> int
    decreases failures,
{
    if failures == 0 {
        FREQUENT_INTERVAL as int
    } else {
        let doubled = 2 * retry_delay_of((failures - 1) as nat);
        if doubled < NORMAL_INTERVAL {
            doubled
        } else {
            NORMAL_INTERVAL as int
        }
    }
}

/// Once the delay has reached the normal interval it stays there.
proof fn lemma_retry_delay_stays(from: nat, to: nat)
    requires
        from <= to,
        retry_delay_of(from) == NORMAL_INTERVAL,
    ensures
        retry_delay_of(to) == NORMAL_INTERVAL,
    decreases to,
{
    if from < to {
        lemma_retry_delay_stays(from, (to - 1) as nat);
    }
}

/// The seconds to wait before a registration is tried again after `failures`
/// failures in a row that were not fatal.
pub fn retry_delay(failures: u32) -> (seconds: u64)
    ensures
        seconds == retry_delay_of(failures as nat),
        FREQUENT_INTERVAL <= seconds <= NORMAL_INTERVAL,
{
    let mut seconds: u64 = FREQUENT_INTERVAL;
    let mut tried: u32 = 0;
    while tried < failures && seconds < NORMAL_INTERVAL
        invariant
            tried <= failures,
            seconds == retry_delay_of(tried as nat),
            FREQUENT_INTERVAL <= seconds <= NORMAL_INTERVAL,
        decreases failures - tried,
    {
        seconds = if 2 * seconds < NORMAL_INTERVAL {
            2 * seconds
        } else {
            NORMAL_INTERVAL
        };
        tried += 1;
    }
    proof {
        if tried < failures {
            lemma_retry_delay_stays(tried as nat, failures as nat);
        }
    }
    seconds
}

/// What is done after the collector answered a registration.
#[derive(Clone, Copy, Debug, PartialEq, Eq, Structural)]
pub enum RegistrationStep {
    /// The registration was taken: reporting can begin.
    Ready,
    /// The failure is fatal: no registration is tried again.
    GiveUp,
    /// The registration is tried again after so many seconds.
    RetryAfter(u64),
}

/// What is done after a registration that ended in `outcome`, where
/// `failures` registrations before it failed in a row: a success makes ready,
/// a fatal failure ends the attempts, and any other failure is tried again
/// after the delay for that number of failures.
pub open spec fn registration_step_of(
    outcome: Result<(), ReportError>,
    failures: u32,
) -> RegistrationStep {
    match outcome {
        Ok(_) => RegistrationStep::Ready,
        Err(error) => if error.fatal() {
            RegistrationStep::GiveUp
        } else {
            RegistrationStep::RetryAfter(retry_delay_of(failures as nat) as u64)
        },
    }
}

/// What is done after a registration that ended in `outcome`, where
/// `failures` registrations before it failed in a row.
pub fn registration_step(outcome: Result<(), ReportError>, failures: u32) -> (step:
    RegistrationStep)
    ensures
        step == registration_step_of(outcome, failures),
{
    match outcome {
        Ok(_) => RegistrationStep::Ready,
        Err(error) => {
            if error.is_fatal() {
                RegistrationStep::GiveUp
            } else {
                RegistrationStep::RetryAfter(retry_delay(failures))
            }
        },
    }
}

/// Whether reporting goes on after a report that ended in `outcome`: it
/// stops for good after a fatal failure, and only then.
pub open spec fn reporting_goes_on_after(outcome: Result<(), ReportError>) -> bool {
    match outcome {
        Ok(_) => true,
        Err(error) => !error.fatal(),
    }
}

/// Whether reporting goes on after a report that ended in `outcome`.
pub fn reporting_goes_on(outcome: Result<(), ReportError>) -> (on: bool)
    ensures
        on == reporting_goes_on_after(outcome),
{
    match outcome {
        Ok(_) => true,
        Err(error) => !error.is_fatal(),
    }
}

/// Today's date in UTC, written by `chrono` as year, month and day with
/// hyphens between them (`DateTime::from_timestamp` and `DateTime::format`),
/// for the seconds that the system clock counts since 1970. `None` where the
/// clock stands before 1970 or beyond the years that `chrono` can hold. The
/// text depends on the clock, so nothing is claimed of it.
#[verifier::external_body]
fn today() -> Option<String> {
    let elapsed = std::time::SystemTime::now().duration_since(std::time::UNIX_EPOCH).ok()?;
    let now = chrono::DateTime::<chrono::Utc>::from_timestamp(elapsed.as_secs() as i64, 0)?;
    Some(now.format("%Y-%m-%d").to_string())
}

/// The date that a window gets where none is given: today's, or the empty
/// text where the clock gives no date.
fn date_of_today() -> String {
    match today() {
        Some(date) => date,
        None => String::new(),
    }
}

/// The engine that counts a bot's events and reports them.
#[derive(Debug)]
pub struct DiscordAnalytics {
    debug: bool,
    is_ready: bool,
    api_key: String,
    store: SnapshotStore,
}

impl View for DiscordAnalytics {
    type V = EngineState;

    closed spec fn view(&self) -> EngineState {
        EngineState {
            debug: self.debug,
            ready: self.is_ready,
            api_key: self.api_key@,
            window: self.store@,
        }
    }
}

impl DiscordAnalytics {
    /// An engine for the key `api_key` whose first window is dated today; its
    /// date is empty where the clock gives none.
    pub fn new(api_key: String, debug: bool) -> (engine: DiscordAnalytics)
        ensures
            engine@ == EngineState::initial(api_key@, debug, engine@.window.date),
            engine@.window.wf(),
    {
        DiscordAnalytics::with_date(api_key, debug, date_of_today())
    }

    /// An engine for the key `api_key` whose first window is dated `date`.
    pub fn with_date(api_key: String, debug: bool, date: String) -> (engine: DiscordAnalytics)
        ensures
            engine@ == EngineState::initial(api_key@, debug, date@),
            engine@.window.wf(),
    {
        DiscordAnalytics { debug, is_ready: false, api_key, store: SnapshotStore::new(date) }
    }

    /// Whether the engine reports what it does.
    pub fn debug(&self) -> (debug: bool)
        ensures
            debug == self@.debug,
    {
        self.debug
    }

    /// Whether a registration was taken.
    pub fn is_ready(&self) -> (ready: bool)
        ensures
            ready == self@.ready,
    {
        self.is_ready
    }

    /// The window as it stands.
    pub fn data(&self) -> (data: &Data)
        ensures
            data@ == self@.window,
    {
        self.store.current()
    }

    /// The request that declares the bot to the collector.
    pub fn registration_request(&self, identity: &BotIdentity) -> (request: (
        Endpoint,
        RegistrationPayload,
    ))
        ensures
            request.0.method == Method::Patch,
            request.0.url@ == bot_url_of(identity.id),
            request.0.headers@.map_values(|header: Header| header@) == headers_of(self@.api_key),
            request.1.username@ == identity.username@,
            text_of(request.1.avatar) == text_of(identity.avatar),
            request.1.framework@ == FRAMEWORK@,
            request.1.version@ == VERSION@,
    {
        (
            registration_endpoint(self.api_key.as_str(), identity.id),
            registration_payload(identity),
        )
    }

    /// Takes the collector's answer to the registration: a success makes the
    /// engine ready, anything else leaves it as it was.
    pub fn initialize(&mut self, response: Option<u16>) -> (outcome: Result<(), ReportError>)
        ensures
            outcome == outcome_of(response),
            final(self)@ == old(self)@.registered(response),
    {
        let outcome = classify_response(response);
        if outcome.is_ok() {
            self.is_ready = true;
        }
        outcome
    }

    /// Whether the counters that `interaction` raises are below the largest
    /// count, so that the event can be counted.
    pub fn can_track(&self, interaction: &InteractionEvent) -> (ok: bool)
        requires
            self@.window.wf(),
        ensures
            ok == self@.window.can_record(interaction.ingest()),
    {
        match interaction {
            InteractionEvent::Ping => {
                let none = String::new();
                assert(none@ =~= Seq::<char>::empty());
                self.store.can_record(&none, InteractionType::Ping, &none)
            },
            InteractionEvent::Command { locale, name } => self.store.can_record(
                name,
                InteractionType::ApplicationCommand,
                locale,
            ),
            InteractionEvent::Autocomplete { locale, name } => self.store.can_record(
                name,
                InteractionType::ApplicationCommandAutocomplete,
                locale,
            ),
            InteractionEvent::Component { locale, custom_id } => self.store.can_record(
                custom_id,
                InteractionType::MessageComponent,
                locale,
            ),
            InteractionEvent::Modal { locale, custom_id } => self.store.can_record(
                custom_id,
                InteractionType::ModalSubmit,
                locale,
            ),
        }
    }

    /// Counts one event of the gateway: its interaction and the locale of its
    /// user, each once more.
    pub fn track_interactions(&mut self, interaction: InteractionEvent)
        requires
            old(self)@.ready,
            old(self)@.window.wf(),
            old(self)@.window.can_record(interaction.ingest()),
        ensures
            final(self)@ == old(self)@.counted(interaction.ingest()),
            final(self)@.window.wf(),
            final(self)@.window.raised_by_one(old(self)@.window, interaction.ingest()),
            final(self)@.ready,
    {
        match interaction {
            InteractionEvent::Ping => {
                let name = String::new();
                let locale = String::new();
                assert(name@ =~= Seq::<char>::empty());
                assert(locale@ =~= Seq::<char>::empty());
                self.store.record_interaction(name, InteractionType::Ping, locale);
            },
            InteractionEvent::Command { locale, name } => {
                self.store.record_interaction(name, InteractionType::ApplicationCommand, locale);
            },
            InteractionEvent::Autocomplete { locale, name } => {
                self.store.record_interaction(
                    name,
                    InteractionType::ApplicationCommandAutocomplete,
                    locale,
                );
            },
            InteractionEvent::Component { locale, custom_id } => {
                self.store.record_interaction(
                    custom_id,
                    InteractionType::MessageComponent,
                    locale,
                );
            },
            InteractionEvent::Modal { locale, custom_id } => {
                self.store.record_interaction(custom_id, InteractionType::ModalSubmit, locale);
            },
        }
    }

    /// The guilds of `guilds` by class of size. The engine stays as it is.
    pub fn calculate_guild_members_repartition(&mut self, guilds: &Vec<GuildInfo>) -> (buckets:
        GuildMembersData)
        requires
            guilds.len() <= i32::MAX,
        ensures
            *final(self) == *old(self),
            buckets.classifies(member_counts(guilds@)),
            buckets.wf(),
            buckets.total() == guilds.len(),
    {
        guild_members_repartition(guilds)
    }

    /// Hands out the window to report, dated today, and starts a new one: see
    /// `send_data_at`, which does the same for a date that is given.
    pub fn send_data(&mut self, guild_count: i32, user_count: i32, guilds: &Vec<GuildInfo>) -> (sent:
        Data)
        requires
            old(self)@.ready,
            old(self)@.window.wf(),
            guilds.len() <= i32::MAX,
        ensures
            sent@ == old(self)@.window.report(
                sent@.date,
                guild_count as int,
                user_count as int,
                credit_each(Seq::<Tally<Seq<char>>>::empty(), named_locales(guilds@)),
                sent@.guild_members,
            ),
            sent@.interactions == old(self)@.window.interactions,
            sent@.locales == old(self)@.window.locales,
            sent@.guild_members.classifies(member_counts(guilds@)),
            sent@.guild_members.total() == guilds.len(),
            sent.wf(),
            final(self)@.window.interactions.len() == 0,
            final(self)@.window.locales.len() == 0,
            final(self)@.window.guilds == guild_count,
            final(self)@.window.users == user_count,
            final(self)@.window.guild_members == sent@.guild_members,
            final(self)@.ready,
            final(self)@ == old(self)@.after_send(
                sent@.date,
                guild_count as int,
                user_count as int,
                sent@.guild_members,
            ),
            final(self)@.window.wf(),
    {
        self.send_data_at(date_of_today(), guild_count, user_count, guilds)
    }

    /// Hands out the window to report and starts a new one. The window handed
    /// out holds what was counted, with the date and the gauges given, the
    /// guilds by preferred locale and the guilds by class of size. The new
    /// window has counted nothing and carries the same date, gauges and
    /// classes.
    pub fn send_data_at(
        &mut self,
        date: String,
        guild_count: i32,
        user_count: i32,
        guilds: &Vec<GuildInfo>,
    ) -> (sent: Data)
        requires
            old(self)@.ready,
            old(self)@.window.wf(),
            guilds.len() <= i32::MAX,
        ensures
            sent@ == old(self)@.window.report(
                date@,
                guild_count as int,
                user_count as int,
                credit_each(Seq::<Tally<Seq<char>>>::empty(), named_locales(guilds@)),
                sent@.guild_members,
            ),
            sent@.interactions == old(self)@.window.interactions,
            sent@.locales == old(self)@.window.locales,
            sent@.guild_members.classifies(member_counts(guilds@)),
            sent@.guild_members.total() == guilds.len(),
            sent.wf(),
            final(self)@.window.interactions.len() == 0,
            final(self)@.window.locales.len() == 0,
            final(self)@.window.guilds == guild_count,
            final(self)@.window.users == user_count,
            final(self)@.window.guild_members == sent@.guild_members,
            final(self)@.ready,
            final(self)@ == old(self)@.after_send(
                date@,
                guild_count as int,
                user_count as int,
                sent@.guild_members,
            ),
            final(self)@.window.wf(),
    {
        let guild_members = self.calculate_guild_members_repartition(guilds);
        let guilds_locales = guild_locales(guilds);
        proof {
            lemma_credit_each_keeps(Seq::<Tally<Seq<char>>>::empty(), named_locales(guilds@));
        }
        self.store.set_gauges(guild_count, user_count);
        let mut sent = self.store.read_and_reset(
            date.clone(),
            guild_count,
            user_count,
            guild_members,
        );
        sent.date = date;
        sent.guilds_locales = guilds_locales;
        sent.guild_members = guild_members;
        sent
    }

    /// The request that carries the window `sent` of the bot `id`.
    pub fn stats_request(&self, id: u64, sent: &Data) -> (request: (Endpoint, StatsPayload))
        ensures
            request.0.method == Method::Post,
            request.0.url@ == stats_url_of(id),
            request.0.headers@.map_values(|header: Header| header@) == headers_of(self@.api_key),
            request.1@ == encode(sent@),
            decode(request.1@) == Some(sent@),
    {
        (stats_endpoint(self.api_key.as_str(), id), StatsPayload::from_data(sent))
    }

    /// Whether `sent` can be put back without a counter passing the largest
    /// count.
    pub fn can_restore(&self, sent: &Data) -> (ok: bool)
        requires
            self@.window.wf(),
            sent.wf(),
        ensures
            ok == self@.window.can_restore(sent@),
    {
        self.store.can_restore(sent)
    }

    /// Takes the collector's answer to the report of `sent`. After a success
    /// the engine stays as it is. After a failure `sent` is put back, with
    /// what was counted since, so that the next report carries it again.
    pub fn data_sent(&mut self, sent: Data, response: Option<u16>) -> (outcome: Result<
        (),
        ReportError,
    >)
        requires
            old(self)@.window.wf(),
            sent.wf(),
            outcome_of(response) is Err ==> old(self)@.window.can_restore(sent@),
        ensures
            outcome == outcome_of(response),
            final(self)@ == old(self)@.after_response(sent@, response),
            final(self)@.window.wf(),
            final(self)@.ready == old(self)@.ready,
            outcome is Ok ==> final(self)@ == old(self)@,
            outcome is Err ==> final(self)@.window == old(self)@.window.restore(sent@),
    {
        let outcome = classify_response(response);
        if outcome.is_err() {
            self.store.restore_if_failed(sent);
        }
        outcome
    }
}

} // verus!
