//! What holds of the counters over whole runs: over many events, over a
//! report that succeeds and over one that fails.

use crate::analytics::{reporting_goes_on_after, EngineState};
use crate::data::{
    lemma_record_raises_by_one, GuildMembersData, Ingest, InteractionKey, InteractionType,
    Snapshot,
};
use crate::payload::encode;
use crate::report::{outcome_of, STATUS_INVALID_TOKEN, STATUS_SUSPENDED};
use crate::tally::{
    credit_each, holds_once, index_of, lemma_count_of_line, lemma_credit_each_count,
    lemma_credit_each_keeps, lemma_credit_keeps, lemma_index_of, lemma_merge_count, occurrences,
    Tally,
};
use vstd::prelude::*;

verus! {

/// The interactions of a run of events, in order.
pub open spec fn interaction_keys(events: Seq<Ingest>) -> Seq<InteractionKey> {
    events.map_values(|event: Ingest| (event.name, event.kind))
}

/// The locales of a run of events, in order.
pub open spec fn locale_keys(events: Seq<Ingest>) -> Seq<Seq<char>> {
    events.map_values(|event: Ingest| event.locale)
}

/// A run of events changes the two counter lists and nothing else: each
/// list counts its keys of the run, in order.
pub proof fn lemma_record_all(start: Snapshot, events: Seq<Ingest>)
    ensures
        start.record_all(events) == (Snapshot {
            interactions: credit_each(start.interactions, interaction_keys(events)),
            locales: credit_each(start.locales, locale_keys(events)),
            ..start
        }),
        start.wf() ==> start.record_all(events).wf(),
    decreases events.len(),
{
    if events.len() > 0 {
        let front = events.drop_last();
        lemma_record_all(start, front);
        assert(interaction_keys(events).drop_last() =~= interaction_keys(front));
        assert(locale_keys(events).drop_last() =~= locale_keys(front));
    }
    if start.wf() {
        lemma_credit_each_keeps(start.interactions, interaction_keys(events));
        lemma_credit_each_keeps(start.locales, locale_keys(events));
    }
}

/// After a run of events each counter holds what it held before and the
/// number of events of the run that it counts: no counter ever falls, and no
/// event is counted for another key.
pub proof fn lemma_events_counted(
    start: Snapshot,
    events: Seq<Ingest>,
    name: Seq<char>,
    kind: InteractionType,
    locale: Seq<char>,
)
    ensures
        start.record_all(events).interaction_count(name, kind) == start.interaction_count(
            name,
            kind,
        ) + occurrences(interaction_keys(events), (name, kind)),
        start.record_all(events).locale_count(locale) == start.locale_count(locale) + occurrences(
            locale_keys(events),
            locale,
        ),
        occurrences(interaction_keys(events), (name, kind)) >= 0,
        occurrences(locale_keys(events), locale) >= 0,
{
    lemma_record_all(start, events);
    lemma_credit_each_count(start.interactions, interaction_keys(events), (name, kind));
    lemma_credit_each_count(start.locales, locale_keys(events), locale);
}

/// Where every key of `keys` is `key`, `key` occurs as often as there are
/// keys.
proof fn lemma_occurrences_of_only_key<K>(keys: Seq<K>, key: K)
    requires
        forall|i: int| 0 <= i < keys.len() ==> #[trigger] keys[i] == key,
    ensures
        occurrences(keys, key) == keys.len(),
    decreases keys.len(),
{
    let same = |k: K| k == key;
    if keys.len() == 0 {
        keys.lemma_filter_len(same);
    } else {
        let front = keys.drop_last();
        assert(keys.last() == keys[keys.len() - 1]);
        assert forall|i: int| 0 <= i < front.len() implies #[trigger] front[i] == key by {
            assert(front[i] == keys[i]);
        }
        lemma_occurrences_of_only_key(front, key);
        assert(front.push(keys.last()) =~= keys);
        front.lemma_filter_len_push(same, keys.last());
    }
}

/// Events with the same name and kind, however many and whatever their
/// locales, are counted in one line: after them exactly one line is for that
/// interaction, and it has grown by the number of the events. In a window
/// that had no such line, its count is the number of the events.
pub proof fn lemma_same_interaction_one_line(
    start: Snapshot,
    events: Seq<Ingest>,
    name: Seq<char>,
    kind: InteractionType,
)
    requires
        start.wf(),
        events.len() > 0,
        forall|i: int|
            0 <= i < events.len() ==> (#[trigger] events[i]).name == name && events[i].kind
                == kind,
    ensures
        start.record_all(events).wf(),
        holds_once(start.record_all(events).interactions, (name, kind)),
        start.record_all(events).interaction_count(name, kind) == start.interaction_count(
            name,
            kind,
        ) + events.len(),
        ({
            let lines = start.record_all(events).interactions;
            let line = lines[index_of(lines, (name, kind))];
            line.key == (name, kind) && line.count == start.interaction_count(name, kind)
                + events.len()
        }),
        start.interactions.len() == 0 ==> start.record_all(events).interaction_count(name, kind)
            == events.len(),
{
    let key = (name, kind);
    let keys = interaction_keys(events);
    lemma_record_all(start, events);
    lemma_credit_each_count(start.interactions, keys, key);
    lemma_occurrences_of_only_key(keys, key);
    let front = events.drop_last();
    lemma_record_all(start, front);
    assert(keys.drop_last() =~= interaction_keys(front));
    assert(keys.last() == key);
    lemma_credit_keeps(credit_each(start.interactions, interaction_keys(front)), key, 1);
    let lines = start.record_all(events).interactions;
    lemma_index_of(lines, key);
    lemma_count_of_line(lines, index_of(lines, key));
}

/// Events before and after a window is handed out each land in exactly one
/// window: the window handed out holds what was counted before it, the new
/// window what was counted after it, and nothing is counted in both.
pub proof fn lemma_events_land_once(
    start: Snapshot,
    before: Seq<Ingest>,
    after: Seq<Ingest>,
    date: Seq<char>,
    guilds: int,
    users: int,
    guild_members: GuildMembersData,
    name: Seq<char>,
    kind: InteractionType,
    locale: Seq<char>,
)
    ensures
        ({
            let handed = start.record_all(before);
            let next = Snapshot::fresh(date, guilds, users, guild_members).record_all(after);
            let interaction = (name, kind);
            &&& handed.interaction_count(name, kind) == start.interaction_count(name, kind)
                + occurrences(interaction_keys(before), interaction)
            &&& next.interaction_count(name, kind) == occurrences(
                interaction_keys(after),
                interaction,
            )
            &&& handed.locale_count(locale) == start.locale_count(locale) + occurrences(
                locale_keys(before),
                locale,
            )
            &&& next.locale_count(locale) == occurrences(locale_keys(after), locale)
            &&& handed.interaction_count(name, kind) + next.interaction_count(name, kind)
                == start.interaction_count(name, kind) + occurrences(
                interaction_keys(before + after),
                interaction,
            )
            &&& handed.locale_count(locale) + next.locale_count(locale) == start.locale_count(
                locale,
            ) + occurrences(locale_keys(before + after), locale)
        }),
{
    let fresh = Snapshot::fresh(date, guilds, users, guild_members);
    lemma_events_counted(start, before, name, kind, locale);
    lemma_events_counted(fresh, after, name, kind, locale);
    assert(interaction_keys(before + after) =~= interaction_keys(before) + interaction_keys(
        after,
    ));
    assert(locale_keys(before + after) =~= locale_keys(before) + locale_keys(after));
    Seq::filter_distributes_over_add(
        interaction_keys(before),
        interaction_keys(after),
        |k: InteractionKey| k == (name, kind),
    );
    Seq::filter_distributes_over_add(
        locale_keys(before),
        locale_keys(after),
        |k: Seq<char>| k == locale,
    );
}

/// After a report that the collector took, the report has carried exactly
/// the counters of the window, and the window that follows holds no counter
/// and carries the gauges and guild classes that the report was made with.
pub proof fn lemma_report_taken(
    engine: EngineState,
    date: Seq<char>,
    guilds: int,
    users: int,
    guilds_locales: Seq<Tally<Seq<char>>>,
    guild_members: GuildMembersData,
    response: Option<u16>,
)
    requires
        outcome_of(response) is Ok,
    ensures
        ({
            let sent = engine.window.report(date, guilds, users, guilds_locales, guild_members);
            let next = engine.after_send(date, guilds, users, guild_members).after_response(
                sent,
                response,
            );
            &&& sent.interactions == engine.window.interactions
            &&& sent.locales == engine.window.locales
            &&& next.window.interactions.len() == 0
            &&& next.window.locales.len() == 0
            &&& next.window.guilds == guilds
            &&& next.window.users == users
            &&& next.window.guild_members == guild_members
            &&& next.ready == engine.ready
        }),
{
}

/// After a report that failed the engine is as ready as it was and holds the
/// counters that it held before the report, line for line; the next report
/// carries them again, and so does its body. Unless the answer was one of the
/// two fatal statuses, reporting goes on.
pub proof fn lemma_report_failed(
    engine: EngineState,
    date: Seq<char>,
    guilds: int,
    users: int,
    guilds_locales: Seq<Tally<Seq<char>>>,
    guild_members: GuildMembersData,
    response: Option<u16>,
)
    requires
        outcome_of(response) is Err,
    ensures
        ({
            let sent = engine.window.report(date, guilds, users, guilds_locales, guild_members);
            let next = engine.after_send(date, guilds, users, guild_members).after_response(
                sent,
                response,
            );
            &&& next.window.interactions == engine.window.interactions
            &&& next.window.locales == engine.window.locales
            &&& next.window == sent
            &&& next.ready == engine.ready
            &&& forall|d: Seq<char>, g: int, u: int, l: Seq<Tally<Seq<char>>>, m: GuildMembersData|
                {
                    let again = #[trigger] next.window.report(d, g, u, l, m);
                    &&& again.interactions == sent.interactions
                    &&& again.locales == sent.locales
                    &&& encode(again).interactions == encode(sent).interactions
                    &&& encode(again).locales == encode(sent).locales
                }
            &&& (response != Some(STATUS_INVALID_TOKEN) && response != Some(STATUS_SUSPENDED))
                ==> reporting_goes_on_after(outcome_of(response))
        }),
{
}

/// An event after a report that failed is counted on top of what the window
/// held before the report: its two counters stand one above what they were
/// before the report, and every other counter is as it was.
pub proof fn lemma_event_after_failed_report(
    engine: EngineState,
    date: Seq<char>,
    guilds: int,
    users: int,
    guilds_locales: Seq<Tally<Seq<char>>>,
    guild_members: GuildMembersData,
    response: Option<u16>,
    event: Ingest,
)
    requires
        engine.window.wf(),
        outcome_of(response) is Err,
    ensures
        ({
            let sent = engine.window.report(date, guilds, users, guilds_locales, guild_members);
            let failed = engine.after_send(date, guilds, users, guild_members).after_response(
                sent,
                response,
            );
            failed.counted(event).window.raised_by_one(engine.window, event)
        }),
{
    let sent = engine.window.report(date, guilds, users, guilds_locales, guild_members);
    lemma_record_raises_by_one(sent, event);
}

/// No event is lost over a report that fails: whatever is counted while the
/// report is under way and after it has failed, each counter then holds what
/// it held before the report and the number of those events that it counts.
pub proof fn lemma_failed_report_loses_nothing(
    engine: EngineState,
    date: Seq<char>,
    guilds: int,
    users: int,
    guilds_locales: Seq<Tally<Seq<char>>>,
    guild_members: GuildMembersData,
    response: Option<u16>,
    meanwhile: Seq<Ingest>,
    later: Seq<Ingest>,
    name: Seq<char>,
    kind: InteractionType,
    locale: Seq<char>,
)
    requires
        outcome_of(response) is Err,
    ensures
        ({
            let sent = engine.window.report(date, guilds, users, guilds_locales, guild_members);
            let failed = engine.after_send(date, guilds, users, guild_members).counted_all(
                meanwhile,
            ).after_response(sent, response);
            let last = failed.counted_all(later);
            &&& failed.window.interaction_count(name, kind) == engine.window.interaction_count(
                name,
                kind,
            ) + occurrences(interaction_keys(meanwhile), (name, kind))
            &&& failed.window.locale_count(locale) == engine.window.locale_count(locale)
                + occurrences(locale_keys(meanwhile), locale)
            &&& last.window.interaction_count(name, kind) == engine.window.interaction_count(
                name,
                kind,
            ) + occurrences(interaction_keys(meanwhile), (name, kind)) + occurrences(
                interaction_keys(later),
                (name, kind),
            )
            &&& last.window.locale_count(locale) == engine.window.locale_count(locale)
                + occurrences(locale_keys(meanwhile), locale) + occurrences(
                locale_keys(later),
                locale,
            )
            &&& last.ready == engine.ready
        }),
{
    let sent = engine.window.report(date, guilds, users, guilds_locales, guild_members);
    let fresh = Snapshot::fresh(date, guilds, users, guild_members);
    let racing = fresh.record_all(meanwhile);
    let restored = racing.restore(sent);
    lemma_events_counted(fresh, meanwhile, name, kind, locale);
    lemma_merge_count(sent.interactions, racing.interactions, (name, kind));
    lemma_merge_count(sent.locales, racing.locales, locale);
    lemma_events_counted(restored, later, name, kind, locale);
}

} // verus!
