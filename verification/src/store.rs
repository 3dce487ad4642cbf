//! The store that owns the counters of the current reporting window.

use crate::counters::{
    count_interaction, count_locale, interaction_count, interactions_fit, locale_count,
    locales_fit, merge_interactions, merge_locales,
};
use crate::data::{
    lemma_record_raises_by_one, Data, GuildMembersData, Ingest, InteractionType, Snapshot,
};
use crate::tally::{lemma_credit_keeps, lemma_merge_keeps};
use vstd::prelude::*;

verus! {

/// The counters of the window that is being filled.
#[derive(Debug)]
pub struct SnapshotStore {
    current: Data,
}

impl View for SnapshotStore {
    type V = Snapshot;

    closed spec fn view(&self) -> Snapshot {
        self.current@
    }
}

impl SnapshotStore {
    /// A store whose window is dated `date` and has counted nothing.
    pub fn new(date: String) -> (store: SnapshotStore)
        ensures
            store@ == Snapshot::fresh(date@, 0, 0, GuildMembersData::no_guilds()),
            store@.wf(),
    {
        SnapshotStore { current: Data::fresh(date, 0, 0, GuildMembersData::empty()) }
    }

    /// The window as it stands.
    pub fn current(&self) -> (data: &Data)
        ensures
            data@ == self@,
    {
        &self.current
    }

    /// Whether the counters that the event raises are below the largest count.
    pub fn can_record(&self, name: &String, kind: InteractionType, locale: &String) -> (ok: bool)
        requires
            self@.wf(),
        ensures
            ok == self@.can_record(Ingest { name: name@, kind, locale: locale@ }),
    {
        interaction_count(&self.current.interactions, name, kind) < i32::MAX && locale_count(
            &self.current.locales,
            locale,
        ) < i32::MAX
    }

    /// Counts one event: the interaction `name` of kind `kind` once more, and
    /// the locale once more.
    pub fn record_interaction(&mut self, name: String, kind: InteractionType, locale: String)
        requires
            old(self)@.wf(),
            old(self)@.can_record(Ingest { name: name@, kind, locale: locale@ }),
        ensures
            final(self)@ == old(self)@.record(Ingest { name: name@, kind, locale: locale@ }),
            final(self)@.wf(),
            final(self)@.raised_by_one(old(self)@, Ingest { name: name@, kind, locale: locale@ }),
    {
        proof {
            lemma_credit_keeps(self@.interactions, (name@, kind), 1);
            lemma_credit_keeps(self@.locales, locale@, 1);
            lemma_record_raises_by_one(self@, Ingest { name: name@, kind, locale: locale@ });
        }
        count_locale(&mut self.current.locales, locale, 1);
        count_interaction(&mut self.current.interactions, name, kind, 1);
    }

    /// Overwrites the two gauges.
    pub fn set_gauges(&mut self, guild_count: i32, user_count: i32)
        ensures
            final(self)@ == old(self)@.with_gauges(guild_count as int, user_count as int),
            old(self)@.wf() ==> final(self)@.wf(),
    {
        self.current.guilds = guild_count;
        self.current.users = user_count;
    }

    /// Hands out the window as it stands and starts a new one, which has
    /// counted nothing and carries the date, gauges and guild classes given.
    pub fn read_and_reset(
        &mut self,
        date: String,
        guild_count: i32,
        user_count: i32,
        guild_members: GuildMembersData,
    ) -> (snapshot: Data)
        ensures
            snapshot@ == old(self)@,
            final(self)@ == Snapshot::fresh(
                date@,
                guild_count as int,
                user_count as int,
                guild_members,
            ),
            guild_members.wf() ==> final(self)@.wf(),
    {
        let mut window = Data::fresh(date, guild_count, user_count, guild_members);
        std::mem::swap(&mut self.current, &mut window);
        window
    }

    /// Whether `snapshot` can be put back without a counter passing the
    /// largest count.
    pub fn can_restore(&self, snapshot: &Data) -> (ok: bool)
        requires
            self@.wf(),
            snapshot.wf(),
        ensures
            ok == self@.can_restore(snapshot@),
    {
        interactions_fit(&snapshot.interactions, &self.current.interactions) && locales_fit(
            &snapshot.locales,
            &self.current.locales,
        )
    }

    /// Puts a window that could not be reported back in place: what the store
    /// has counted since the window was handed out is counted into it.
    pub fn restore_if_failed(&mut self, snapshot: Data)
        requires
            old(self)@.wf(),
            snapshot.wf(),
            old(self)@.can_restore(snapshot@),
        ensures
            final(self)@ == old(self)@.restore(snapshot@),
            final(self)@.wf(),
    {
        proof {
            lemma_merge_keeps(snapshot@.interactions, self@.interactions);
            lemma_merge_keeps(snapshot@.locales, self@.locales);
        }
        let mut restored = snapshot;
        merge_interactions(&mut restored.interactions, &self.current.interactions);
        merge_locales(&mut restored.locales, &self.current.locales);
        self.current = restored;
    }
}

} // verus!
