//! What is derived from the list of guilds at the time of a report: the
//! guilds by class of size, and the guilds by preferred locale.

use crate::counters::count_locale;
use crate::data::{locale_tallies, GuildMembersData, LocaleData};
use crate::tally::{credit_each, lemma_credit_each_count, lemma_credit_each_keeps, Tally};
use vstd::prelude::*;

verus! {

/// The largest guild that still counts as little.
pub const LITTLE_MAX: u64 = 100;

/// The largest guild that still counts as medium.
pub const MEDIUM_MAX: u64 = 500;

/// The largest guild that still counts as big.
pub const BIG_MAX: u64 = 1500;

/// What a report reads of one guild.
#[derive(Clone, Debug, PartialEq, Eq)]
pub struct GuildInfo {
    pub member_count: u64,
    pub preferred_locale: String,
}

/// The member counts of a list of guilds, in order.
pub open spec fn member_counts(guilds: Seq<GuildInfo>) -> Seq<u64> {
    guilds.map_values(|guild: GuildInfo| guild.member_count)
}

/// The preferred locales of those guilds that name one, in order.
pub open spec fn named_locales(guilds: Seq<GuildInfo>) -> Seq<Seq<char>> {
    guilds.map_values(|guild: GuildInfo| guild.preferred_locale@).filter(
        |locale: Seq<char>| locale.len() > 0,
    )
}

/// How many of `counts` are at most `LITTLE_MAX`.
pub open spec fn little_guilds(counts: Seq<u64>) -> int {
    counts.filter(|n: u64| n <= LITTLE_MAX).len() as int
}

/// How many of `counts` are above `LITTLE_MAX` and at most `MEDIUM_MAX`.
pub open spec fn medium_guilds(counts: Seq<u64>) -> int {
    counts.filter(|n: u64| LITTLE_MAX < n <= MEDIUM_MAX).len() as int
}

/// How many of `counts` are above `MEDIUM_MAX` and at most `BIG_MAX`.
pub open spec fn big_guilds(counts: Seq<u64>) -> int {
    counts.filter(|n: u64| MEDIUM_MAX < n <= BIG_MAX).len() as int
}

/// How many of `counts` are above `BIG_MAX`.
pub open spec fn huge_guilds(counts: Seq<u64>) -> int {
    counts.filter(|n: u64| BIG_MAX < n).len() as int
}

impl GuildMembersData {
    /// Each class holds the number of `counts` that fall into it.
    pub open spec fn classifies(self, counts: Seq<u64>) -> bool {
        &&& self.little == little_guilds(counts)
        &&& self.medium == medium_guilds(counts)
        &&& self.big == big_guilds(counts)
        &&& self.huge == huge_guilds(counts)
    }
}

/// Every guild falls into exactly one class: the four classes together hold as
/// many guilds as there are.
pub proof fn lemma_classes_partition(counts: Seq<u64>)
    ensures
        little_guilds(counts) + medium_guilds(counts) + big_guilds(counts) + huge_guilds(counts)
            == counts.len(),
        little_guilds(counts) >= 0,
        medium_guilds(counts) >= 0,
        big_guilds(counts) >= 0,
        huge_guilds(counts) >= 0,
    decreases counts.len(),
{
    let little = |n: u64| n <= LITTLE_MAX;
    let medium = |n: u64| LITTLE_MAX < n <= MEDIUM_MAX;
    let big = |n: u64| MEDIUM_MAX < n <= BIG_MAX;
    let huge = |n: u64| BIG_MAX < n;
    if counts.len() == 0 {
        counts.lemma_filter_len(little);
        counts.lemma_filter_len(medium);
        counts.lemma_filter_len(big);
        counts.lemma_filter_len(huge);
    } else {
        let front = counts.drop_last();
        let last = counts.last();
        lemma_classes_partition(front);
        assert(front.push(last) =~= counts);
        front.lemma_filter_len_push(little, last);
        front.lemma_filter_len_push(medium, last);
        front.lemma_filter_len_push(big, last);
        front.lemma_filter_len_push(huge, last);
    }
}

/// The guilds of `guilds` by class of size: little up to `LITTLE_MAX` members,
/// medium up to `MEDIUM_MAX`, big up to `BIG_MAX`, huge above.
pub fn guild_members_repartition(guilds: &Vec<GuildInfo>) -> (buckets: GuildMembersData)
    requires
        guilds.len() <= i32::MAX,
    ensures
        buckets.classifies(member_counts(guilds@)),
        buckets.wf(),
        buckets.total() == guilds.len(),
{
    let mut little: i32 = 0;
    let mut medium: i32 = 0;
    let mut big: i32 = 0;
    let mut huge: i32 = 0;
    let ghost counts = member_counts(guilds@);
    let mut i: usize = 0;
    proof {
        lemma_classes_partition(counts.take(0));
    }
    while i < guilds.len()
        invariant
            i <= guilds.len() <= i32::MAX,
            counts == member_counts(guilds@),
            little == little_guilds(counts.take(i as int)),
            medium == medium_guilds(counts.take(i as int)),
            big == big_guilds(counts.take(i as int)),
            huge == huge_guilds(counts.take(i as int)),
        decreases guilds.len() - i,
    {
        let member_count: u64 = guilds[i].member_count;
        proof {
            let seen = counts.take(i as int);
            assert(seen.push(member_count) =~= counts.take(i + 1));
            seen.lemma_filter_len_push(|n: u64| n <= LITTLE_MAX, member_count);
            seen.lemma_filter_len_push(|n: u64| LITTLE_MAX < n <= MEDIUM_MAX, member_count);
            seen.lemma_filter_len_push(|n: u64| MEDIUM_MAX < n <= BIG_MAX, member_count);
            seen.lemma_filter_len_push(|n: u64| BIG_MAX < n, member_count);
            lemma_classes_partition(counts.take(i + 1));
        }
        if member_count <= LITTLE_MAX {
            little += 1;
        } else if member_count <= MEDIUM_MAX {
            medium += 1;
        } else if member_count <= BIG_MAX {
            big += 1;
        } else {
            huge += 1;
        }
        i += 1;
    }
    proof {
        assert(counts.take(i as int) =~= counts);
        lemma_classes_partition(counts);
    }
    GuildMembersData { little, medium, big, huge }
}

/// The guilds of `guilds` by preferred locale, in the order in which the
/// locales first occur. A guild that names no locale is not counted.
pub fn guild_locales(guilds: &Vec<GuildInfo>) -> (list: Vec<LocaleData>)
    requires
        guilds.len() <= i32::MAX,
    ensures
        locale_tallies(list@) == credit_each(
            Seq::<Tally<Seq<char>>>::empty(),
            named_locales(guilds@),
        ),
{
    let mut list: Vec<LocaleData> = Vec::new();
    let ghost none = Seq::<Tally<Seq<char>>>::empty();
    let ghost named = |locale: Seq<char>| locale.len() > 0;
    let ghost locales = guilds@.map_values(|guild: GuildInfo| guild.preferred_locale@);
    let mut i: usize = 0;
    proof {
        assert(locale_tallies(list@) =~= none);
        locales.take(0).lemma_filter_len(named);
        assert(locales.take(0).filter(named) =~= Seq::<Seq<char>>::empty());
    }
    while i < guilds.len()
        invariant
            i <= guilds.len() <= i32::MAX,
            none == Seq::<Tally<Seq<char>>>::empty(),
            named == |locale: Seq<char>| locale.len() > 0,
            locales == guilds@.map_values(|guild: GuildInfo| guild.preferred_locale@),
            locale_tallies(list@) == credit_each(none, locales.take(i as int).filter(named)),
        decreases guilds.len() - i,
    {
        let ghost seen = locales.take(i as int);
        let ghost locale = guilds@[i as int].preferred_locale@;
        proof {
            assert(seen.push(locale) =~= locales.take(i + 1));
            seen.lemma_filter_push(locale, named);
            seen.lemma_filter_len(named);
            lemma_credit_each_keeps(none, seen.filter(named));
            lemma_credit_each_count(none, seen.filter(named), locale);
            seen.filter(named).lemma_filter_len(|k: Seq<char>| k == locale);
        }
        if !guilds[i].preferred_locale.as_str().is_empty() {
            assert(seen.filter(named).push(locale).drop_last() =~= seen.filter(named));
            count_locale(&mut list, guilds[i].preferred_locale.clone(), 1);
        }
        i += 1;
    }
    proof {
        assert(locales.take(i as int) =~= locales);
    }
    list
}

} // verus!
