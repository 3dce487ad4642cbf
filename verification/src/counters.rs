//! The counter lists in memory: finding a counter, raising it, adding one.

use crate::data::{
    interaction_tallies, locale_tallies, InteractionData, InteractionKey, InteractionType,
    LocaleData,
};
use crate::tally::{
    count_of, credit, has_key, index_of, lemma_count_of_absent, lemma_count_of_line,
    lemma_count_of_prefix, lemma_fits_after_scan, lemma_index_of, lemma_index_of_is,
    lemma_merge_count, lemma_merge_keeps, merge, merge_fits, positive, unique,
};
use vstd::prelude::*;

verus! {

/// Counts `locale` `n` more times in `list`.
pub fn count_locale(list: &mut Vec<LocaleData>, locale: String, n: i32)
    requires
        n >= 1,
        unique(locale_tallies(old(list)@)),
        count_of(locale_tallies(old(list)@), locale@) + n <= i32::MAX,
    ensures
        locale_tallies(final(list)@) == credit(locale_tallies(old(list)@), locale@, n as int),
{
    let ghost before = locale_tallies(list@);
    let mut i: usize = 0;
    while i < list.len()
        invariant
            n >= 1,
            i <= list.len(),
            list@ == old(list)@,
            before == locale_tallies(list@),
            unique(before),
            count_of(before, locale@) + n <= i32::MAX,
            forall|j: int| 0 <= j < i ==> (#[trigger] before[j]).key != locale@,
        decreases list.len() - i,
    {
        if list[i].locale == locale {
            proof {
                lemma_index_of_is(before, locale@, i as int);
                lemma_count_of_line(before, i as int);
            }
            let m: i32 = list[i].number;
            list[i].number = m + n;
            assert(locale_tallies(list@) =~= credit(before, locale@, n as int));
            return ;
        }
        i += 1;
    }
    proof {
        lemma_index_of_is(before, locale@, i as int);
    }
    list.push(LocaleData { locale, number: n });
    assert(locale_tallies(list@) =~= credit(before, locale@, n as int));
}

/// Counts the interaction `name` of kind `kind` `n` more times in `list`.
pub fn count_interaction(
    list: &mut Vec<InteractionData>,
    name: String,
    kind: InteractionType,
    n: i32,
)
    requires
        n >= 1,
        unique(interaction_tallies(old(list)@)),
        count_of(interaction_tallies(old(list)@), (name@, kind)) + n <= i32::MAX,
    ensures
        interaction_tallies(final(list)@) == credit(
            interaction_tallies(old(list)@),
            (name@, kind),
            n as int,
        ),
{
    let ghost before = interaction_tallies(list@);
    let ghost key = (name@, kind);
    let mut i: usize = 0;
    while i < list.len()
        invariant
            n >= 1,
            i <= list.len(),
            list@ == old(list)@,
            before == interaction_tallies(list@),
            key == (name@, kind),
            unique(before),
            count_of(before, key) + n <= i32::MAX,
            forall|j: int| 0 <= j < i ==> (#[trigger] before[j]).key != key,
        decreases list.len() - i,
    {
        if list[i].interaction_type == kind && list[i].name == name {
            proof {
                lemma_index_of_is(before, key, i as int);
                lemma_count_of_line(before, i as int);
            }
            let m: i32 = list[i].number;
            list[i].number = m + n;
            assert(interaction_tallies(list@) =~= credit(before, key, n as int));
            return ;
        }
        i += 1;
    }
    proof {
        lemma_index_of_is(before, key, i as int);
    }
    list.push(InteractionData { name, number: n, interaction_type: kind });
    assert(interaction_tallies(list@) =~= credit(before, key, n as int));
}

/// What `list` has counted for `locale`.
pub fn locale_count(list: &Vec<LocaleData>, locale: &String) -> (n: i32)
    requires
        unique(locale_tallies(list@)),
    ensures
        n == count_of(locale_tallies(list@), locale@),
        n != 0 ==> has_key(locale_tallies(list@), locale@),
{
    let ghost tallies = locale_tallies(list@);
    let mut i: usize = 0;
    while i < list.len()
        invariant
            i <= list.len(),
            tallies == locale_tallies(list@),
            unique(tallies),
            forall|j: int| 0 <= j < i ==> (#[trigger] tallies[j]).key != locale@,
        decreases list.len() - i,
    {
        if list[i].locale == *locale {
            proof {
                lemma_index_of_is(tallies, locale@, i as int);
                lemma_count_of_line(tallies, i as int);
            }
            return list[i].number;
        }
        i += 1;
    }
    proof {
        lemma_index_of_is(tallies, locale@, i as int);
        lemma_count_of_absent(tallies, locale@);
    }
    0
}

/// What `list` has counted for the interaction `name` of kind `kind`.
pub fn interaction_count(list: &Vec<InteractionData>, name: &String, kind: InteractionType) -> (n:
    i32)
    requires
        unique(interaction_tallies(list@)),
    ensures
        n == count_of(interaction_tallies(list@), (name@, kind)),
        n != 0 ==> has_key(interaction_tallies(list@), (name@, kind)),
{
    let ghost tallies = interaction_tallies(list@);
    let ghost key = (name@, kind);
    let mut i: usize = 0;
    while i < list.len()
        invariant
            i <= list.len(),
            tallies == interaction_tallies(list@),
            key == (name@, kind),
            unique(tallies),
            forall|j: int| 0 <= j < i ==> (#[trigger] tallies[j]).key != key,
        decreases list.len() - i,
    {
        if list[i].interaction_type == kind && list[i].name == *name {
            proof {
                lemma_index_of_is(tallies, key, i as int);
                lemma_count_of_line(tallies, i as int);
            }
            return list[i].number;
        }
        i += 1;
    }
    proof {
        lemma_index_of_is(tallies, key, i as int);
        lemma_count_of_absent(tallies, key);
    }
    0
}

/// Whether every line of `from` can be counted into `into` without a counter
/// passing the largest count.
pub fn locales_fit(into: &Vec<LocaleData>, from: &Vec<LocaleData>) -> (ok: bool)
    requires
        unique(locale_tallies(into@)),
        unique(locale_tallies(from@)),
    ensures
        ok == merge_fits(locale_tallies(into@), locale_tallies(from@), i32::MAX as int),
{
    let ghost held = locale_tallies(into@);
    let ghost added = locale_tallies(from@);
    let mut i: usize = 0;
    while i < from.len()
        invariant
            i <= from.len(),
            held == locale_tallies(into@),
            added == locale_tallies(from@),
            unique(held),
            unique(added),
            forall|j: int|
                0 <= j < i ==> count_of(held, (#[trigger] added[j]).key) + added[j].count
                    <= i32::MAX,
        decreases from.len() - i,
    {
        let n: i32 = locale_count(into, &from[i].locale);
        proof {
            assert(added[i as int] == from@[i as int]@);
            lemma_count_of_line(added, i as int);
        }
        if n as i64 + from[i].number as i64 > i32::MAX as i64 {
            return false;
        }
        i += 1;
    }
    proof {
        assert forall|key: Seq<char>| count_of(held, key) + #[trigger] count_of(added, key)
            <= i32::MAX by {
            lemma_fits_after_scan(held, added, key);
            lemma_locale_count_bounded(into@, key);
        }
    }
    true
}

/// Whether every line of `from` can be counted into `into` without a counter
/// passing the largest count.
pub fn interactions_fit(into: &Vec<InteractionData>, from: &Vec<InteractionData>) -> (ok: bool)
    requires
        unique(interaction_tallies(into@)),
        unique(interaction_tallies(from@)),
    ensures
        ok == merge_fits(
            interaction_tallies(into@),
            interaction_tallies(from@),
            i32::MAX as int,
        ),
{
    let ghost held = interaction_tallies(into@);
    let ghost added = interaction_tallies(from@);
    let mut i: usize = 0;
    while i < from.len()
        invariant
            i <= from.len(),
            held == interaction_tallies(into@),
            added == interaction_tallies(from@),
            unique(held),
            unique(added),
            forall|j: int|
                0 <= j < i ==> count_of(held, (#[trigger] added[j]).key) + added[j].count
                    <= i32::MAX,
        decreases from.len() - i,
    {
        let n: i32 = interaction_count(into, &from[i].name, from[i].interaction_type);
        proof {
            assert(added[i as int] == from@[i as int]@);
            lemma_count_of_line(added, i as int);
        }
        if n as i64 + from[i].number as i64 > i32::MAX as i64 {
            return false;
        }
        i += 1;
    }
    proof {
        assert forall|key: InteractionKey| count_of(held, key) + #[trigger] count_of(added, key)
            <= i32::MAX by {
            lemma_fits_after_scan(held, added, key);
            lemma_interaction_count_bounded(into@, key);
        }
    }
    true
}

/// What a list of locale counters has counted for a key fits the counters'
/// type.
proof fn lemma_locale_count_bounded(list: Seq<LocaleData>, key: Seq<char>)
    requires
        unique(locale_tallies(list)),
    ensures
        count_of(locale_tallies(list), key) <= i32::MAX,
{
    let tallies = locale_tallies(list);
    lemma_index_of(tallies, key);
    let i = index_of(tallies, key);
    if i < tallies.len() {
        assert(tallies[i] == list[i]@);
        lemma_count_of_line(tallies, i);
    } else {
        lemma_count_of_absent(tallies, key);
    }
}

/// What a list of interaction counters has counted for a key fits the
/// counters' type.
proof fn lemma_interaction_count_bounded(list: Seq<InteractionData>, key: InteractionKey)
    requires
        unique(interaction_tallies(list)),
    ensures
        count_of(interaction_tallies(list), key) <= i32::MAX,
{
    let tallies = interaction_tallies(list);
    lemma_index_of(tallies, key);
    let i = index_of(tallies, key);
    if i < tallies.len() {
        assert(tallies[i] == list[i]@);
        lemma_count_of_line(tallies, i);
    } else {
        lemma_count_of_absent(tallies, key);
    }
}

/// Counts every line of `from` into `into`.
pub fn merge_locales(into: &mut Vec<LocaleData>, from: &Vec<LocaleData>)
    requires
        unique(locale_tallies(old(into)@)),
        positive(locale_tallies(from@)),
        merge_fits(locale_tallies(old(into)@), locale_tallies(from@), i32::MAX as int),
    ensures
        locale_tallies(final(into)@) == merge(locale_tallies(old(into)@), locale_tallies(from@)),
{
    let ghost start = locale_tallies(into@);
    let ghost added = locale_tallies(from@);
    let mut i: usize = 0;
    assert(added.take(0) =~= Seq::empty());
    while i < from.len()
        invariant
            i <= from.len(),
            start == locale_tallies(old(into)@),
            added == locale_tallies(from@),
            unique(start),
            positive(added),
            merge_fits(start, added, i32::MAX as int),
            locale_tallies(into@) == merge(start, added.take(i as int)),
        decreases from.len() - i,
    {
        let ghost line = added[i as int];
        proof {
            assert(line == from@[i as int]@);
            assert(added.take(i + 1).drop_last() =~= added.take(i as int));
            assert(added.take(i + 1).last() == line);
            lemma_merge_keeps(start, added.take(i as int));
            lemma_merge_count(start, added.take(i as int), line.key);
            lemma_count_of_prefix(added, i + 1, line.key);
            assert(count_of(added, line.key) + count_of(start, line.key) <= i32::MAX);
        }
        count_locale(into, from[i].locale.clone(), from[i].number);
        i += 1;
    }
    assert(added.take(i as int) =~= added);
}

/// Counts every line of `from` into `into`.
pub fn merge_interactions(into: &mut Vec<InteractionData>, from: &Vec<InteractionData>)
    requires
        unique(interaction_tallies(old(into)@)),
        positive(interaction_tallies(from@)),
        merge_fits(
            interaction_tallies(old(into)@),
            interaction_tallies(from@),
            i32::MAX as int,
        ),
    ensures
        interaction_tallies(final(into)@) == merge(
            interaction_tallies(old(into)@),
            interaction_tallies(from@),
        ),
{
    let ghost start = interaction_tallies(into@);
    let ghost added = interaction_tallies(from@);
    let mut i: usize = 0;
    assert(added.take(0) =~= Seq::empty());
    while i < from.len()
        invariant
            i <= from.len(),
            start == interaction_tallies(old(into)@),
            added == interaction_tallies(from@),
            unique(start),
            positive(added),
            merge_fits(start, added, i32::MAX as int),
            interaction_tallies(into@) == merge(start, added.take(i as int)),
        decreases from.len() - i,
    {
        let ghost line = added[i as int];
        proof {
            assert(line == from@[i as int]@);
            assert(added.take(i + 1).drop_last() =~= added.take(i as int));
            assert(added.take(i + 1).last() == line);
            lemma_merge_keeps(start, added.take(i as int));
            lemma_merge_count(start, added.take(i as int), line.key);
            lemma_count_of_prefix(added, i + 1, line.key);
            assert(count_of(added, line.key) + count_of(start, line.key) <= i32::MAX);
        }
        count_interaction(into, from[i].name.clone(), from[i].interaction_type, from[i].number);
        i += 1;
    }
    assert(added.take(i as int) =~= added);
}

} // verus!
