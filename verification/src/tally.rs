//! Tallies: how often each key was counted, in the order in which the keys
//! were first seen. This is the mathematical model of the counter lists.

use vstd::prelude::*;

verus! {

/// One line of a tally: a key and the number of times it was counted.
pub struct Tally<K> {
    pub key: K,
    pub count: int,
}

/// The number of lines that stand before the first line for `key`; the length
/// of the tally if it has no line for `key`.
pub open spec fn index_of<K>(s: Seq<Tally<K>>, key: K) -> int
    decreases s.len(),
{
    if s.len() == 0 || s[0].key == key {
        0
    } else {
        1 + index_of(s.drop_first(), key)
    }
}

/// Some line of the tally is for `key`.
pub open spec fn has_key<K>(s: Seq<Tally<K>>, key: K) -> bool {
    index_of(s, key) < s.len()
}

/// What the tally has counted for `key`, over all of its lines.
pub open spec fn count_of<K>(s: Seq<Tally<K>>, key: K) -> int
    decreases s.len(),
{
    if s.len() == 0 {
        0
    } else {
        count_of(s.drop_last(), key) + if s.last().key == key {
            s.last().count
        } else {
            0
        }
    }
}

/// No two lines are for the same key.
pub open spec fn unique<K>(s: Seq<Tally<K>>) -> bool {
    forall|i: int, j: int| 0 <= i < j < s.len() ==> (#[trigger] s[i]).key != (#[trigger] s[j]).key
}

/// Every line has counted at least once.
pub open spec fn positive<K>(s: Seq<Tally<K>>) -> bool {
    forall|i: int| 0 <= i < s.len() ==> (#[trigger] s[i]).count >= 1
}

/// Exactly one line of the tally is for `key`.
pub open spec fn holds_once<K>(s: Seq<Tally<K>>, key: K) -> bool {
    exists|i: int|
        0 <= i < s.len() && (#[trigger] s[i]).key == key && forall|j: int|
            0 <= j < s.len() && (#[trigger] s[j]).key == key ==> j == i
}

/// The tally after `key` was counted `n` more times: its first line for `key`
/// grows by `n`, or, if there is none, a new line is added at the end.
pub open spec fn credit<K>(s: Seq<Tally<K>>, key: K, n: int) -> Seq<Tally<K>> {
    let i = index_of(s, key);
    if i < s.len() {
        s.update(i, Tally { key, count: s[i].count + n })
    } else {
        s.push(Tally { key, count: n })
    }
}

/// The tally after each key of `keys` was counted once, in order.
pub open spec fn credit_each<K>(s: Seq<Tally<K>>, keys: Seq<K>) -> Seq<Tally<K>>
    decreases keys.len(),
{
    if keys.len() == 0 {
        s
    } else {
        credit(credit_each(s, keys.drop_last()), keys.last(), 1)
    }
}

/// The tally `s` after every line of `t` was counted into it, in order.
pub open spec fn merge<K>(s: Seq<Tally<K>>, t: Seq<Tally<K>>) -> Seq<Tally<K>>
    decreases t.len(),
{
    if t.len() == 0 {
        s
    } else {
        credit(merge(s, t.drop_last()), t.last().key, t.last().count)
    }
}

/// Merging `t` into `s` keeps every count within `limit`.
pub open spec fn merge_fits<K>(s: Seq<Tally<K>>, t: Seq<Tally<K>>, limit: int) -> bool {
    forall|key: K| count_of(s, key) + #[trigger] count_of(t, key) <= limit
}

/// How often `key` occurs among `keys`.
pub open spec fn occurrences<K>(keys: Seq<K>, key: K) -> int {
    keys.filter(|k: K| k == key).len() as int
}

/// `index_of` is the place of the first line for the key.
pub proof fn lemma_index_of<K>(s: Seq<Tally<K>>, key: K)
    ensures
        0 <= index_of(s, key) <= s.len(),
        forall|j: int| 0 <= j < index_of(s, key) ==> (#[trigger] s[j]).key != key,
        index_of(s, key) < s.len() ==> s[index_of(s, key)].key == key,
    decreases s.len(),
{
    if s.len() == 0 || s[0].key == key {
    } else {
        let rest = s.drop_first();
        lemma_index_of(rest, key);
        assert forall|j: int| 0 <= j < index_of(s, key) implies (#[trigger] s[j]).key != key by {
            if j > 0 {
                assert(s[j] == rest[j - 1]);
            }
        }
        if index_of(s, key) < s.len() {
            assert(s[index_of(s, key)] == rest[index_of(rest, key)]);
        }
    }
}

/// A place with the key before which no line has the key is `index_of`; so is
/// the length, where no line has the key.
pub proof fn lemma_index_of_is<K>(s: Seq<Tally<K>>, key: K, i: int)
    requires
        0 <= i <= s.len(),
        forall|j: int| 0 <= j < i ==> (#[trigger] s[j]).key != key,
        i < s.len() ==> s[i].key == key,
    ensures
        index_of(s, key) == i,
{
    lemma_index_of(s, key);
    let k = index_of(s, key);
    if k < i {
        assert(s[k].key != key);
    } else if i < k {
        assert(s[i].key != key);
    }
}

/// A tally has a line for a key exactly if one of its lines holds it.
pub proof fn lemma_has_key<K>(s: Seq<Tally<K>>, key: K)
    ensures
        has_key(s, key) <==> exists|i: int| 0 <= i < s.len() && (#[trigger] s[i]).key == key,
{
    lemma_index_of(s, key);
    if has_key(s, key) {
        assert(s[index_of(s, key)].key == key);
    }
}

/// What a tally without a line for `key` has counted for it is nothing.
pub proof fn lemma_count_of_absent<K>(s: Seq<Tally<K>>, key: K)
    requires
        !has_key(s, key),
    ensures
        count_of(s, key) == 0,
    decreases s.len(),
{
    lemma_has_key(s, key);
    if s.len() > 0 {
        let front = s.drop_last();
        assert(s.last() == s[s.len() - 1]);
        assert forall|i: int| 0 <= i < front.len() implies (#[trigger] front[i]).key != key by {
            assert(front[i] == s[i]);
        }
        lemma_has_key(front, key);
        lemma_count_of_absent(front, key);
    }
}

/// What is counted for a key after one more line.
pub proof fn lemma_count_of_push<K>(s: Seq<Tally<K>>, line: Tally<K>, key: K)
    ensures
        count_of(s.push(line), key) == count_of(s, key) + if line.key == key {
            line.count
        } else {
            0
        },
{
    assert(s.push(line).drop_last() =~= s);
}

/// What is counted for a key after one line got another count.
pub proof fn lemma_count_of_update<K>(s: Seq<Tally<K>>, i: int, line: Tally<K>, key: K)
    requires
        0 <= i < s.len(),
        line.key == s[i].key,
    ensures
        count_of(s.update(i, line), key) == count_of(s, key) + if line.key == key {
            line.count - s[i].count
        } else {
            0
        },
    decreases s.len(),
{
    let after = s.update(i, line);
    if i == s.len() - 1 {
        assert(after.drop_last() =~= s.drop_last());
    } else {
        assert(after.drop_last() =~= s.drop_last().update(i, line));
        lemma_count_of_update(s.drop_last(), i, line, key);
    }
}

/// In a tally with one line for each key, what is counted for a line's key is
/// that line's count.
pub proof fn lemma_count_of_line<K>(s: Seq<Tally<K>>, i: int)
    requires
        unique(s),
        0 <= i < s.len(),
    ensures
        count_of(s, s[i].key) == s[i].count,
    decreases s.len(),
{
    let front = s.drop_last();
    let key = s[i].key;
    if i == s.len() - 1 {
        assert forall|j: int| 0 <= j < front.len() implies (#[trigger] front[j]).key != key by {
            assert(front[j] == s[j]);
        }
        lemma_has_key(front, key);
        lemma_count_of_absent(front, key);
    } else {
        assert(front[i] == s[i]);
        assert(s.last() == s[s.len() - 1]);
        assert forall|a: int, b: int| 0 <= a < b < front.len() implies (#[trigger] front[a]).key
            != (#[trigger] front[b]).key by {
            assert(front[a] == s[a] && front[b] == s[b]);
        }
        lemma_count_of_line(front, i);
    }
}

/// Where no line counts below one, the first lines of a tally count for a
/// key no more than the whole tally.
pub proof fn lemma_count_of_prefix<K>(s: Seq<Tally<K>>, n: int, key: K)
    requires
        positive(s),
        0 <= n <= s.len(),
    ensures
        0 <= count_of(s.take(n), key) <= count_of(s, key),
    decreases s.len() - n,
{
    if n == s.len() {
        assert(s.take(n) =~= s);
        lemma_count_of_nonnegative(s, key);
    } else {
        lemma_count_of_prefix(s, n + 1, key);
        assert(s.take(n + 1).drop_last() =~= s.take(n));
        assert(s.take(n + 1).last() == s[n]);
        lemma_count_of_nonnegative(s.take(n), key);
    }
}

/// Where no line counts below one, nothing is counted below zero.
pub proof fn lemma_count_of_nonnegative<K>(s: Seq<Tally<K>>, key: K)
    requires
        forall|i: int| 0 <= i < s.len() ==> (#[trigger] s[i]).count >= 0,
    ensures
        count_of(s, key) >= 0,
    decreases s.len(),
{
    if s.len() > 0 {
        let front = s.drop_last();
        assert(s.last() == s[s.len() - 1]);
        assert forall|i: int| 0 <= i < front.len() implies (#[trigger] front[i]).count >= 0 by {
            assert(front[i] == s[i]);
        }
        lemma_count_of_nonnegative(front, key);
    }
}

/// Where each line of `t` fits on top of what `s` holds for the line's key, so
/// does what `t` holds for any key, as far as `s` alone stays within the limit.
pub proof fn lemma_fits_after_scan<K>(s: Seq<Tally<K>>, t: Seq<Tally<K>>, key: K)
    requires
        unique(t),
        forall|j: int|
            0 <= j < t.len() ==> count_of(s, (#[trigger] t[j]).key) + t[j].count <= i32::MAX,
    ensures
        has_key(t, key) ==> count_of(s, key) + count_of(t, key) <= i32::MAX,
        !has_key(t, key) ==> count_of(t, key) == 0,
{
    lemma_index_of(t, key);
    let i = index_of(t, key);
    if i < t.len() {
        assert(t[i].key == key);
        lemma_count_of_line(t, i);
    } else {
        lemma_count_of_absent(t, key);
    }
}

/// Counting a key `n` times raises what is counted for it by `n` and leaves
/// every other key as it was.
pub proof fn lemma_credit_count<K>(s: Seq<Tally<K>>, key: K, n: int, other: K)
    ensures
        count_of(credit(s, key, n), other) == count_of(s, other) + if other == key {
            n
        } else {
            0
        },
{
    lemma_index_of(s, key);
    let i = index_of(s, key);
    if i < s.len() {
        lemma_count_of_update(s, i, Tally { key, count: s[i].count + n }, other);
    } else {
        lemma_count_of_push(s, Tally { key, count: n }, other);
    }
}

/// Counting a key keeps a tally well formed, and leaves exactly one line for
/// that key.
pub proof fn lemma_credit_keeps<K>(s: Seq<Tally<K>>, key: K, n: int)
    requires
        unique(s),
    ensures
        unique(credit(s, key, n)),
        holds_once(credit(s, key, n), key),
        has_key(credit(s, key, n), key),
        positive(s) && n >= 1 ==> positive(credit(s, key, n)),
        credit(s, key, n).len() == if has_key(s, key) {
            s.len()
        } else {
            s.len() + 1
        },
{
    lemma_index_of(s, key);
    let i = index_of(s, key);
    let after = credit(s, key, n);
    assert(0 <= i < after.len());
    assert(after[i].key == key);
    assert forall|a: int, b: int| 0 <= a < b < after.len() implies (#[trigger] after[a]).key != (
    #[trigger] after[b]).key by {
        if i < s.len() {
            assert(after[a].key == s[a].key && after[b].key == s[b].key);
        } else if b < s.len() {
            assert(after[a] == s[a] && after[b] == s[b]);
        } else {
            assert(after[a] == s[a]);
        }
    }
    assert forall|j: int| 0 <= j < after.len() && (#[trigger] after[j]).key == key implies j
        == i by {
        if j < i {
            assert(after[j].key != after[i].key);
        } else if i < j {
            assert(after[i].key != after[j].key);
        }
    }
    lemma_has_key(after, key);
    if positive(s) && n >= 1 {
        assert forall|j: int| 0 <= j < after.len() implies (#[trigger] after[j]).count >= 1 by {
            if j != i {
                assert(after[j] == s[j]);
            } else if i < s.len() {
                assert(s[i].count >= 1);
            }
        }
    }
}

/// After the keys of `keys` were counted, the tally holds for each key what
/// it held before and the number of times the key occurs among `keys`.
pub proof fn lemma_credit_each_count<K>(s: Seq<Tally<K>>, keys: Seq<K>, key: K)
    ensures
        count_of(credit_each(s, keys), key) == count_of(s, key) + occurrences(keys, key),
    decreases keys.len(),
{
    let pred = |k: K| k == key;
    if keys.len() == 0 {
        assert(keys.filter(pred).len() == 0) by {
            keys.lemma_filter_len(pred);
        }
    } else {
        let front = keys.drop_last();
        lemma_credit_each_count(s, front, key);
        lemma_credit_count(credit_each(s, front), keys.last(), 1, key);
        assert(front.push(keys.last()) =~= keys);
        front.lemma_filter_len_push(pred, keys.last());
    }
}

/// Counting keys keeps a tally well formed.
pub proof fn lemma_credit_each_keeps<K>(s: Seq<Tally<K>>, keys: Seq<K>)
    requires
        unique(s),
    ensures
        unique(credit_each(s, keys)),
        positive(s) ==> positive(credit_each(s, keys)),
    decreases keys.len(),
{
    if keys.len() > 0 {
        lemma_credit_each_keeps(s, keys.drop_last());
        lemma_credit_keeps(credit_each(s, keys.drop_last()), keys.last(), 1);
    }
}

/// A merged tally holds for each key the sum of what the two held.
pub proof fn lemma_merge_count<K>(s: Seq<Tally<K>>, t: Seq<Tally<K>>, key: K)
    ensures
        count_of(merge(s, t), key) == count_of(s, key) + count_of(t, key),
    decreases t.len(),
{
    if t.len() > 0 {
        lemma_merge_count(s, t.drop_last(), key);
        lemma_credit_count(merge(s, t.drop_last()), t.last().key, t.last().count, key);
    }
}

/// Merging keeps a tally well formed.
pub proof fn lemma_merge_keeps<K>(s: Seq<Tally<K>>, t: Seq<Tally<K>>)
    requires
        unique(s),
    ensures
        unique(merge(s, t)),
        positive(s) && positive(t) ==> positive(merge(s, t)),
    decreases t.len(),
{
    if t.len() > 0 {
        let front = t.drop_last();
        lemma_merge_keeps(s, front);
        lemma_credit_keeps(merge(s, front), t.last().key, t.last().count);
        if positive(s) && positive(t) {
            assert(t.last() == t[t.len() - 1]);
            assert forall|j: int| 0 <= j < front.len() implies (#[trigger] front[j]).count
                >= 1 by {
                assert(front[j] == t[j]);
            }
        }
    }
}

} // verus!
