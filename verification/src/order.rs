//! The draw order of the bars: the totals sorted by a key, in a direction.

use vstd::prelude::*;

use crate::aggregate::{
    lemma_sum_totals_concat, sum_totals, tallies_of, CategoryTotals, DrawObject, Tally,
};
use crate::text::{lemma_text_le_total, lemma_text_le_transitive, text_le, text_precedes};

verus! {

/// What the bars are sorted by.
#[derive(Clone, Copy, Debug, PartialEq, Eq, Structural)]
pub enum SortKey {
    ByCategoryName,
    ByTotal,
}

/// The direction flag of the sort.
///
/// The first pass of the sort puts the largest key first. `Ascending` keeps
/// that sequence as it is and `Descending` reverses it, so the flag names the
/// opposite of the order in which the keys end up.
#[derive(Clone, Copy, Debug, PartialEq, Eq, Structural)]
pub enum SortDirection {
    Descending,
    Ascending,
}

impl SortKey {
    /// The key that a host's numeric code selects: 0 is the category name,
    /// any other number the total.
    pub open spec fn of_code(code: u32) -> SortKey {
        if code == 0 {
            SortKey::ByCategoryName
        } else {
            SortKey::ByTotal
        }
    }

    /// Reads the key from a host's numeric code.
    pub fn from_code(code: u32) -> (key: SortKey)
        ensures
            key == SortKey::of_code(code),
    {
        if code == 0 {
            SortKey::ByCategoryName
        } else {
            SortKey::ByTotal
        }
    }
}

impl SortDirection {
    /// The direction that a host's numeric code selects: 0 is `Descending`,
    /// any other number `Ascending`.
    pub open spec fn of_code(code: u32) -> SortDirection {
        if code == 0 {
            SortDirection::Descending
        } else {
            SortDirection::Ascending
        }
    }

    /// Reads the direction from a host's numeric code.
    pub fn from_code(code: u32) -> (direction: SortDirection)
        ensures
            direction == SortDirection::of_code(code),
    {
        if code == 0 {
            SortDirection::Descending
        } else {
            SortDirection::Ascending
        }
    }
}

/// Whether the key of `x` is at most the key of `y`.
pub open spec fn key_le(x: Tally, y: Tally, key: SortKey) -> bool {
    match key {
        SortKey::ByCategoryName => text_le(x.category, y.category),
        SortKey::ByTotal => x.total <= y.total,
    }
}

/// Whether the keys of `s` never grow from one place to the next.
pub open spec fn descending(s: Seq<Tally>, key: SortKey) -> bool {
    forall|i: int, j: int| 0 <= i < j < s.len() ==> key_le(#[trigger] s[j], #[trigger] s[i], key)
}

/// Whether the keys of `s` never shrink from one place to the next.
pub open spec fn ascending(s: Seq<Tally>, key: SortKey) -> bool {
    forall|i: int, j: int| 0 <= i < j < s.len() ==> key_le(#[trigger] s[i], #[trigger] s[j], key)
}

/// The descending sequence `s` with `e` put behind every tally whose key is
/// at least that of `e`.
pub open spec fn insert_descending(s: Seq<Tally>, e: Tally, key: SortKey) -> Seq<Tally>
    decreases s.len(),
{
    if s.len() == 0 {
        seq![e]
    } else if key_le(e, s.last(), key) {
        s.push(e)
    } else {
        insert_descending(s.drop_last(), e, key).push(s.last())
    }
}

/// The tallies of `s` with the largest key first. Tallies with equal keys
/// keep the order that they have in `s`.
pub open spec fn sort_descending(s: Seq<Tally>, key: SortKey) -> Seq<Tally>
    decreases s.len(),
{
    if s.len() == 0 {
        Seq::empty()
    } else {
        insert_descending(sort_descending(s.drop_last(), key), s.last(), key)
    }
}

/// The draw order: the tallies sorted with the largest key first, and that
/// sequence reversed when the direction flag is `Descending`.
pub open spec fn draw_order(s: Seq<Tally>, key: SortKey, direction: SortDirection) -> Seq<Tally> {
    match direction {
        SortDirection::Descending => sort_descending(s, key).reverse(),
        SortDirection::Ascending => sort_descending(s, key),
    }
}

/// Of two tallies, the key of one is at most the key of the other.
pub proof fn lemma_key_le_total(x: Tally, y: Tally, key: SortKey)
    ensures
        key_le(x, y, key) || key_le(y, x, key),
{
    lemma_text_le_total(x.category, y.category);
}

/// The order of the keys is transitive.
pub proof fn lemma_key_le_transitive(x: Tally, y: Tally, z: Tally, key: SortKey)
    requires
        key_le(x, y, key),
        key_le(y, z, key),
    ensures
        key_le(x, z, key),
{
    if key == SortKey::ByCategoryName {
        lemma_text_le_transitive(x.category, y.category, z.category);
    }
}

/// Putting `e` at place `p` is what `insert_descending` does, when every
/// tally from `p` on has a smaller key than `e` and the one before `p`, if
/// there is one, has not.
pub proof fn lemma_insert_at(s: Seq<Tally>, e: Tally, key: SortKey, p: int)
    requires
        0 <= p <= s.len(),
        forall|k: int| p <= k < s.len() ==> !key_le(e, #[trigger] s[k], key),
        p > 0 ==> key_le(e, s[p - 1], key),
    ensures
        insert_descending(s, e, key) == s.insert(p, e),
    decreases s.len() - p,
{
    if p == s.len() {
        if s.len() == 0 {
            assert(s.insert(p, e) =~= seq![e]);
        } else {
            assert(s.insert(p, e) =~= s.push(e));
        }
    } else {
        assert(!key_le(e, s[s.len() - 1], key));
        let head = s.drop_last();
        assert forall|k: int| p <= k < head.len() implies !key_le(e, #[trigger] head[k], key) by {
            assert(head[k] == s[k]);
        }
        lemma_insert_at(head, e, key, p);
        assert(head.insert(p, e).push(s.last()) =~= s.insert(p, e));
    }
}

/// Inserting a tally adds it, and nothing else, to what the sequence holds.
pub proof fn lemma_insert_permutes(s: Seq<Tally>, e: Tally, key: SortKey)
    ensures
        insert_descending(s, e, key).to_multiset() == s.to_multiset().insert(e),
        insert_descending(s, e, key).len() == s.len() + 1,
        sum_totals(insert_descending(s, e, key)) == sum_totals(s) + e.total,
    decreases s.len(),
{
    broadcast use vstd::seq_lib::group_to_multiset_ensures;

    if s.len() == 0 {
        assert(seq![e] =~= Seq::<Tally>::empty().push(e));
        assert(s =~= Seq::<Tally>::empty());
        assert(seq![e].drop_last() =~= s);
    } else if key_le(e, s.last(), key) {
        assert(s.push(e).drop_last() =~= s);
    } else {
        let head = s.drop_last();
        lemma_insert_permutes(head, e, key);
        let r = insert_descending(head, e, key);
        assert(s =~= head.push(s.last()));
        assert(r.push(s.last()).drop_last() =~= r);
        assert(head.to_multiset().insert(e).insert(s.last()) =~= head.to_multiset().insert(
            s.last(),
        ).insert(e));
    }
}

/// Inserting a tally into a descending sequence leaves it descending.
pub proof fn lemma_insert_descending(s: Seq<Tally>, e: Tally, key: SortKey)
    requires
        descending(s, key),
    ensures
        descending(insert_descending(s, e, key), key),
    decreases s.len(),
{
    let r = insert_descending(s, e, key);
    if s.len() == 0 {
    } else if key_le(e, s.last(), key) {
        assert forall|i: int, j: int| 0 <= i < j < r.len() implies key_le(
            #[trigger] r[j],
            #[trigger] r[i],
            key,
        ) by {
            if j == s.len() {
                if i < s.len() - 1 {
                    assert(key_le(s[s.len() - 1], s[i], key));
                    lemma_key_le_transitive(e, s.last(), s[i], key);
                }
            } else {
                assert(key_le(s[j], s[i], key));
            }
        }
    } else {
        let head = s.drop_last();
        let last = s.last();
        assert forall|i: int, j: int| 0 <= i < j < head.len() implies key_le(
            #[trigger] head[j],
            #[trigger] head[i],
            key,
        ) by {
            assert(key_le(s[j], s[i], key));
        }
        lemma_insert_descending(head, e, key);
        lemma_insert_permutes(head, e, key);
        let inner = insert_descending(head, e, key);
        lemma_key_le_total(e, last, key);
        assert forall|i: int| 0 <= i < inner.len() implies key_le(
            last,
            #[trigger] inner[i],
            key,
        ) by {
            broadcast use vstd::seq_lib::group_to_multiset_ensures;

            assert(inner.to_multiset().contains(inner[i]));
            if inner[i] != e {
                assert(head.to_multiset().contains(inner[i]));
                let k = choose|k: int| 0 <= k < head.len() && head[k] == inner[i];
                assert(key_le(s[s.len() - 1], s[k], key));
            }
        }
        assert forall|i: int, j: int| 0 <= i < j < r.len() implies key_le(
            #[trigger] r[j],
            #[trigger] r[i],
            key,
        ) by {
            if j == inner.len() {
                assert(key_le(last, inner[i], key));
            } else {
                assert(key_le(inner[j], inner[i], key));
            }
        }
    }
}

/// The first pass of the sort only rearranges: it holds what its input
/// holds, as often, and so has the same length and the same sum of totals.
pub proof fn lemma_sort_permutes(s: Seq<Tally>, key: SortKey)
    ensures
        sort_descending(s, key).to_multiset() == s.to_multiset(),
        sort_descending(s, key).len() == s.len(),
        sum_totals(sort_descending(s, key)) == sum_totals(s),
    decreases s.len(),
{
    broadcast use vstd::seq_lib::group_to_multiset_ensures;

    if s.len() > 0 {
        lemma_sort_permutes(s.drop_last(), key);
        lemma_insert_permutes(sort_descending(s.drop_last(), key), s.last(), key);
        assert(s =~= s.drop_last().push(s.last()));
    } else {
        assert(s =~= Seq::<Tally>::empty());
    }
}

/// The first pass of the sort puts the largest key first.
pub proof fn lemma_sort_descending(s: Seq<Tally>, key: SortKey)
    ensures
        descending(sort_descending(s, key), key),
    decreases s.len(),
{
    if s.len() > 0 {
        lemma_sort_descending(s.drop_last(), key);
        lemma_insert_descending(sort_descending(s.drop_last(), key), s.last(), key);
    }
}

/// Whether two tallies have the same key.
pub open spec fn same_key(x: Tally, y: Tally, key: SortKey) -> bool {
    key_le(x, y, key) && key_le(y, x, key)
}

/// The tallies of `s` that have the key of `x`, in the order of `s`.
pub open spec fn with_key(s: Seq<Tally>, x: Tally, key: SortKey) -> Seq<Tally>
    decreases s.len(),
{
    if s.len() == 0 {
        Seq::empty()
    } else if same_key(s.last(), x, key) {
        with_key(s.drop_last(), x, key).push(s.last())
    } else {
        with_key(s.drop_last(), x, key)
    }
}

/// An inserted tally comes behind the tallies that have its key, and no
/// tally changes its place among those that have its own.
pub proof fn lemma_insert_stable(s: Seq<Tally>, e: Tally, key: SortKey, x: Tally)
    ensures
        with_key(insert_descending(s, e, key), x, key) == if same_key(e, x, key) {
            with_key(s, x, key).push(e)
        } else {
            with_key(s, x, key)
        },
    decreases s.len(),
{
    if s.len() == 0 {
        assert(seq![e].drop_last() =~= s);
        assert(seq![e].last() == e);
    } else if key_le(e, s.last(), key) {
        assert(s.push(e).drop_last() =~= s);
    } else {
        let head = s.drop_last();
        let last = s.last();
        lemma_insert_stable(head, e, key, x);
        let inner = insert_descending(head, e, key);
        assert(inner.push(last).drop_last() =~= inner);
        if same_key(e, x, key) && same_key(last, x, key) {
            lemma_key_le_transitive(e, x, last, key);
        }
    }
}

/// The sort is stable: the tallies that share a key stand in the first pass
/// in the order in which they stood before it.
pub proof fn lemma_sort_stable(s: Seq<Tally>, key: SortKey, x: Tally)
    ensures
        with_key(sort_descending(s, key), x, key) == with_key(s, x, key),
    decreases s.len(),
{
    if s.len() > 0 {
        lemma_sort_stable(s.drop_last(), key, x);
        lemma_insert_stable(sort_descending(s.drop_last(), key), s.last(), key, x);
    }
}

/// Reversing a sequence only rearranges it.
pub proof fn lemma_reverse_permutes(s: Seq<Tally>)
    ensures
        s.reverse().to_multiset() == s.to_multiset(),
        sum_totals(s.reverse()) == sum_totals(s),
    decreases s.len(),
{
    broadcast use vstd::seq_lib::group_to_multiset_ensures;

    if s.len() == 0 {
        assert(s.reverse() =~= s);
    } else {
        let head = s.drop_last();
        let last = s.last();
        lemma_reverse_permutes(head);
        assert(s =~= head.push(last));
        assert(s.reverse() =~= seq![last] + head.reverse());
        vstd::seq_lib::lemma_multiset_commutative(seq![last], head.reverse());
        assert(seq![last] =~= Seq::<Tally>::empty().push(last));
        assert(seq![last].to_multiset() =~= Seq::<Tally>::empty().to_multiset().insert(last));
        assert(s.reverse().to_multiset() =~= s.to_multiset());
        lemma_sum_totals_concat(seq![last], head.reverse());
        assert(seq![last].drop_last() =~= Seq::<Tally>::empty());
        assert(sum_totals(Seq::<Tally>::empty()) == 0);
        assert(seq![last].last() == last);
        assert(sum_totals(seq![last]) == last.total);
    }
}

/// The draw order only rearranges the totals: it holds what they hold, as
/// often, and so has their length and their sum. With the direction flag
/// `Ascending` the largest key comes first, with `Descending` the smallest.
pub proof fn lemma_draw_order(s: Seq<Tally>, key: SortKey, direction: SortDirection)
    ensures
        draw_order(s, key, direction).to_multiset() == s.to_multiset(),
        draw_order(s, key, direction).len() == s.len(),
        sum_totals(draw_order(s, key, direction)) == sum_totals(s),
        direction == SortDirection::Ascending ==> descending(draw_order(s, key, direction), key),
        direction == SortDirection::Descending ==> ascending(draw_order(s, key, direction), key),
{
    lemma_sort_permutes(s, key);
    lemma_sort_descending(s, key);
    let first_pass = sort_descending(s, key);
    lemma_reverse_permutes(first_pass);
    if direction == SortDirection::Descending {
        let r = first_pass.reverse();
        assert forall|i: int, j: int| 0 <= i < j < r.len() implies key_le(
            #[trigger] r[i],
            #[trigger] r[j],
            key,
        ) by {
            assert(key_le(first_pass[r.len() - 1 - i], first_pass[r.len() - 1 - j], key));
        }
    }
}

/// Every tally of the draw order is one of the totals.
pub proof fn lemma_draw_order_members(s: Seq<Tally>, key: SortKey, direction: SortDirection, k: int)
    requires
        0 <= k < draw_order(s, key, direction).len(),
    ensures
        s.contains(draw_order(s, key, direction)[k]),
{
    broadcast use vstd::seq_lib::group_to_multiset_ensures;

    lemma_draw_order(s, key, direction);
    let d = draw_order(s, key, direction);
    assert(d.contains(d[k]));
    assert(d.to_multiset().count(d[k]) > 0);
}

/// Decides whether the key of `x` is at most the key of `y`.
pub fn key_precedes(x: &DrawObject, y: &DrawObject, key: SortKey) -> (le: bool)
    ensures
        le == key_le(x@, y@, key),
{
    match key {
        SortKey::ByCategoryName => text_precedes(x.name.as_str(), y.name.as_str()),
        SortKey::ByTotal => x.num <= y.num,
    }
}

/// Puts the totals into draw order.
///
/// The first pass sorts them with the largest key first, leaving totals with
/// equal keys in the order in which their categories first occurred. The
/// direction flag `Descending` then reverses that sequence, and `Ascending`
/// leaves it as it is.
pub fn order(totals: &CategoryTotals, key: SortKey, direction: SortDirection) -> (bars: Vec<
    DrawObject,
>)
    ensures
        tallies_of(bars@) == draw_order(totals@, key, direction),
        bars@.len() == totals@.len(),
        tallies_of(bars@).to_multiset() == totals@.to_multiset(),
        sum_totals(tallies_of(bars@)) == sum_totals(totals@),
        direction == SortDirection::Ascending ==> descending(tallies_of(bars@), key),
        direction == SortDirection::Descending ==> ascending(tallies_of(bars@), key),
{
    proof {
        lemma_draw_order(totals@, key, direction);
    }
    let entries = totals.entries();
    let mut sorted: Vec<DrawObject> = Vec::new();
    let mut i: usize = 0;
    proof {
        assert(totals@.take(0) =~= Seq::<Tally>::empty());
        assert(tallies_of(sorted@) =~= Seq::<Tally>::empty());
    }
    while i < entries.len()
        invariant
            i <= entries.len(),
            tallies_of(entries@) == totals@,
            tallies_of(sorted@) == sort_descending(totals@.take(i as int), key),
        decreases entries.len() - i,
    {
        let entry = entries[i].clone();
        let ghost before = tallies_of(sorted@);
        let mut p: usize = sorted.len();
        while p > 0 && !key_precedes(&entry, &sorted[p - 1], key)
            invariant
                p <= sorted.len(),
                before == tallies_of(sorted@),
                forall|k: int| p <= k < before.len() ==> !key_le(entry@, #[trigger] before[k], key),
            decreases p,
        {
            p -= 1;
        }
        proof {
            assert(p > 0 ==> key_le(entry@, before[p - 1], key));
            lemma_insert_at(before, entry@, key, p as int);
            assert(totals@.take(i + 1).drop_last() =~= totals@.take(i as int));
            assert(totals@.take(i + 1).last() == entry@);
        }
        sorted.insert(p, entry);
        assert(tallies_of(sorted@) =~= before.insert(p as int, entry@));
        i += 1;
    }
    assert(totals@.take(i as int) =~= totals@);
    match direction {
        SortDirection::Ascending => sorted,
        SortDirection::Descending => {
            let ghost first_pass = tallies_of(sorted@);
            let mut reversed: Vec<DrawObject> = Vec::new();
            while sorted.len() > 0
                invariant
                    tallies_of(sorted@) == first_pass.take(sorted@.len() as int),
                    sorted@.len() <= first_pass.len(),
                    reversed@.len() + sorted@.len() == first_pass.len(),
                    forall|k: int|
                        0 <= k < reversed@.len() ==> (#[trigger] reversed@[k])@ == first_pass[
                            first_pass.len() - 1 - k],
                decreases sorted.len(),
            {
                let ghost n = sorted@.len();
                let last = sorted.pop().unwrap();
                assert(last@ == first_pass.take(n as int)[n - 1]);
                reversed.push(last);
                assert(tallies_of(sorted@) =~= first_pass.take(n - 1));
            }
            assert(tallies_of(reversed@) =~= first_pass.reverse());
            reversed
        },
    }
}

} // verus!
