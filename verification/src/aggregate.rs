//! Aggregation of raw rows into one total per category.

use vstd::prelude::*;

use crate::data::{ColumnLayout, Record};
use crate::error::ChartError;
use crate::number::{count_value, is_count_text, parse_count};

verus! {

/// A category together with a count: what one row contributes, or what all
/// the rows of one category add up to.
pub struct Tally {
    pub category: Seq<char>,
    pub total: nat,
}

/// One bar of the chart: a category and its total.
#[derive(Debug, PartialEq, Eq)]
pub struct DrawObject {
    pub name: String,
    pub num: u32,
}

impl View for DrawObject {
    type V = Tally;

    open spec fn view(&self) -> Tally {
        Tally { category: self.name@, total: self.num as nat }
    }
}

impl DrawObject {
    pub fn new(name: String, num: u32) -> (entry: DrawObject)
        ensures
            entry.name == name,
            entry.num == num,
    {
        DrawObject { name, num }
    }
}

impl Clone for DrawObject {
    fn clone(&self) -> (copy: DrawObject)
        ensures
            copy == *self,
    {
        DrawObject { name: self.name.clone(), num: self.num }
    }
}

/// The tallies that a vector of entries stands for.
pub open spec fn tallies_of(entries: Seq<DrawObject>) -> Seq<Tally> {
    entries.map_values(|e: DrawObject| e@)
}

/// Whether some tally of `s` belongs to category `c`.
pub open spec fn has_category(s: Seq<Tally>, c: Seq<char>) -> bool {
    exists|j: int| 0 <= j < s.len() && (#[trigger] s[j]).category == c
}

/// Whether no two tallies of `s` belong to the same category.
pub open spec fn distinct_categories(s: Seq<Tally>) -> bool {
    forall|j: int, k: int|
        0 <= j < s.len() && 0 <= k < s.len() && (#[trigger] s[j]).category == (
        #[trigger] s[k]).category ==> j == k
}

/// The sum of the counts of the tallies of `s` that belong to category `c`.
pub open spec fn category_total(s: Seq<Tally>, c: Seq<char>) -> nat
    decreases s.len(),
{
    if s.len() == 0 {
        0
    } else if s.last().category == c {
        category_total(s.drop_last(), c) + s.last().total
    } else {
        category_total(s.drop_last(), c)
    }
}

/// The sum of the counts of all tallies of `s`.
pub open spec fn sum_totals(s: Seq<Tally>) -> nat
    decreases s.len(),
{
    if s.len() == 0 {
        0
    } else {
        sum_totals(s.drop_last()) + s.last().total
    }
}

/// The largest count among the tallies of `s`, and zero when there is none.
pub open spec fn highest_total(s: Seq<Tally>) -> nat
    decreases s.len(),
{
    if s.len() == 0 {
        0
    } else if s.last().total > highest_total(s.drop_last()) {
        s.last().total
    } else {
        highest_total(s.drop_last())
    }
}

/// The categories of `s`, each once, in the order in which they first occur.
pub open spec fn first_seen(s: Seq<Tally>) -> Seq<Seq<char>>
    decreases s.len(),
{
    if s.len() == 0 {
        Seq::empty()
    } else if first_seen(s.drop_last()).contains(s.last().category) {
        first_seen(s.drop_last())
    } else {
        first_seen(s.drop_last()).push(s.last().category)
    }
}

/// One tally per category of `s`, in order of first occurrence, each holding
/// the sum of the counts of its category.
pub open spec fn tabulate(s: Seq<Tally>) -> Seq<Tally> {
    Seq::new(
        first_seen(s).len(),
        |k: int| Tally { category: first_seen(s)[k], total: category_total(s, first_seen(s)[k]) },
    )
}

/// Whether `row` has both columns of `layout` and a count field that reads
/// as a count.
pub open spec fn row_well_formed(row: Seq<Record>, layout: ColumnLayout) -> bool {
    &&& layout.category_column < row.len()
    &&& layout.count_column < row.len()
    &&& is_count_text(row[layout.count_column as int].value@)
}

/// What a well-formed row contributes: its category and its count.
pub open spec fn row_tally(row: Seq<Record>, layout: ColumnLayout) -> Tally {
    Tally {
        category: row[layout.category_column as int].value@,
        total: count_value(row[layout.count_column as int].value@),
    }
}

/// The contributions of the first `n` rows.
pub open spec fn row_tallies(rows: Seq<Vec<Record>>, layout: ColumnLayout, n: int) -> Seq<Tally> {
    Seq::new(n as nat, |i: int| row_tally(rows[i]@, layout))
}

/// The failure that row `i` causes when the rows before it caused none:
/// a malformed row, or a total that no longer fits in 32 bits.
pub open spec fn row_fault(rows: Seq<Vec<Record>>, layout: ColumnLayout, i: int) -> Option<
    ChartError,
> {
    if !row_well_formed(rows[i]@, layout) {
        Some(ChartError::MalformedRow { row: i as usize })
    } else if category_total(row_tallies(rows, layout, i + 1), row_tally(rows[i]@, layout).category)
        > u32::MAX {
        Some(ChartError::TotalOverflow { row: i as usize })
    } else {
        None
    }
}

/// Whether none of the first `n` rows causes a failure.
pub open spec fn rows_sound(rows: Seq<Vec<Record>>, layout: ColumnLayout, n: int) -> bool {
    forall|i: int| 0 <= i < n ==> (#[trigger] row_fault(rows, layout, i)) is None
}

/// The position of category `c` in `s`.
pub open spec fn slot_of(s: Seq<Tally>, c: Seq<char>) -> int {
    choose|j: int| 0 <= j < s.len() && (#[trigger] s[j]).category == c
}

/// The total that `s` holds for category `c`: zero when it holds none.
pub open spec fn total_in(s: Seq<Tally>, c: Seq<char>) -> nat {
    if has_category(s, c) {
        s[slot_of(s, c)].total
    } else {
        0
    }
}

/// The totals `s` after `n` more items of category `c` were counted: the
/// category's tally grows in place, or a new tally is appended.
pub open spec fn record(s: Seq<Tally>, c: Seq<char>, n: nat) -> Seq<Tally> {
    if has_category(s, c) {
        s.update(slot_of(s, c), Tally { category: c, total: s[slot_of(s, c)].total + n })
    } else {
        s.push(Tally { category: c, total: n })
    }
}

/// Where categories are distinct, a category's position is the one place
/// where it is found.
pub proof fn lemma_slot(s: Seq<Tally>, c: Seq<char>, j: int)
    requires
        distinct_categories(s),
        0 <= j < s.len(),
        s[j].category == c,
    ensures
        has_category(s, c),
        slot_of(s, c) == j,
{
}

/// The totals per category, each category once, in order of first occurrence.
pub struct CategoryTotals {
    entries: Vec<DrawObject>,
}

impl View for CategoryTotals {
    type V = Seq<Tally>;

    closed spec fn view(&self) -> Seq<Tally> {
        tallies_of(self.entries@)
    }
}

impl CategoryTotals {
    /// The invariant of the mapping: no category occurs twice.
    pub open spec fn wf(&self) -> bool {
        distinct_categories(self@)
    }

    /// The empty mapping.
    pub fn new() -> (totals: CategoryTotals)
        ensures
            totals.wf(),
            totals@ == Seq::<Tally>::empty(),
    {
        let totals = CategoryTotals { entries: Vec::new() };
        assert(tallies_of(totals.entries@) =~= Seq::<Tally>::empty());
        totals
    }

    /// The number of categories.
    pub fn len(&self) -> (n: usize)
        ensures
            n == self@.len(),
    {
        self.entries.len()
    }

    /// The entries, in order of first occurrence.
    pub fn entries(&self) -> (entries: &Vec<DrawObject>)
        ensures
            tallies_of(entries@) == self@,
    {
        &self.entries
    }

    /// The total of `category`, if the category is present.
    pub fn get(&self, category: &String) -> (total: Option<u32>)
        ensures
            total is Some <==> has_category(self@, category@),
            total matches Some(n) ==> exists|j: int|
                0 <= j < self@.len() && #[trigger] self@[j] == (Tally {
                    category: category@,
                    total: n as nat,
                }) && forall|k: int| 0 <= k < j ==> (#[trigger] self@[k]).category != category@,
    {
        let mut j: usize = 0;
        while j < self.entries.len()
            invariant
                j <= self.entries.len(),
                forall|k: int| 0 <= k < j ==> (#[trigger] self@[k]).category != category@,
            decreases self.entries.len() - j,
        {
            if self.entries[j].name == *category {
                assert(self@[j as int] == (Tally {
                    category: category@,
                    total: self.entries[j as int].num as nat,
                }));
                return Some(self.entries[j].num);
            }
            j += 1;
        }
        None
    }

    /// Adds `count` to the total of `category`, which starts at zero when the
    /// category is new. Leaves the totals as they were, and says so, when the
    /// sum would not fit in 32 bits.
    pub fn add(&mut self, category: &String, count: u32) -> (fits: bool)
        requires
            old(self).wf(),
        ensures
            final(self).wf(),
            fits <==> total_in(old(self)@, category@) + count <= u32::MAX,
            fits ==> final(self)@ == record(old(self)@, category@, count as nat),
            !fits ==> final(self)@ == old(self)@,
    {
        let ghost before = self@;
        let mut j: usize = 0;
        while j < self.entries.len()
            invariant
                j <= self.entries.len(),
                before == tallies_of(self.entries@),
                self@ == before,
                before == old(self)@,
                distinct_categories(before),
                forall|k: int| 0 <= k < j ==> (#[trigger] before[k]).category != category@,
            decreases self.entries.len() - j,
        {
            if self.entries[j].name == *category {
                let current = self.entries[j].num;
                proof {
                    assert(before[j as int].category == category@);
                    lemma_slot(before, category@, j as int);
                }
                if count > u32::MAX - current {
                    return false;
                }
                self.entries.set(j, DrawObject { name: category.clone(), num: current + count });
                proof {
                    let after = tallies_of(self.entries@);
                    assert(after =~= record(before, category@, count as nat));
                    assert forall|a: int, b: int|
                        0 <= a < after.len() && 0 <= b < after.len() && (
                        #[trigger] after[a]).category == (#[trigger] after[b]).category implies a
                        == b by {
                        assert(after[a].category == before[a].category);
                        assert(after[b].category == before[b].category);
                    }
                }
                return true;
            }
            j += 1;
        }
        proof {
            assert(!has_category(before, category@));
        }
        self.entries.push(DrawObject { name: category.clone(), num: count });
        proof {
            let after = tallies_of(self.entries@);
            assert(after =~= record(before, category@, count as nat));
            assert forall|a: int, b: int|
                0 <= a < after.len() && 0 <= b < after.len() && (#[trigger] after[a]).category == (
                #[trigger] after[b]).category implies a == b by {
                if a < before.len() {
                    assert(after[a] == before[a]);
                }
                if b < before.len() {
                    assert(after[b] == before[b]);
                }
            }
        }
        true
    }

    /// The largest total, and zero when there are no categories.
    pub fn highest(&self) -> (highest: u32)
        ensures
            highest == highest_total(self@),
            forall|j: int| 0 <= j < self@.len() ==> (#[trigger] self@[j]).total <= highest,
            self@.len() > 0 ==> exists|j: int|
                0 <= j < self@.len() && (#[trigger] self@[j]).total == highest,
            self@.len() == 0 ==> highest == 0,
    {
        proof {
            lemma_highest_total(self@);
        }
        let mut highest: u32 = 0;
        let mut j: usize = 0;
        while j < self.entries.len()
            invariant
                j <= self.entries.len(),
                highest == highest_total(self@.take(j as int)),
            decreases self.entries.len() - j,
        {
            proof {
                assert(self@.take(j + 1).drop_last() =~= self@.take(j as int));
            }
            if self.entries[j].num > highest {
                highest = self.entries[j].num;
            }
            j += 1;
        }
        assert(self@.take(j as int) =~= self@);
        highest
    }
}

/// None of the first-seen categories is listed twice.
pub proof fn lemma_first_seen_distinct(s: Seq<Tally>)
    ensures
        first_seen(s).no_duplicates(),
    decreases s.len(),
{
    if s.len() > 0 {
        lemma_first_seen_distinct(s.drop_last());
    }
}

/// A category is among the first-seen categories exactly when some tally
/// belongs to it.
pub proof fn lemma_first_seen_has(s: Seq<Tally>, c: Seq<char>)
    ensures
        first_seen(s).contains(c) <==> has_category(s, c),
    decreases s.len(),
{
    if s.len() > 0 {
        let head = s.drop_last();
        lemma_first_seen_has(head, c);
        if first_seen(s).contains(c) {
            if first_seen(head).contains(c) {
                let j = choose|j: int| 0 <= j < head.len() && (#[trigger] head[j]).category == c;
                assert(s[j].category == c);
            } else {
                assert(s[s.len() - 1].category == c);
            }
        }
        if has_category(s, c) {
            let j = choose|j: int| 0 <= j < s.len() && (#[trigger] s[j]).category == c;
            if j < head.len() {
                assert(head[j].category == c);
                let k = choose|k: int| 0 <= k < first_seen(head).len() && first_seen(head)[k] == c;
                assert(first_seen(s)[k] == c);
            } else if !first_seen(head).contains(c) {
                assert(first_seen(s)[first_seen(head).len() as int] == c);
            }
        }
    }
}

/// A category to which no tally belongs has total zero.
pub proof fn lemma_absent_total(s: Seq<Tally>, c: Seq<char>)
    requires
        !has_category(s, c),
    ensures
        category_total(s, c) == 0,
    decreases s.len(),
{
    if s.len() > 0 {
        assert(s[s.len() - 1].category != c);
        let head = s.drop_last();
        assert forall|j: int| 0 <= j < head.len() implies (#[trigger] head[j]).category != c by {
            assert(s[j].category != c);
        }
        lemma_absent_total(head, c);
    }
}

/// The tabulated totals have distinct categories.
pub proof fn lemma_tabulate_distinct(s: Seq<Tally>)
    ensures
        distinct_categories(tabulate(s)),
{
    lemma_first_seen_distinct(s);
}

/// The tabulated totals hold a category exactly when some tally belongs to
/// it, and hold for it the sum of its counts.
pub proof fn lemma_tabulate_total(s: Seq<Tally>, c: Seq<char>)
    ensures
        has_category(tabulate(s), c) <==> has_category(s, c),
        total_in(tabulate(s), c) == category_total(s, c),
{
    lemma_first_seen_has(s, c);
    let f = first_seen(s);
    let t = tabulate(s);
    if has_category(t, c) {
        let j = slot_of(t, c);
        assert(t[j].category == c);
        assert(f[j] == c);
    }
    if f.contains(c) {
        let j = choose|j: int| 0 <= j < f.len() && f[j] == c;
        assert(t[j].category == c);
    }
    if !has_category(t, c) {
        lemma_absent_total(s, c);
    }
}

/// One more tally adds its count to the total of its category and to no
/// other.
pub proof fn lemma_category_total_push(s: Seq<Tally>, x: Tally, c: Seq<char>)
    ensures
        category_total(s.push(x), c) == category_total(s, c) + if x.category == c {
            x.total
        } else {
            0
        },
{
    assert(s.push(x).drop_last() =~= s);
}

/// Counting one more row changes the tabulated totals as `record` says.
pub proof fn lemma_tabulate_push(s: Seq<Tally>, x: Tally)
    ensures
        tabulate(s.push(x)) == record(tabulate(s), x.category, x.total),
{
    let longer = s.push(x);
    assert(longer.drop_last() =~= s);
    lemma_tabulate_distinct(s);
    lemma_tabulate_total(s, x.category);
    lemma_first_seen_has(s, x.category);
    lemma_first_seen_distinct(s);
    let f = first_seen(s);
    let t = tabulate(s);
    let r = record(t, x.category, x.total);
    if has_category(t, x.category) {
        let j = slot_of(t, x.category);
        assert(t[j].category == x.category);
        assert(f[j] == x.category);
        assert(first_seen(longer) == f);
        assert forall|k: int| 0 <= k < f.len() implies #[trigger] tabulate(longer)[k] == r[k] by {
            lemma_category_total_push(s, x, f[k]);
        }
        assert(tabulate(longer) =~= r);
    } else {
        assert(first_seen(longer) == f.push(x.category));
        lemma_absent_total(s, x.category);
        assert forall|k: int| 0 <= k < f.len() + 1 implies #[trigger] tabulate(longer)[k]
            == r[k] by {
            lemma_category_total_push(s, x, first_seen(longer)[k]);
            if k < f.len() {
                assert(f.contains(f[k]));
            }
        }
        assert(tabulate(longer) =~= r);
    }
}

/// Reduces the rows to one total per category and finds the largest total.
///
/// The category name and the item count of each row are read from the
/// columns of `layout`. The first row that is too short, whose count does not
/// read as a count, or that carries a total past `u32::MAX` ends the
/// aggregation with the failure of that row.
pub fn aggregate(rows: &Vec<Vec<Record>>, layout: ColumnLayout) -> (result: Result<
    (CategoryTotals, u32),
    ChartError,
>)
    ensures
        match result {
            Ok((totals, highest)) => {
                &&& rows_sound(rows@, layout, rows@.len() as int)
                &&& totals.wf()
                &&& totals@ == tabulate(row_tallies(rows@, layout, rows@.len() as int))
                &&& sum_totals(totals@) == sum_totals(
                    row_tallies(rows@, layout, rows@.len() as int),
                )
                &&& highest == highest_total(totals@)
            },
            Err(e) => exists|i: int|
                0 <= i < rows@.len() && rows_sound(rows@, layout, i) && #[trigger] row_fault(
                    rows@,
                    layout,
                    i,
                ) == Some(e),
        },
{
    let mut totals = CategoryTotals::new();
    let mut i: usize = 0;
    proof {
        assert(row_tallies(rows@, layout, 0) =~= Seq::<Tally>::empty());
        assert(tabulate(Seq::<Tally>::empty()) =~= Seq::<Tally>::empty());
    }
    while i < rows.len()
        invariant
            i <= rows.len(),
            totals.wf(),
            rows_sound(rows@, layout, i as int),
            totals@ == tabulate(row_tallies(rows@, layout, i as int)),
        decreases rows.len() - i,
    {
        let row = &rows[i];
        if layout.category_column >= row.len() || layout.count_column >= row.len() {
            assert(row_fault(rows@, layout, i as int) == Some(
                ChartError::MalformedRow { row: i },
            ));
            return Err(ChartError::MalformedRow { row: i });
        }
        let category = &row[layout.category_column].value;
        let count = match parse_count(row[layout.count_column].value.as_str()) {
            Some(count) => count,
            None => {
                assert(row_fault(rows@, layout, i as int) == Some(
                    ChartError::MalformedRow { row: i },
                ));
                return Err(ChartError::MalformedRow { row: i });
            },
        };
        proof {
            let seen = row_tallies(rows@, layout, i as int);
            let x = row_tally(rows@[i as int]@, layout);
            assert(row_tallies(rows@, layout, i + 1) =~= seen.push(x));
            assert(seen.push(x).drop_last() =~= seen);
            lemma_tabulate_total(seen, x.category);
            lemma_category_total_push(seen, x, x.category);
            lemma_tabulate_push(seen, x);
        }
        let fits = totals.add(category, count);
        if !fits {
            assert(row_fault(rows@, layout, i as int) == Some(
                ChartError::TotalOverflow { row: i },
            ));
            return Err(ChartError::TotalOverflow { row: i });
        }
        assert(row_fault(rows@, layout, i as int) is None);
        i += 1;
    }
    proof {
        lemma_tabulate_sum(row_tallies(rows@, layout, rows@.len() as int));
    }
    let highest = totals.highest();
    Ok((totals, highest))
}

/// There are totals exactly when there are tallies.
pub proof fn lemma_tabulate_empty(s: Seq<Tally>)
    ensures
        tabulate(s).len() == 0 <==> s.len() == 0,
{
    if s.len() > 0 {
        lemma_first_seen_has(s, s[0].category);
    }
}

/// No tally has a count above the highest, and where there are tallies one
/// of them has the highest count.
pub proof fn lemma_highest_total(s: Seq<Tally>)
    ensures
        forall|j: int| 0 <= j < s.len() ==> (#[trigger] s[j]).total <= highest_total(s),
        s.len() > 0 ==> exists|j: int|
            0 <= j < s.len() && (#[trigger] s[j]).total == highest_total(s),
    decreases s.len(),
{
    if s.len() > 0 {
        let head = s.drop_last();
        lemma_highest_total(head);
        assert forall|j: int| 0 <= j < s.len() implies (#[trigger] s[j]).total <= highest_total(
            s,
        ) by {
            if j < head.len() {
                assert(head[j].total <= highest_total(head));
            }
        }
        if s.last().total > highest_total(head) || head.len() == 0 {
            assert(s[s.len() - 1].total == highest_total(s));
        } else {
            let j = choose|j: int|
                0 <= j < head.len() && (#[trigger] head[j]).total == highest_total(head);
            assert(s[j].total == highest_total(s));
        }
    }
}

/// The sum of two sequences laid end to end is the sum of their sums.
pub proof fn lemma_sum_totals_concat(a: Seq<Tally>, b: Seq<Tally>)
    ensures
        sum_totals(a + b) == sum_totals(a) + sum_totals(b),
    decreases b.len(),
{
    if b.len() == 0 {
        assert(a + b =~= a);
    } else {
        lemma_sum_totals_concat(a, b.drop_last());
        assert((a + b).drop_last() =~= a + b.drop_last());
    }
}

/// Replacing one tally changes the sum by the difference of the counts.
pub proof fn lemma_sum_totals_update(s: Seq<Tally>, j: int, v: Tally)
    requires
        0 <= j < s.len(),
    ensures
        sum_totals(s.update(j, v)) == sum_totals(s) - s[j].total + v.total,
    decreases s.len(),
{
    let u = s.update(j, v);
    if j == s.len() - 1 {
        assert(u.drop_last() =~= s.drop_last());
    } else {
        lemma_sum_totals_update(s.drop_last(), j, v);
        assert(u.drop_last() =~= s.drop_last().update(j, v));
    }
}

/// The totals per category add up to the sum of all counts.
pub proof fn lemma_tabulate_sum(s: Seq<Tally>)
    ensures
        sum_totals(tabulate(s)) == sum_totals(s),
    decreases s.len(),
{
    if s.len() == 0 {
        assert(tabulate(s) =~= Seq::<Tally>::empty());
    } else {
        let head = s.drop_last();
        let x = s.last();
        lemma_tabulate_sum(head);
        assert(s =~= head.push(x));
        lemma_tabulate_push(head, x);
        let t = tabulate(head);
        if has_category(t, x.category) {
            let j = slot_of(t, x.category);
            lemma_sum_totals_update(
                t,
                j,
                Tally { category: x.category, total: t[j].total + x.total },
            );
        } else {
            assert(t.push(Tally { category: x.category, total: x.total }).drop_last() =~= t);
        }
    }
}

} // verus!
