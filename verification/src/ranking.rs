//! Amounts added up under names, and the names ranked by their amounts.
use vstd::prelude::*;
use vstd::string::*;

use crate::currency::amount_text;
use crate::decimal::{decimal_text, decimal_to_text, fits_i64};
use crate::error::{arithmetic_overflow, err500, internal, overflowed, HandlerResult};
use crate::handlers::budgets::{is_percent, percent_of, percentage as percent};
use crate::order::{arrange, arranged, ints};
use crate::text::{before, same, text_before};

verus! {

/// A name with the amount added up under it and the number of times that something was added.
pub struct Group {
    pub name: String,
    pub amount: i64,
    pub count: usize,
}

/// A name with its amount and its count, as values.
pub struct GroupView {
    pub name: Seq<char>,
    pub amount: int,
    pub count: int,
}

impl View for Group {
    type V = GroupView;

    open spec fn view(&self) -> GroupView {
        GroupView { name: self.name@, amount: self.amount as int, count: self.count as int }
    }
}

/// The values of a list of groups.
pub open spec fn group_views(groups: Seq<Group>) -> Seq<GroupView> {
    Seq::new(groups.len(), |i: int| groups[i]@)
}

/// The groups with an amount added under a name: to the group of that name, or to a new one that
/// stands before the first group whose name comes later.
pub open spec fn add_group(groups: Seq<GroupView>, name: Seq<char>, amount: int) -> Seq<GroupView>
    decreases groups.len(),
{
    if groups.len() == 0 {
        seq![GroupView { name, amount, count: 1 }]
    } else if groups[0].name == name {
        seq![
            GroupView { name, amount: groups[0].amount + amount, count: groups[0].count + 1 },
        ] + groups.drop_first()
    } else if text_before(name, groups[0].name) {
        seq![GroupView { name, amount, count: 1 }] + groups
    } else {
        seq![groups[0]] + add_group(groups.drop_first(), name, amount)
    }
}

/// The amount under a name, zero where there is none. The groups are looked through up to the
/// first whose name comes later.
pub open spec fn group_amount(groups: Seq<GroupView>, name: Seq<char>) -> int
    decreases groups.len(),
{
    if groups.len() == 0 {
        0
    } else if groups[0].name == name {
        groups[0].amount
    } else if text_before(name, groups[0].name) {
        0
    } else {
        group_amount(groups.drop_first(), name)
    }
}

/// No group counts more than `n`.
pub open spec fn counts_within(groups: Seq<Group>, n: int) -> bool {
    forall|i: int| 0 <= i < groups.len() ==> (#[trigger] groups[i]).count <= n
}

/// What adding does behind the groups that come before the name.
proof fn add_group_at(groups: Seq<GroupView>, name: Seq<char>, amount: int, i: int)
    requires
        0 <= i <= groups.len(),
        forall|j: int|
            0 <= j < i ==> (#[trigger] groups[j]).name != name && !text_before(
                name,
                groups[j].name,
            ),
    ensures
        add_group(groups, name, amount) == groups.take(i) + add_group(groups.skip(i), name, amount),
        group_amount(groups, name) == group_amount(groups.skip(i), name),
    decreases i,
{
    if i == 0 {
        assert(groups.skip(0) =~= groups);
        assert(groups.take(0) + add_group(groups, name, amount) =~= add_group(
            groups,
            name,
            amount,
        ));
    } else {
        let rest = groups.drop_first();
        assert forall|j: int| 0 <= j < i - 1 implies (#[trigger] rest[j]).name != name
            && !text_before(name, rest[j].name) by {
            assert(rest[j] == groups[j + 1]);
        }
        add_group_at(rest, name, amount, i - 1);
        assert(rest.skip(i - 1) =~= groups.skip(i));
        assert(groups[0].name != name && !text_before(name, groups[0].name));
        assert(groups.take(i) + add_group(groups.skip(i), name, amount) =~= seq![groups[0]] + (
        rest.take(i - 1) + add_group(groups.skip(i), name, amount)));
    }
}

/// Adds an amount under a name, unless the sum leaves the range of amounts.
pub(crate) fn add_ranking_value(groups: &mut Vec<Group>, name: String, amount: i64, Ghost(n): Ghost<int>) -> (r:
    HandlerResult<()>)
    requires
        counts_within(old(groups)@, n),
        0 <= n < usize::MAX,
    ensures
        match r {
            Ok(_) => fits_i64(group_amount(group_views(old(groups)@), name@) + amount)
                && group_views(final(groups)@) == add_group(
                group_views(old(groups)@),
                name@,
                amount as int,
            ) && counts_within(final(groups)@, n + 1),
            Err(error) => !fits_i64(group_amount(group_views(old(groups)@), name@) + amount)
                && error@ == internal("统计金额超出范围"@),
        },
{
    let ghost start = groups@;
    let ghost views = group_views(groups@);
    let ghost wanted = name@;
    let mut i: usize = 0;
    while i < groups.len() && !same(&groups[i].name, &name) && !before(&name, &groups[i].name)
        invariant
            i <= groups@.len(),
            groups@ == start,
            views == group_views(start),
            forall|j: int|
                0 <= j < i ==> (#[trigger] views[j]).name != name@ && !text_before(
                    name@,
                    views[j].name,
                ),
        decreases groups@.len() - i,
    {
        proof {
            assert(views[i as int].name == groups@[i as int].name@);
        }
        i = i + 1;
    }
    proof {
        add_group_at(views, wanted, amount as int, i as int);
    }
    let ghost rest = views.skip(i as int);
    if i < groups.len() && same(&groups[i].name, &name) {
        proof {
            assert(rest[0] == groups@[i as int]@);
        }
        let old_amount: i64 = groups[i].amount;
        let old_count: usize = groups[i].count;
        match old_amount.checked_add(amount) {
            None => return Err(err500("统计金额超出范围")),
            Some(sum) => {
                groups.set(i, Group { name, amount: sum, count: old_count + 1 });
                proof {
                    assert(group_views(groups@) =~= views.take(i as int) + add_group(
                        rest,
                        wanted,
                        amount as int,
                    )) by {
                        assert(rest.drop_first() =~= views.skip(i + 1));
                    }
                    assert forall|k: int| 0 <= k < groups@.len() implies (
                    #[trigger] groups@[k]).count <= n + 1 by {
                        if k != i {
                            assert(groups@[k] == start[k]);
                        }
                    }
                }
            },
        }
    } else {
        proof {
            if i < groups@.len() {
                assert(rest[0] == groups@[i as int]@);
            }
        }
        groups.insert(i, Group { name, amount, count: 1 });
        proof {
            let new = GroupView { name: wanted, amount: amount as int, count: 1 };
            assert(add_group(rest, wanted, amount as int) =~= seq![new] + rest);
            assert(group_views(groups@) =~= views.take(i as int) + (seq![new] + rest));
            assert forall|k: int| 0 <= k < groups@.len() implies (#[trigger] groups@[k]).count <= n
                + 1 by {
                if k < i {
                    assert(groups@[k] == start[k]);
                } else if k > i {
                    assert(groups@[k] == start[k - 1]);
                }
            }
        }
    }
    Ok(())
}

/// The amounts of groups.
pub open spec fn amounts(groups: Seq<GroupView>) -> Seq<int> {
    Seq::new(groups.len(), |i: int| groups[i].amount)
}

/// The groups from the largest amount to the smallest, equal amounts in the order of the groups.
pub open spec fn ranked(groups: Seq<GroupView>) -> Seq<GroupView> {
    arranged(groups, amounts(groups))
}

/// One line of a ranking.
pub struct RankingRow {
    pub rank: usize,
    pub name: String,
    pub amount: String,
    pub count: usize,
    pub share: String,
}

/// A part of a total in percent, with at most one digit behind the point.
pub open spec fn share_text(part: int, total: int) -> Seq<char> {
    if total == 0 {
        "0"@
    } else {
        let p = percent_of(part, total)->0;
        decimal_text(p.0, p.1)
    }
}

/// A part of a total in percent can be reckoned.
pub open spec fn has_share(part: int, total: int) -> bool {
    total == 0 || percent_of(part, total) is Some
}

/// A text says how many hundredths of a total a part is.
pub open spec fn shares(text: Seq<char>, part: int, total: int) -> bool {
    total > 0 ==> exists|p: (int, int)| #[trigger]
        is_percent(p, part, total) && text == decimal_text(p.0, p.1)
}

/// Writes a part of a total in percent.
pub fn percentage(part: i64, total: i64) -> (r: HandlerResult<String>)
    ensures
        match r {
            Ok(text) => has_share(part as int, total as int) && text@ == share_text(
                part as int,
                total as int,
            ) && shares(text@, part as int, total as int),
            Err(error) => !has_share(part as int, total as int) && error@ == overflowed(),
        },
{
    if total == 0 {
        return Ok("0".to_owned());
    }
    match percent(part, total) {
        Some(p) => Ok(decimal_to_text(p)),
        None => Err(arithmetic_overflow()),
    }
}

/// The line of a group shows these values.
pub open spec fn is_ranking_row(
    row: RankingRow,
    rank: int,
    group: GroupView,
    total: int,
    currency: Seq<char>,
) -> bool {
    &&& row.rank == rank
    &&& row.name@ == group.name
    &&& row.amount@ == amount_text(group.amount, currency)
    &&& row.count == group.count
    &&& row.share@ == share_text(group.amount, total)
    &&& shares(row.share@, group.amount, total)
}

/// The lines of a ranking show these groups.
pub open spec fn are_ranking_rows(
    rows: Seq<RankingRow>,
    groups: Seq<GroupView>,
    total: int,
    currency: Seq<char>,
) -> bool {
    let order = ranked(groups);
    &&& rows.len() == groups.len()
    &&& forall|i: int|
        0 <= i < rows.len() ==> is_ranking_row(
            #[trigger] rows[i],
            i + 1,
            order[i],
            total,
            currency,
        )
}

/// The shares of all groups can be reckoned.
pub open spec fn shares_exist(groups: Seq<GroupView>, total: int) -> bool {
    forall|i: int| 0 <= i < groups.len() ==> has_share((#[trigger] groups[i]).amount, total)
}

/// The groups from the largest amount to the smallest.
fn rank(groups: Vec<Group>) -> (r: Vec<Group>)
    ensures
        group_views(r@) == ranked(group_views(groups@)),
{
    let ghost views = group_views(groups@);
    let mut keys: Vec<i128> = Vec::new();
    let mut i: usize = 0;
    while i < groups.len()
        invariant
            i <= groups@.len(),
            keys@.len() == i,
            forall|j: int| 0 <= j < i ==> #[trigger] keys@[j] == groups@[j].amount,
        decreases groups@.len() - i,
    {
        keys.push(groups[i].amount as i128);
        i = i + 1;
    }
    let ghost start = groups@;
    let sorted = arrange(groups, &keys);
    proof {
        assert(ints(keys@) =~= amounts(views));
        crate::order::descending_exists(ints(keys@));
        assert(group_views(sorted@) =~= arranged(views, amounts(views)));
    }
    sorted
}

/// The ranking of groups: each with its place, its amount, its count and its share of a total.
pub fn ranking_rows(groups: Vec<Group>, total: i64, default_currency: &str) -> (r: HandlerResult<
    Vec<RankingRow>,
>)
    ensures
        match r {
            Ok(rows) => shares_exist(group_views(groups@), total as int) && are_ranking_rows(
                rows@,
                group_views(groups@),
                total as int,
                default_currency@,
            ),
            Err(error) => !shares_exist(group_views(groups@), total as int) && error@
                == overflowed(),
        },
{
    let ghost views = group_views(groups@);
    let ghost order = ranked(views);
    let sorted = rank(groups);
    let mut rows: Vec<RankingRow> = Vec::new();
    let mut i: usize = 0;
    proof {
        crate::order::descending_exists(amounts(views));
        assert(group_views(sorted@).len() == sorted@.len());
    }
    while i < sorted.len()
        invariant
            i <= sorted@.len(),
            views == group_views(groups@),
            sorted@.len() == views.len(),
            order == ranked(views),
            crate::order::descending(
                amounts(views),
                crate::order::descending_order(amounts(views)),
            ),
            group_views(sorted@) == order,
            rows@.len() == i,
            forall|j: int|
                0 <= j < i ==> has_share((#[trigger] order[j]).amount, total as int),
            forall|j: int|
                0 <= j < i ==> is_ranking_row(
                    #[trigger] rows@[j],
                    j + 1,
                    order[j],
                    total as int,
                    default_currency@,
                ),
        decreases sorted@.len() - i,
    {
        let g = &sorted[i];
        proof {
            assert(order[i as int] == g@);
        }
        let share = match percentage(g.amount, total) {
            Ok(share) => share,
            Err(error) => {
                proof {
                    let p = crate::order::descending_order(amounts(views))[i as int];
                    assert(views[p] == order[i as int]);
                }
                return Err(error);
            },
        };
        rows.push(
            RankingRow {
                rank: i + 1,
                name: g.name.clone(),
                amount: crate::currency::format(g.amount, default_currency),
                count: g.count,
                share,
            },
        );
        i = i + 1;
    }
    proof {
        assert forall|k: int| 0 <= k < views.len() implies has_share(
            (#[trigger] views[k]).amount,
            total as int,
        ) by {
            crate::order::positions_covered(
                amounts(views),
                crate::order::descending_order(amounts(views)),
            );
            let places = crate::order::descending_order(amounts(views));
            assert(places.contains(k));
            let i = choose|i: int| 0 <= i < places.len() && places[i] == k;
            assert(order[i] == views[k]);
        }
    }
    Ok(rows)
}

/// Names and their amounts, to be drawn.
pub struct ChartSeries {
    pub labels: Vec<String>,
    pub values: Vec<i64>,
}

/// The names and amounts of groups, in order.
pub open spec fn draws(chart: ChartSeries, groups: Seq<GroupView>) -> bool {
    &&& chart.labels@.len() == groups.len()
    &&& chart.values@.len() == groups.len()
    &&& forall|i: int|
        0 <= i < groups.len() ==> (#[trigger] chart.labels@[i])@ == groups[i].name
    &&& forall|i: int| 0 <= i < groups.len() ==> #[trigger] chart.values@[i] == groups[i].amount
}

/// A copy of groups.
fn copy_groups(groups: &Vec<Group>) -> (r: Vec<Group>)
    ensures
        group_views(r@) == group_views(groups@),
{
    let mut copy: Vec<Group> = Vec::new();
    let mut i: usize = 0;
    while i < groups.len()
        invariant
            i <= groups@.len(),
            copy@.len() == i,
            forall|j: int| 0 <= j < i ==> (#[trigger] copy@[j])@ == groups@[j]@,
        decreases groups@.len() - i,
    {
        copy.push(
            Group { name: groups[i].name.clone(), amount: groups[i].amount, count: groups[i].count },
        );
        i = i + 1;
    }
    proof {
        assert(group_views(copy@) =~= group_views(groups@));
    }
    copy
}

/// The names and amounts of groups, from the largest amount to the smallest.
pub fn chart_series(groups: &Vec<Group>) -> (r: ChartSeries)
    ensures
        draws(r, ranked(group_views(groups@))),
{
    let sorted = rank(copy_groups(groups));
    let mut labels: Vec<String> = Vec::new();
    let mut values: Vec<i64> = Vec::new();
    let mut i: usize = 0;
    while i < sorted.len()
        invariant
            i <= sorted@.len(),
            labels@.len() == i,
            values@.len() == i,
            forall|j: int| 0 <= j < i ==> (#[trigger] labels@[j])@ == sorted@[j].name@,
            forall|j: int| 0 <= j < i ==> #[trigger] values@[j] == sorted@[j].amount,
        decreases sorted@.len() - i,
    {
        labels.push(sorted[i].name.clone());
        values.push(sorted[i].amount);
        i = i + 1;
    }
    proof {
        assert forall|j: int| 0 <= j < sorted@.len() implies sorted@[j]@ == #[trigger] ranked(
            group_views(groups@),
        )[j] by {
            assert(group_views(sorted@)[j] == sorted@[j]@);
        }
    }
    ChartSeries { labels, values }
}

fn find_group_amount(groups: &Vec<Group>, name: &str) -> (r: i64)
    ensures
        r == group_amount(group_views(groups@), name@),
{
    let ghost views = group_views(groups@);
    let mut i: usize = 0;
    while i < groups.len() && !same(&groups[i].name, name) && !before(name, &groups[i].name)
        invariant
            i <= groups@.len(),
            views == group_views(groups@),
            forall|j: int|
                0 <= j < i ==> (#[trigger] views[j]).name != name@ && !text_before(
                    name@,
                    views[j].name,
                ),
        decreases groups@.len() - i,
    {
        proof {
            assert(views[i as int].name == groups@[i as int].name@);
        }
        i = i + 1;
    }
    proof {
        add_group_at(views, name@, 0, i as int);
        if i < groups@.len() {
            assert(views.skip(i as int)[0] == groups@[i as int]@);
        }
    }
    if i < groups.len() && same(&groups[i].name, name) {
        groups[i].amount
    } else {
        0
    }
}

/// The amounts of groups under given names, in the order of the names.
pub fn ordered_chart_series(labels: Vec<String>, groups: &Vec<Group>) -> (r: ChartSeries)
    ensures
        r.labels@ == labels@,
        r.values@.len() == labels@.len(),
        forall|i: int|
            0 <= i < labels@.len() ==> #[trigger] r.values@[i] == group_amount(
                group_views(groups@),
                labels@[i]@,
            ),
{
    let mut values: Vec<i64> = Vec::new();
    let mut i: usize = 0;
    while i < labels.len()
        invariant
            i <= labels@.len(),
            values@.len() == i,
            forall|j: int|
                0 <= j < i ==> #[trigger] values@[j] == group_amount(
                    group_views(groups@),
                    labels@[j]@,
                ),
        decreases labels@.len() - i,
    {
        values.push(find_group_amount(groups, &labels[i]));
        i = i + 1;
    }
    ChartSeries { labels, values }
}

/// The amounts of groups in all.
pub open spec fn groups_total(groups: Seq<GroupView>) -> int
    decreases groups.len(),
{
    if groups.len() == 0 {
        0
    } else {
        groups[0].amount + groups_total(groups.drop_first())
    }
}

/// The counts of groups in all.
pub open spec fn groups_count(groups: Seq<GroupView>) -> int
    decreases groups.len(),
{
    if groups.len() == 0 {
        0
    } else {
        groups[0].count + groups_count(groups.drop_first())
    }
}

/// The amounts of the groups of a name in all.
pub open spec fn name_total(groups: Seq<GroupView>, name: Seq<char>) -> int
    decreases groups.len(),
{
    if groups.len() == 0 {
        0
    } else {
        name_total(groups.drop_first(), name) + (if groups[0].name == name {
            groups[0].amount
        } else {
            0
        })
    }
}

/// Adding an amount under a name adds it to the groups of this name, and to no others.
pub proof fn adding_adds_to_the_name(
    groups: Seq<GroupView>,
    name: Seq<char>,
    amount: int,
    other: Seq<char>,
)
    ensures
        name_total(add_group(groups, name, amount), other) == name_total(groups, other) + (
        if other == name {
            amount
        } else {
            0
        }),
    decreases groups.len(),
{
    let new = add_group(groups, name, amount);
    if groups.len() == 0 {
        assert(new.drop_first() =~= groups);
    } else if groups[0].name == name {
        assert(new.drop_first() =~= groups.drop_first());
    } else if text_before(name, groups[0].name) {
        assert(new.drop_first() =~= groups);
    } else {
        adding_adds_to_the_name(groups.drop_first(), name, amount, other);
        assert(new.drop_first() =~= add_group(groups.drop_first(), name, amount));
    }
}

/// A ranking shows every group once, the largest amounts first.
pub proof fn ranking_is_in_order(
    rows: Seq<RankingRow>,
    groups: Seq<GroupView>,
    total: int,
    currency: Seq<char>,
    i: int,
    j: int,
)
    requires
        are_ranking_rows(rows, groups, total, currency),
        0 <= i <= j < rows.len(),
    ensures
        rows.len() == groups.len(),
        rows[i].rank == i + 1,
        exists|x: int, y: int|
            #![trigger groups[x], groups[y]]
            0 <= x < groups.len() && 0 <= y < groups.len() && (i == j <==> x == y)
                && groups[x].amount >= groups[y].amount && rows[i].name@ == groups[x].name
                && rows[j].name@ == groups[y].name && rows[i].amount@ == amount_text(
                groups[x].amount,
                currency,
            ) && rows[j].amount@ == amount_text(groups[y].amount, currency),
{
    let keys = amounts(groups);
    let order = crate::order::descending_order(keys);
    crate::order::descending_exists(keys);
    let (x, y) = (order[i], order[j]);
    if i < j {
        assert(crate::order::ahead(keys, x, y));
    }
    assert(ranked(groups)[i] == groups[x] && ranked(groups)[j] == groups[y]);
    assert(is_ranking_row(rows[i], i + 1, groups[x], total, currency));
    assert(is_ranking_row(rows[j], j + 1, groups[y], total, currency));
}

/// Adding an amount under a name adds it to the whole, and counts once.
pub proof fn adding_adds_up(groups: Seq<GroupView>, name: Seq<char>, amount: int)
    ensures
        groups_total(add_group(groups, name, amount)) == groups_total(groups) + amount,
        groups_count(add_group(groups, name, amount)) == groups_count(groups) + 1,
    decreases groups.len(),
{
    let new = add_group(groups, name, amount);
    if groups.len() == 0 {
        assert(new.drop_first() =~= groups);
    } else if groups[0].name == name {
        assert(new.drop_first() =~= groups.drop_first());
    } else if text_before(name, groups[0].name) {
        assert(new.drop_first() =~= groups);
    } else {
        adding_adds_up(groups.drop_first(), name, amount);
        assert(new.drop_first() =~= add_group(groups.drop_first(), name, amount));
    }
}

} // verus!
