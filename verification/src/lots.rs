//! The working set of tax lots and the order in which disposals deplete it.

use vstd::prelude::*;

verus! {

/// The policy that picks the lot a disposal draws on next.
#[derive(Clone, Copy, Debug, PartialEq, Eq, Structural)]
pub enum CostBasisMethod {
    /// Oldest acquisition first.
    Fifo,
    /// Newest acquisition first.
    Lifo,
    /// Highest unit price first; among equal prices the oldest.
    Hifo,
}

impl Default for CostBasisMethod {
    fn default() -> (m: Self)
        ensures
            m == CostBasisMethod::Fifo,
    {
        CostBasisMethod::Fifo
    }
}

/// The lower-case name of a method, as it appears in reports and file names.
pub open spec fn method_name_spec(method: CostBasisMethod) -> Seq<char> {
    match method {
        CostBasisMethod::Fifo => "fifo"@,
        CostBasisMethod::Lifo => "lifo"@,
        CostBasisMethod::Hifo => "hifo"@,
    }
}

/// The lower-case name of a method.
pub fn method_name(method: CostBasisMethod) -> (name: &'static str)
    ensures
        name@ == method_name_spec(method),
{
    match method {
        CostBasisMethod::Fifo => "fifo",
        CostBasisMethod::Lifo => "lifo",
        CostBasisMethod::Hifo => "hifo",
    }
}

/// What is left of one acquisition.
#[derive(Clone, Copy, Debug, PartialEq, Eq, Structural)]
pub struct Lot {
    /// Satoshis not yet disposed of.
    pub amount_sat: u64,
    /// Cents per bitcoin paid at acquisition.
    pub unit_price_cents: u64,
    /// Day number of the acquisition date; `None` where the timestamp held no date.
    pub acquired_day: Option<i32>,
}

/// The part of one lot that a disposal consumed.
#[derive(Clone, Copy, Debug, PartialEq, Eq, Structural)]
pub struct Take {
    /// Satoshis taken from the lot.
    pub disposed_sat: u64,
    /// Unit price of the lot, in cents per bitcoin.
    pub unit_price_cents: u64,
    /// Day number of the lot's acquisition date.
    pub acquired_day: Option<i32>,
}

/// Position of the first lot with the highest unit price; 0 for an empty set.
pub open spec fn highest_priced(lots: Seq<Lot>) -> int
    decreases lots.len(),
{
    if lots.len() <= 1 {
        0
    } else {
        let j = highest_priced(lots.drop_last());
        if lots.last().unit_price_cents > lots[j].unit_price_cents {
            lots.len() - 1
        } else {
            j
        }
    }
}

/// Position of the lot that `method` consumes next. Lots stand in acquisition order.
pub open spec fn next_lot(lots: Seq<Lot>, method: CostBasisMethod) -> int {
    match method {
        CostBasisMethod::Fifo => 0,
        CostBasisMethod::Lifo => lots.len() - 1,
        CostBasisMethod::Hifo => highest_priced(lots),
    }
}

/// `highest_priced` is in range, no lot is priced above it and every earlier lot is priced below it.
pub proof fn lemma_highest_priced(lots: Seq<Lot>)
    requires
        lots.len() > 0,
    ensures
        0 <= highest_priced(lots) < lots.len(),
        forall|k: int|
            0 <= k < lots.len() ==> #[trigger] lots[k].unit_price_cents
                <= lots[highest_priced(lots)].unit_price_cents,
        forall|k: int|
            0 <= k < highest_priced(lots) ==> #[trigger] lots[k].unit_price_cents
                < lots[highest_priced(lots)].unit_price_cents,
    decreases lots.len(),
{
    if lots.len() > 1 {
        let front = lots.drop_last();
        lemma_highest_priced(front);
        assert forall|k: int| 0 <= k < front.len() implies front[k] == lots[k] by {}
    }
}

/// Sum of the satoshis that the lots still hold.
pub open spec fn lots_balance(lots: Seq<Lot>) -> int
    decreases lots.len(),
{
    if lots.len() == 0 {
        0
    } else {
        lots_balance(lots.drop_last()) + lots.last().amount_sat
    }
}

/// Sum of the satoshis that the takes consumed.
pub open spec fn takes_total(takes: Seq<Take>) -> int
    decreases takes.len(),
{
    if takes.len() == 0 {
        0
    } else {
        takes_total(takes.drop_last()) + takes.last().disposed_sat
    }
}

/// The take that removes `sat` satoshis from `lot`.
pub open spec fn take_from(lot: Lot, sat: u64) -> Take {
    Take { disposed_sat: sat, unit_price_cents: lot.unit_price_cents, acquired_day: lot.acquired_day }
}

/// Disposing of `amount` satoshis: the lots that remain and the takes, in the order consumed.
///
/// The next lot by `method` gives `min(amount, lot.amount_sat)`; a lot that is used up
/// leaves the set. It ends when the amount is met or no lot is left, so a disposal
/// larger than the holdings takes only what is there.
pub open spec fn deplete(lots: Seq<Lot>, amount: nat, method: CostBasisMethod) -> (Seq<Lot>, Seq<Take>)
    decreases lots.len(), amount,
{
    if amount == 0 || lots.len() == 0 {
        (lots, Seq::empty())
    } else {
        let i = next_lot(lots, method);
        if !(0 <= i < lots.len()) {
            (lots, Seq::empty())
        } else if lots[i].amount_sat <= amount {
            let rest = deplete(lots.remove(i), (amount - lots[i].amount_sat) as nat, method);
            (rest.0, seq![take_from(lots[i], lots[i].amount_sat)] + rest.1)
        } else {
            (
                lots.update(
                    i,
                    Lot { amount_sat: (lots[i].amount_sat - amount) as u64, ..lots[i] },
                ),
                seq![take_from(lots[i], amount as u64)],
            )
        }
    }
}

/// The balance of two runs of lots put end to end is the sum of their balances.
pub proof fn lemma_balance_concat(a: Seq<Lot>, b: Seq<Lot>)
    ensures
        lots_balance(a + b) == lots_balance(a) + lots_balance(b),
    decreases b.len(),
{
    if b.len() == 0 {
        assert(a + b =~= a);
    } else {
        assert((a + b).drop_last() =~= a + b.drop_last());
        lemma_balance_concat(a, b.drop_last());
    }
}

/// The total of two runs of takes put end to end is the sum of their totals.
pub proof fn lemma_takes_concat(a: Seq<Take>, b: Seq<Take>)
    ensures
        takes_total(a + b) == takes_total(a) + takes_total(b),
    decreases b.len(),
{
    if b.len() == 0 {
        assert(a + b =~= a);
    } else {
        assert((a + b).drop_last() =~= a + b.drop_last());
        lemma_takes_concat(a, b.drop_last());
    }
}

/// The total of a single take is what it disposed of.
pub proof fn lemma_takes_single(t: Take)
    ensures
        takes_total(seq![t]) == t.disposed_sat,
{
    reveal_with_fuel(takes_total, 2);
    assert(seq![t].drop_last() =~= Seq::<Take>::empty());
}

/// The balance of a single lot is what it holds.
pub proof fn lemma_balance_single(lot: Lot)
    ensures
        lots_balance(seq![lot]) == lot.amount_sat,
{
    reveal_with_fuel(lots_balance, 2);
    assert(seq![lot].drop_last() =~= Seq::<Lot>::empty());
}

/// Taking a lot out of the set lowers the balance by what the lot held.
pub proof fn lemma_balance_remove(lots: Seq<Lot>, i: int)
    requires
        0 <= i < lots.len(),
    ensures
        lots_balance(lots.remove(i)) == lots_balance(lots) - lots[i].amount_sat,
{
    let head = lots.take(i);
    let tail = lots.skip(i + 1);
    let one = seq![lots[i]];
    lemma_balance_single(lots[i]);
    assert(lots =~= head + one + tail);
    assert(lots.remove(i) =~= head + tail);
    lemma_balance_concat(head, one);
    lemma_balance_concat(head + one, tail);
    lemma_balance_concat(head, tail);
}

/// Replacing a lot changes the balance by the difference of the two amounts.
pub proof fn lemma_balance_update(lots: Seq<Lot>, i: int, lot: Lot)
    requires
        0 <= i < lots.len(),
    ensures
        lots_balance(lots.update(i, lot)) == lots_balance(lots) - lots[i].amount_sat
            + lot.amount_sat,
{
    let head = lots.take(i);
    let tail = lots.skip(i + 1);
    let was = seq![lots[i]];
    let now = seq![lot];
    lemma_balance_single(lots[i]);
    lemma_balance_single(lot);
    assert(lots =~= head + was + tail);
    assert(lots.update(i, lot) =~= head + now + tail);
    lemma_balance_concat(head, was);
    lemma_balance_concat(head + was, tail);
    lemma_balance_concat(head, now);
    lemma_balance_concat(head + now, tail);
}

/// The next lot is a lot of the set.
pub proof fn lemma_next_lot_in_range(lots: Seq<Lot>, method: CostBasisMethod)
    requires
        lots.len() > 0,
    ensures
        0 <= next_lot(lots, method) < lots.len(),
{
    lemma_highest_priced(lots);
}

/// A disposal takes exactly the smaller of the amount asked for and the balance,
/// and what it takes is what the lots lose.
pub proof fn lemma_deplete_conserves(lots: Seq<Lot>, amount: nat, method: CostBasisMethod)
    ensures
        takes_total(deplete(lots, amount, method).1) == if amount <= lots_balance(lots) {
            amount as int
        } else {
            lots_balance(lots)
        },
        lots_balance(deplete(lots, amount, method).0) + takes_total(
            deplete(lots, amount, method).1,
        ) == lots_balance(lots),
        lots_balance(lots) >= 0,
    decreases lots.len(), amount,
{
    lemma_balance_nonnegative(lots);
    if amount == 0 || lots.len() == 0 {
    } else {
        lemma_next_lot_in_range(lots, method);
        let i = next_lot(lots, method);
        let first = take_from(lots[i], lots[i].amount_sat);
        if lots[i].amount_sat <= amount {
            let left = (amount - lots[i].amount_sat) as nat;
            lemma_deplete_conserves(lots.remove(i), left, method);
            lemma_balance_remove(lots, i);
            lemma_takes_single(first);
            lemma_takes_concat(seq![first], deplete(lots.remove(i), left, method).1);
        } else {
            let part = take_from(lots[i], amount as u64);
            lemma_takes_single(part);
            lemma_balance_update(
                lots,
                i,
                Lot { amount_sat: (lots[i].amount_sat - amount) as u64, ..lots[i] },
            );
            lemma_balance_remove(lots, i);
            lemma_balance_nonnegative(lots.remove(i));
        }
    }
}

/// The lot that a disposal draws on first: the oldest under first-in-first-out, the
/// newest under last-in-first-out, and under highest-in-first-out one that no lot
/// outprices, the oldest of those. The first take is the smaller of the amount asked
/// for and what that lot holds.
pub proof fn lemma_first_take(lots: Seq<Lot>, amount: nat, method: CostBasisMethod)
    requires
        lots.len() > 0,
        amount > 0,
    ensures
        deplete(lots, amount, method).1.len() > 0,
        0 <= next_lot(lots, method) < lots.len(),
        deplete(lots, amount, method).1[0] == take_from(
            lots[next_lot(lots, method)],
            if lots[next_lot(lots, method)].amount_sat <= amount {
                lots[next_lot(lots, method)].amount_sat
            } else {
                amount as u64
            },
        ),
        method == CostBasisMethod::Fifo ==> next_lot(lots, method) == 0,
        method == CostBasisMethod::Lifo ==> next_lot(lots, method) == lots.len() - 1,
        method == CostBasisMethod::Hifo ==> forall|k: int|
            0 <= k < lots.len() ==> (#[trigger] lots[k]).unit_price_cents <= deplete(
                lots,
                amount,
                method,
            ).1[0].unit_price_cents,
        method == CostBasisMethod::Hifo ==> forall|k: int|
            0 <= k < next_lot(lots, method) ==> (#[trigger] lots[k]).unit_price_cents < deplete(
                lots,
                amount,
                method,
            ).1[0].unit_price_cents,
{
    lemma_highest_priced(lots);
}

/// First-in-first-out consumes the lots in acquisition order: the take at each
/// place comes from the lot at that place, and every take but the last uses its
/// lot up.
pub proof fn lemma_fifo_order(lots: Seq<Lot>, amount: nat)
    ensures
        deplete(lots, amount, CostBasisMethod::Fifo).1.len() <= lots.len(),
        forall|k: int|
            0 <= k < deplete(lots, amount, CostBasisMethod::Fifo).1.len() ==> {
                let take = #[trigger] deplete(lots, amount, CostBasisMethod::Fifo).1[k];
                &&& take.unit_price_cents == lots[k].unit_price_cents
                &&& take.acquired_day == lots[k].acquired_day
                &&& take.disposed_sat <= lots[k].amount_sat
                &&& k + 1 < deplete(lots, amount, CostBasisMethod::Fifo).1.len()
                    ==> take.disposed_sat == lots[k].amount_sat
            },
    decreases lots.len(), amount,
{
    let method = CostBasisMethod::Fifo;
    if amount == 0 || lots.len() == 0 {
    } else if lots[0].amount_sat <= amount {
        let fewer = lots.remove(0);
        let left = (amount - lots[0].amount_sat) as nat;
        lemma_fifo_order(fewer, left);
        let rest = deplete(fewer, left, method).1;
        let all = deplete(lots, amount, method).1;
        assert(all =~= seq![take_from(lots[0], lots[0].amount_sat)] + rest);
        assert forall|k: int| 0 <= k < all.len() implies {
            let take = #[trigger] all[k];
            &&& take.unit_price_cents == lots[k].unit_price_cents
            &&& take.acquired_day == lots[k].acquired_day
            &&& take.disposed_sat <= lots[k].amount_sat
            &&& k + 1 < all.len() ==> take.disposed_sat == lots[k].amount_sat
        } by {
            if k > 0 {
                assert(all[k] == rest[k - 1]);
                assert(fewer[k - 1] == lots[k]);
            }
        }
    } else {
    }
}

/// Last-in-first-out consumes the lots in the reverse of acquisition order: the take
/// at each place comes from the lot that many places from the end.
pub proof fn lemma_lifo_order(lots: Seq<Lot>, amount: nat)
    ensures
        deplete(lots, amount, CostBasisMethod::Lifo).1.len() <= lots.len(),
        forall|k: int|
            0 <= k < deplete(lots, amount, CostBasisMethod::Lifo).1.len() ==> {
                let take = #[trigger] deplete(lots, amount, CostBasisMethod::Lifo).1[k];
                let lot = lots[lots.len() - 1 - k];
                &&& take.unit_price_cents == lot.unit_price_cents
                &&& take.acquired_day == lot.acquired_day
                &&& take.disposed_sat <= lot.amount_sat
                &&& k + 1 < deplete(lots, amount, CostBasisMethod::Lifo).1.len()
                    ==> take.disposed_sat == lot.amount_sat
            },
    decreases lots.len(), amount,
{
    let method = CostBasisMethod::Lifo;
    let last = lots.len() - 1;
    if amount == 0 || lots.len() == 0 {
    } else if lots[last].amount_sat <= amount {
        let fewer = lots.remove(last);
        let left = (amount - lots[last].amount_sat) as nat;
        lemma_lifo_order(fewer, left);
        let rest = deplete(fewer, left, method).1;
        let all = deplete(lots, amount, method).1;
        assert(all =~= seq![take_from(lots[last], lots[last].amount_sat)] + rest);
        assert forall|k: int| 0 <= k < all.len() implies {
            let take = #[trigger] all[k];
            let lot = lots[lots.len() - 1 - k];
            &&& take.unit_price_cents == lot.unit_price_cents
            &&& take.acquired_day == lot.acquired_day
            &&& take.disposed_sat <= lot.amount_sat
            &&& k + 1 < all.len() ==> take.disposed_sat == lot.amount_sat
        } by {
            if k > 0 {
                assert(all[k] == rest[k - 1]);
                assert(fewer[fewer.len() - 1 - (k - 1)] == lots[lots.len() - 1 - k]);
            }
        }
    } else {
    }
}

/// A disposal brings no price into the lots or the takes that was not in the lots
/// before: where no lot is priced above `cap`, nor is any lot left or any take.
pub proof fn lemma_prices_capped(lots: Seq<Lot>, amount: nat, method: CostBasisMethod, cap: u64)
    requires
        forall|k: int| 0 <= k < lots.len() ==> (#[trigger] lots[k]).unit_price_cents <= cap,
    ensures
        forall|k: int|
            0 <= k < deplete(lots, amount, method).0.len() ==> (#[trigger] deplete(
                lots,
                amount,
                method,
            ).0[k]).unit_price_cents <= cap,
        forall|k: int|
            0 <= k < deplete(lots, amount, method).1.len() ==> (#[trigger] deplete(
                lots,
                amount,
                method,
            ).1[k]).unit_price_cents <= cap,
    decreases lots.len(), amount,
{
    if amount == 0 || lots.len() == 0 {
    } else {
        lemma_next_lot_in_range(lots, method);
        let i = next_lot(lots, method);
        if lots[i].amount_sat <= amount {
            let left = (amount - lots[i].amount_sat) as nat;
            let fewer = lots.remove(i);
            assert forall|k: int| 0 <= k < fewer.len() implies (#[trigger] fewer[k]).unit_price_cents
                <= cap by {
                if k < i {
                    assert(fewer[k] == lots[k]);
                } else {
                    assert(fewer[k] == lots[k + 1]);
                }
            }
            lemma_prices_capped(fewer, left, method, cap);
            let rest = deplete(fewer, left, method).1;
            let all = seq![take_from(lots[i], lots[i].amount_sat)] + rest;
            assert forall|k: int| 0 <= k < all.len() implies (#[trigger] all[k]).unit_price_cents
                <= cap by {
                if k > 0 {
                    assert(all[k] == rest[k - 1]);
                }
            }
        } else {
        }
    }
}

/// Highest-in-first-out consumes the lots from the highest price down: no take is
/// priced above the take before it.
pub proof fn lemma_hifo_order(lots: Seq<Lot>, amount: nat)
    ensures
        forall|j: int, k: int|
            0 <= j <= k < deplete(lots, amount, CostBasisMethod::Hifo).1.len() ==> (
            #[trigger] deplete(lots, amount, CostBasisMethod::Hifo).1[k]).unit_price_cents <= (
            #[trigger] deplete(lots, amount, CostBasisMethod::Hifo).1[j]).unit_price_cents,
    decreases lots.len(), amount,
{
    let method = CostBasisMethod::Hifo;
    if amount == 0 || lots.len() == 0 {
    } else {
        lemma_highest_priced(lots);
        let i = next_lot(lots, method);
        if lots[i].amount_sat <= amount {
            let fewer = lots.remove(i);
            let left = (amount - lots[i].amount_sat) as nat;
            let top = lots[i].unit_price_cents;
            assert forall|k: int| 0 <= k < fewer.len() implies (#[trigger] fewer[k]).unit_price_cents
                <= top by {
                if k < i {
                    assert(fewer[k] == lots[k]);
                } else {
                    assert(fewer[k] == lots[k + 1]);
                }
            }
            lemma_prices_capped(fewer, left, method, top);
            lemma_hifo_order(fewer, left);
            let rest = deplete(fewer, left, method).1;
            let all = deplete(lots, amount, method).1;
            assert(all =~= seq![take_from(lots[i], lots[i].amount_sat)] + rest);
            assert forall|j: int, k: int| 0 <= j <= k < all.len() implies (
            #[trigger] all[k]).unit_price_cents <= (#[trigger] all[j]).unit_price_cents by {
                if j > 0 {
                    assert(all[j] == rest[j - 1]);
                    assert(all[k] == rest[k - 1]);
                } else if k > 0 {
                    assert(all[k] == rest[k - 1]);
                }
            }
        } else {
        }
    }
}

/// Whether every lot still holds something.
pub open spec fn lots_all_open(lots: Seq<Lot>) -> bool {
    forall|k: int| 0 <= k < lots.len() ==> (#[trigger] lots[k]).amount_sat > 0
}

/// A lot that is used up leaves the set: where every lot held something before a
/// disposal, every lot left holds something after it, every take took something,
/// and no lot was added.
pub proof fn lemma_deplete_keeps_open(lots: Seq<Lot>, amount: nat, method: CostBasisMethod)
    requires
        lots_all_open(lots),
    ensures
        lots_all_open(deplete(lots, amount, method).0),
        forall|k: int|
            0 <= k < deplete(lots, amount, method).1.len() ==> (#[trigger] deplete(
                lots,
                amount,
                method,
            ).1[k]).disposed_sat > 0,
        deplete(lots, amount, method).0.len() <= lots.len(),
    decreases lots.len(), amount,
{
    if amount == 0 || lots.len() == 0 {
    } else {
        lemma_next_lot_in_range(lots, method);
        let i = next_lot(lots, method);
        if lots[i].amount_sat <= amount {
            let left = (amount - lots[i].amount_sat) as nat;
            let fewer = lots.remove(i);
            assert forall|k: int| 0 <= k < fewer.len() implies (#[trigger] fewer[k]).amount_sat
                > 0 by {
                if k < i {
                    assert(fewer[k] == lots[k]);
                } else {
                    assert(fewer[k] == lots[k + 1]);
                }
            }
            lemma_deplete_keeps_open(fewer, left, method);
            let rest = deplete(fewer, left, method).1;
            let all = seq![take_from(lots[i], lots[i].amount_sat)] + rest;
            assert forall|k: int| 0 <= k < all.len() implies (#[trigger] all[k]).disposed_sat
                > 0 by {
                if k > 0 {
                    assert(all[k] == rest[k - 1]);
                }
            }
        } else {
        }
    }
}

/// Largest price that the accounting takes: with it every sum of products of an
/// amount and a price fits the machine's widest signed integer.
pub const MAX_PRICE_CENTS: u64 = 0x7fff_ffff_ffff_ffff;

/// Whether no lot is priced above `MAX_PRICE_CENTS`.
pub open spec fn lots_priced_in_range(lots: Seq<Lot>) -> bool {
    forall|k: int| 0 <= k < lots.len() ==> (#[trigger] lots[k]).unit_price_cents <= MAX_PRICE_CENTS
}

/// Whether no take is priced above `MAX_PRICE_CENTS`.
pub open spec fn takes_priced_in_range(takes: Seq<Take>) -> bool {
    forall|k: int|
        0 <= k < takes.len() ==> (#[trigger] takes[k]).unit_price_cents <= MAX_PRICE_CENTS
}

/// A disposal brings no price into the lots or the takes that was not in the lots before.
pub proof fn lemma_deplete_prices(lots: Seq<Lot>, amount: nat, method: CostBasisMethod)
    requires
        lots_priced_in_range(lots),
    ensures
        lots_priced_in_range(deplete(lots, amount, method).0),
        takes_priced_in_range(deplete(lots, amount, method).1),
{
    lemma_prices_capped(lots, amount, method, MAX_PRICE_CENTS);
}

/// Cost basis of the lots: the sum over them of amount times unit price, in
/// hundred-millionths of a cent.
pub open spec fn lots_cost_basis(lots: Seq<Lot>) -> int
    decreases lots.len(),
{
    if lots.len() == 0 {
        0
    } else {
        lots_cost_basis(lots.drop_last()) + lots.last().amount_sat * lots.last().unit_price_cents
    }
}

/// With prices in range, the cost basis of lots is at most their balance times the largest price.
pub proof fn lemma_cost_basis_bound(lots: Seq<Lot>)
    requires
        lots_priced_in_range(lots),
    ensures
        0 <= lots_cost_basis(lots) <= lots_balance(lots) * MAX_PRICE_CENTS,
    decreases lots.len(),
{
    if lots.len() > 0 {
        let front = lots.drop_last();
        assert forall|k: int| 0 <= k < front.len() implies (#[trigger] front[k]).unit_price_cents
            <= MAX_PRICE_CENTS by {
            assert(front[k] == lots[k]);
        }
        lemma_cost_basis_bound(front);
        let a = lots.last().amount_sat as int;
        let p = lots.last().unit_price_cents as int;
        let b = lots_balance(front);
        let m = MAX_PRICE_CENTS as int;
        assert(0 <= a * p <= a * m) by (nonlinear_arith)
            requires
                0 <= a,
                0 <= p <= m,
        ;
        assert((b + a) * m == b * m + a * m) by (nonlinear_arith);
    }
}

/// The balance and the cost basis of the lots.
pub(crate) fn summarize_lots(lots: &Vec<Lot>) -> (totals: (u64, u128))
    requires
        lots_balance(lots@) <= u64::MAX,
        lots_priced_in_range(lots@),
    ensures
        totals.0 == lots_balance(lots@),
        totals.1 == lots_cost_basis(lots@),
{
    let mut balance: u64 = 0;
    let mut cost: u128 = 0;
    let mut k: usize = 0;
    while k < lots.len()
        invariant
            k <= lots.len(),
            balance == lots_balance(lots@.take(k as int)),
            cost == lots_cost_basis(lots@.take(k as int)),
            lots_balance(lots@) <= u64::MAX,
            lots_priced_in_range(lots@),
        decreases lots.len() - k,
    {
        let lot = lots[k];
        proof {
            let upto = lots@.take(k + 1);
            assert(upto.drop_last() =~= lots@.take(k as int));
            assert(lots@ =~= upto + lots@.skip(k + 1));
            lemma_balance_concat(upto, lots@.skip(k + 1));
            lemma_balance_nonnegative(lots@.skip(k + 1));
            assert forall|j: int| 0 <= j < upto.len() implies (#[trigger] upto[j]).unit_price_cents
                <= MAX_PRICE_CENTS by {
                assert(upto[j] == lots@[j]);
            }
            lemma_cost_basis_bound(upto);
            let b = lots_balance(upto);
            let m = MAX_PRICE_CENTS as int;
            assert(b * m <= 0xffff_ffff_ffff_ffff * m) by (nonlinear_arith)
                requires
                    0 <= b <= 0xffff_ffff_ffff_ffff,
                    0 <= m,
            ;
            let a = lot.amount_sat as int;
            let p = lot.unit_price_cents as int;
            assert(0 <= a * p <= 0xffff_ffff_ffff_ffff * m) by (nonlinear_arith)
                requires
                    0 <= a <= 0xffff_ffff_ffff_ffff,
                    0 <= p <= m,
            ;
        }
        balance = balance + lot.amount_sat;
        cost = cost + (lot.amount_sat as u128) * (lot.unit_price_cents as u128);
        k += 1;
    }
    assert(lots@.take(k as int) =~= lots@);
    (balance, cost)
}

/// A balance is never negative.
pub proof fn lemma_balance_nonnegative(lots: Seq<Lot>)
    ensures
        lots_balance(lots) >= 0,
    decreases lots.len(),
{
    if lots.len() > 0 {
        lemma_balance_nonnegative(lots.drop_last());
    }
}

/// Position of the lot that `method` consumes next; `None` where no lot is left.
pub fn select_lot(lots: &Vec<Lot>, method: CostBasisMethod) -> (next: Option<usize>)
    ensures
        next is None <==> lots@.len() == 0,
        next matches Some(i) ==> i == next_lot(lots@, method) && i < lots@.len(),
{
    if lots.len() == 0 {
        return None;
    }
    proof {
        lemma_next_lot_in_range(lots@, method);
    }
    match method {
        CostBasisMethod::Fifo => Some(0),
        CostBasisMethod::Lifo => Some(lots.len() - 1),
        CostBasisMethod::Hifo => {
            let mut best: usize = 0;
            let mut k: usize = 1;
            assert(lots@.take(1).len() == 1);
            while k < lots.len()
                invariant
                    1 <= k <= lots.len(),
                    best == highest_priced(lots@.take(k as int)),
                    best < k,
                decreases lots.len() - k,
            {
                assert(lots@.take(k + 1).drop_last() =~= lots@.take(k as int));
                if lots[k].unit_price_cents > lots[best].unit_price_cents {
                    best = k;
                }
                k += 1;
            }
            assert(lots@.take(k as int) =~= lots@);
            Some(best)
        },
    }
}

/// Disposes of `amount` satoshis from `lots` and returns the takes in the order consumed.
pub fn deplete_lots(lots: &mut Vec<Lot>, amount: u64, method: CostBasisMethod) -> (takes: Vec<Take>)
    ensures
        final(lots)@ == deplete(old(lots)@, amount as nat, method).0,
        takes@ == deplete(old(lots)@, amount as nat, method).1,
{
    let ghost start = lots@;
    let mut takes: Vec<Take> = Vec::new();
    let mut remaining: u64 = amount;
    while remaining > 0
        invariant
            deplete(start, amount as nat, method).0 == deplete(lots@, remaining as nat, method).0,
            deplete(start, amount as nat, method).1 == takes@ + deplete(
                lots@,
                remaining as nat,
                method,
            ).1,
        ensures
            remaining == 0 || lots@.len() == 0,
        decreases lots.len(), remaining,
    {
        let ghost before = lots@;
        let ghost taken = takes@;
        let i = match select_lot(lots, method) {
            Some(i) => i,
            None => {
                break ;
            },
        };
        let lot = lots[i];
        if lot.amount_sat <= remaining {
            takes.push(
                Take {
                    disposed_sat: lot.amount_sat,
                    unit_price_cents: lot.unit_price_cents,
                    acquired_day: lot.acquired_day,
                },
            );
            lots.remove(i);
            remaining = remaining - lot.amount_sat;
            proof {
                let rest = deplete(before.remove(i as int), remaining as nat, method);
                assert(takes@ + rest.1 =~= taken + (seq![take_from(lot, lot.amount_sat)] + rest.1));
            }
        } else {
            takes.push(
                Take {
                    disposed_sat: remaining,
                    unit_price_cents: lot.unit_price_cents,
                    acquired_day: lot.acquired_day,
                },
            );
            lots.set(
                i,
                Lot {
                    amount_sat: lot.amount_sat - remaining,
                    unit_price_cents: lot.unit_price_cents,
                    acquired_day: lot.acquired_day,
                },
            );
            proof {
                assert(takes@ + Seq::<Take>::empty() =~= taken + seq![take_from(lot, remaining)]);
            }
            remaining = 0;
        }
    }
    proof {
        assert(takes@ + Seq::<Take>::empty() =~= takes@);
    }
    takes
}

} // verus!
