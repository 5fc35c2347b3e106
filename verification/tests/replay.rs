use opacore::costbasis::{calculate_cost_basis, EntryType, LedgerEntry};
use opacore::lots::CostBasisMethod;

#[derive(Clone)]
struct OpenLot {
    amount: u64,
    price: u64,
}

struct Expected {
    disposed: Vec<(u64, u64, String)>,
    open: Vec<OpenLot>,
}

fn order(lots: &[OpenLot], method: CostBasisMethod) -> Vec<usize> {
    let mut positions: Vec<usize> = (0..lots.len()).collect();
    match method {
        CostBasisMethod::Fifo => {}
        CostBasisMethod::Lifo => positions.reverse(),
        CostBasisMethod::Hifo => positions.sort_by(|a, b| lots[*b].price.cmp(&lots[*a].price)),
    }
    positions
}

fn replay(ledger: &[LedgerEntry], method: CostBasisMethod) -> Expected {
    let mut open: Vec<OpenLot> = Vec::new();
    let mut disposed = Vec::new();
    for entry in ledger {
        match entry.entry_type {
            EntryType::Buy | EntryType::Receive => open.push(OpenLot {
                amount: entry.amount_sat,
                price: entry.price_cents.unwrap_or(0),
            }),
            EntryType::Sell | EntryType::Send => {
                let mut remaining = entry.amount_sat;
                for position in order(&open, method) {
                    if remaining == 0 {
                        break;
                    }
                    let taken = remaining.min(open[position].amount);
                    disposed.push((taken, open[position].price, entry.timestamp.clone()));
                    open[position].amount -= taken;
                    remaining -= taken;
                }
                open.retain(|lot| lot.amount > 0);
            }
            EntryType::Transfer => {}
        }
    }
    Expected { disposed, open }
}

fn ledger(seed: u64, len: usize) -> Vec<LedgerEntry> {
    let mut state = seed;
    let mut next = move |bound: u64| {
        state = state.wrapping_mul(6_364_136_223_846_793_005).wrapping_add(1_442_695_040_888_963_407);
        (state >> 33) % bound
    };
    (0..len)
        .map(|i| {
            let entry_type = match next(10) {
                0..=3 => EntryType::Buy,
                4 => EntryType::Receive,
                5..=6 => EntryType::Sell,
                7 => EntryType::Send,
                _ => EntryType::Transfer,
            };
            LedgerEntry {
                entry_type,
                amount_sat: 1 + next(5_000),
                price_cents: if next(7) == 0 { None } else { Some(100 * (1 + next(6))) },
                timestamp: format!("20{:02}-{:02}-{:02}T00:00:00.000Z", 10 + i / 336, 1 + (i / 28) % 12, 1 + i % 28),
            }
        })
        .collect()
}

#[test]
fn replay_agrees_with_sorting_the_lots_before_each_disposal() {
    for seed in 1..40u64 {
        let ledger = ledger(seed, 120);
        for method in [CostBasisMethod::Fifo, CostBasisMethod::Lifo, CostBasisMethod::Hifo] {
            let expected = replay(&ledger, method);
            let result = calculate_cost_basis(&ledger, method, None).unwrap();
            let disposed: Vec<(u64, u64, String)> = result
                .gains
                .iter()
                .map(|g| {
                    let price = if g.sell_amount_sat == 0 {
                        0
                    } else {
                        (g.cost_basis / g.sell_amount_sat as u128) as u64
                    };
                    (g.sell_amount_sat, price, g.sell_date.clone())
                })
                .collect();
            assert_eq!(disposed, expected.disposed, "seed {} method {:?}", seed, method);
            assert_eq!(result.remaining_lots, expected.open.len());
            assert_eq!(
                result.remaining_balance_sat,
                expected.open.iter().map(|lot| lot.amount).sum::<u64>()
            );
            assert_eq!(
                result.remaining_cost_basis,
                expected.open.iter().map(|lot| lot.amount as u128 * lot.price as u128).sum::<u128>()
            );
            let acquired: u64 = ledger
                .iter()
                .filter(|e| matches!(e.entry_type, EntryType::Buy | EntryType::Receive))
                .map(|e| e.amount_sat)
                .sum();
            assert_eq!(result.total_disposed_sat + result.remaining_balance_sat, acquired);
        }
    }
}

#[test]
fn year_filter_never_changes_what_is_left() {
    for seed in 1..20u64 {
        let ledger = ledger(seed, 400);
        for method in [CostBasisMethod::Fifo, CostBasisMethod::Lifo, CostBasisMethod::Hifo] {
            let all = calculate_cost_basis(&ledger, method, None).unwrap();
            let mut reported = 0;
            for year in 2009..2013 {
                let part = calculate_cost_basis(&ledger, method, Some(year)).unwrap();
                assert_eq!(part.remaining_lots, all.remaining_lots);
                assert_eq!(part.remaining_balance_sat, all.remaining_balance_sat);
                assert_eq!(part.remaining_cost_basis, all.remaining_cost_basis);
                assert_eq!(part.total_disposed_sat, all.total_disposed_sat);
                assert!(part.gains.iter().all(|g| g.sell_date.starts_with(&year.to_string())));
                assert_eq!(
                    part.total_realized_gain,
                    part.total_short_term_gain + part.total_long_term_gain
                );
                reported += part.gains.len();
            }
            assert_eq!(reported, all.gains.len());
        }
    }
}
