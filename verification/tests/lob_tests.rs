use std::collections::BTreeMap;

use crypbitrage::{
    leg_from_levels, merge_leg, BookLevels, CrossExchangeLOB, ExchangeData, LobLeg,
    DERIBIT_EXCHANGE_ID, OKX_EXCHANGE_ID,
};

fn leg(entries: &[((u64, u8), u64)]) -> LobLeg {
    entries.iter().cloned().collect()
}

#[test]
fn new_book_is_empty() {
    let lob = CrossExchangeLOB::new();
    assert!(lob.asks.is_empty());
    assert!(lob.bids.is_empty());
    let lob = CrossExchangeLOB::default();
    assert!(lob.asks.is_empty());
    assert!(lob.bids.is_empty());
}

#[test]
fn levels_are_filed_under_their_exchange() {
    let l = leg_from_levels(&vec![(10, 5), (12, 7)], 3);
    assert_eq!(l, leg(&[((10, 3), 5), ((12, 3), 7)]));
}

#[test]
fn later_level_at_same_price_wins() {
    let l = leg_from_levels(&vec![(10, 5), (11, 1), (10, 9)], 0);
    assert_eq!(l, leg(&[((10, 0), 9), ((11, 0), 1)]));
}

#[test]
fn empty_levels_give_empty_leg() {
    assert!(leg_from_levels(&vec![], 1).is_empty());
}

#[test]
fn merge_overwrites_and_keeps() {
    let mut target = leg(&[((10, 0), 5), ((11, 0), 6)]);
    let source = leg(&[((10, 0), 0), ((12, 1), 8)]);
    merge_leg(&mut target, &source);
    assert_eq!(target, leg(&[((10, 0), 0), ((11, 0), 6), ((12, 1), 8)]));
}

#[test]
fn update_writes_both_legs() {
    let mut lob = CrossExchangeLOB::from_levels(&vec![(100, 1)], &vec![(90, 2)], 0);
    let other = CrossExchangeLOB::from_levels(&vec![(100, 4), (101, 3)], &vec![(89, 1)], 0);
    lob.update(other);
    assert_eq!(lob.asks, leg(&[((100, 0), 4), ((101, 0), 3)]));
    assert_eq!(lob.bids, leg(&[((89, 0), 1), ((90, 0), 2)]));
}

#[test]
fn update_from_other_exchange_keeps_levels_at_same_price() {
    let mut lob = CrossExchangeLOB::from_exchange_data(ExchangeData::Okx(BookLevels {
        asks: vec![(100, 1)],
        bids: vec![(90, 2)],
    }));
    lob.apply_exchange_data(ExchangeData::Deribit(BookLevels {
        asks: vec![(100, 7)],
        bids: vec![],
    }));
    assert_eq!(lob.asks, leg(&[((100, OKX_EXCHANGE_ID), 1), ((100, DERIBIT_EXCHANGE_ID), 7)]));
    assert_eq!(lob.bids, leg(&[((90, OKX_EXCHANGE_ID), 2)]));
}

#[test]
fn exchange_ids() {
    assert_eq!(OKX_EXCHANGE_ID, 0);
    assert_eq!(DERIBIT_EXCHANGE_ID, 1);
    let okx = ExchangeData::Okx(BookLevels { asks: vec![], bids: vec![] });
    let deribit = ExchangeData::Deribit(BookLevels { asks: vec![], bids: vec![] });
    assert_eq!(okx.exchange_id(), 0);
    assert_eq!(deribit.exchange_id(), 1);
}

#[test]
fn updates_compose_on_values() {
    let base = || CrossExchangeLOB::from_levels(&vec![(1, 1), (2, 2)], &vec![], 0);
    let first = || CrossExchangeLOB::from_levels(&vec![(2, 5), (3, 3)], &vec![(7, 7)], 0);
    let second = || CrossExchangeLOB::from_levels(&vec![(3, 9)], &vec![(7, 1)], 0);
    let mut one_by_one = base();
    one_by_one.update(first());
    one_by_one.update(second());
    let mut combined = first();
    combined.update(second());
    let mut at_once = base();
    at_once.update(combined);
    assert_eq!(one_by_one.asks, at_once.asks);
    assert_eq!(one_by_one.bids, at_once.bids);
}

#[test]
fn update_is_idempotent_and_empty_is_identity() {
    let mut lob = CrossExchangeLOB::from_levels(&vec![(1, 1)], &vec![(2, 2)], 1);
    let snapshot: (BTreeMap<(u64, u8), u64>, BTreeMap<(u64, u8), u64>) =
        (lob.asks.clone(), lob.bids.clone());
    lob.update(CrossExchangeLOB::new());
    assert_eq!((lob.asks.clone(), lob.bids.clone()), snapshot);
    let upd = || CrossExchangeLOB::from_levels(&vec![(1, 3)], &vec![], 1);
    lob.update(upd());
    let once = (lob.asks.clone(), lob.bids.clone());
    lob.update(upd());
    assert_eq!((lob.asks.clone(), lob.bids.clone()), once);
    assert_eq!(once.0, leg(&[((1, 1), 3)]));
}
