use std::collections::BTreeMap;
use vstd::prelude::*;
use vstd::std_specs::iter::IteratorSpec;

use crate::exchange::{spec_exchange_id, spec_levels, ExchangeData};

verus! {

broadcast use vstd::laws_cmp::group_laws_cmp;

/// A map of book levels: `(price key, exchange)` to quantity.
pub type LegView = Map<(u64, u8), u64>;

/// Identifies the exchange an order book level came from.
pub type ExchangeId = u8;

/// One side (bids or asks) of the combined book: each `(price key, exchange)`
/// level maps to the quantity resting there.
pub type LobLeg = BTreeMap<(u64, u8), u64>;

/// The map that a sequence of iterated `(key, value)` entries describes,
/// later entries replacing earlier ones with the same key.
pub open spec fn entries_map(s: Seq<(&(u64, u8), &u64)>) -> Map<(u64, u8), u64>
    decreases s.len(),
{
    if s.len() == 0 {
        Map::empty()
    } else {
        entries_map(s.drop_last()).insert(*s.last().0, *s.last().1)
    }
}

/// Every key that `entries_map(s)` holds comes from some entry of `s`,
/// and when each entry agrees with `m`, so does the map built from them.
proof fn lemma_entries_map_agrees(s: Seq<(&(u64, u8), &u64)>, m: Map<(u64, u8), u64>)
    requires
        forall|i: int| 0 <= i < s.len() ==> m.contains_key(*s[i].0) && m[*s[i].0] == *s[i].1,
    ensures
        forall|k: (u64, u8)| #[trigger] entries_map(s).contains_key(k) <==> exists|i: int| 0 <= i < s.len() && *s[i].0 == k,
        forall|k: (u64, u8)| #[trigger] entries_map(s).contains_key(k) ==> entries_map(s)[k] == m[k],
    decreases s.len(),
{
    if s.len() > 0 {
        let t = s.drop_last();
        lemma_entries_map_agrees(t, m);
        let last = s[s.len() - 1];
        assert(m.contains_key(*last.0) && m[*last.0] == *last.1);
        assert(entries_map(s) == entries_map(t).insert(*last.0, *last.1));
        assert forall|k: (u64, u8)| #[trigger] entries_map(s).contains_key(k) implies entries_map(s)[k] == m[k] by {
            if k != *last.0 {
                assert(entries_map(t).contains_key(k));
            }
        }
        assert forall|k: (u64, u8)| #[trigger] entries_map(s).contains_key(k) <==> exists|i: int| 0 <= i < s.len() && *s[i].0 == k by {
            if exists|i: int| 0 <= i < s.len() && *s[i].0 == k {
                let i = choose|i: int| 0 <= i < s.len() && *s[i].0 == k;
                if i < s.len() - 1 {
                    assert(*t[i].0 == k);
                }
            }
            if entries_map(t).contains_key(k) {
                let i = choose|i: int| 0 <= i < t.len() && *t[i].0 == k;
                assert(*s[i].0 == k);
            }
        }
    }
}

/// Iterating a leg visits exactly its levels, so the entries describe the leg.
proof fn lemma_entries_map_of_leg(leg: &LobLeg)
    ensures
        entries_map(leg.iter().remaining()) == leg@,
{
    let s = leg.iter().remaining();
    lemma_entries_map_agrees(s, leg@);
    assert forall|k: (u64, u8)| leg@.contains_key(k) implies #[trigger] entries_map(s).contains_key(k) by {
        assert(s.contains((&k, &leg@[k])));
        let i = choose|i: int| 0 <= i < s.len() && s[i] == (&k, &leg@[k]);
        assert(*s[i].0 == k);
    }
    assert(entries_map(s) =~= leg@);
}

/// Inserts every level of `source` into `target`, overwriting the quantity
/// of levels that `target` already holds.
pub fn merge_leg(target: &mut LobLeg, source: &LobLeg)
    ensures
        final(target)@ == old(target)@.union_prefer_right(source@),
{
    let ghost start = target@;
    let ghost entries = source.iter().remaining();
    for entry in it: source.iter()
        invariant
            it.seq() == entries,
            target@ == start.union_prefer_right(entries_map(entries.take(it.index() as int))),
    {
        assert(entry == it.seq()[it.index() as int]);
        let (k, v) = entry;
        let ghost before = it.seq().take(it.index() as int);
        assert(it.seq().take(it.index() + 1).drop_last() =~= before);
        target.insert(*k, *v);
        assert(target@ =~= start.union_prefer_right(entries_map(before).insert(*k, *v)));
    }
    assert(entries.take(entries.len() as int) =~= entries);
    assert(target@ == start.union_prefer_right(entries_map(entries)));
    proof {
        lemma_entries_map_of_leg(source);
    }
}

/// The leg that a list of `(price key, quantity)` levels from one exchange
/// describes: each level is filed under `(price key, exchange)`, and a later
/// level at the same price replaces an earlier one.
pub open spec fn levels_leg(levels: Seq<(u64, u64)>, exchange: u8) -> LegView
    decreases levels.len(),
{
    if levels.len() == 0 {
        Map::empty()
    } else {
        levels_leg(levels.drop_last(), exchange).insert(
            (levels.last().0, exchange),
            levels.last().1,
        )
    }
}

/// Index `i` holds the last level of `levels` quoted at `price`.
pub open spec fn is_last_level_at(levels: Seq<(u64, u64)>, price: u64, i: int) -> bool {
    &&& 0 <= i < levels.len()
    &&& levels[i].0 == price
    &&& forall|j: int| i < j < levels.len() ==> #[trigger] levels[j].0 != price
}

/// `leg` files exactly the given levels under `exchange`: it holds a key if and
/// only if the key names `exchange` and some level quotes its price, and each
/// key holds the quantity of the last level quoted at that price.
pub open spec fn leg_files_levels(leg: LegView, levels: Seq<(u64, u64)>, exchange: u8) -> bool {
    &&& forall|key: (u64, u8)| #[trigger]
        leg.contains_key(key) <==> (key.1 == exchange && exists|i: int|
            0 <= i < levels.len() && levels[i].0 == key.0)
    &&& forall|key: (u64, u8)| #[trigger]
        leg.contains_key(key) ==> exists|i: int|
            is_last_level_at(levels, key.0, i) && leg[key] == levels[i].1
}

/// What a leg built from levels holds: exactly the prices quoted, under the
/// given exchange, each with the quantity of the last level at that price.
pub proof fn lemma_levels_leg_lookup(levels: Seq<(u64, u64)>, exchange: u8)
    ensures
        forall|key: (u64, u8)| #[trigger]
            levels_leg(levels, exchange).contains_key(key) <==> (key.1 == exchange && exists|
                i: int,
            | 0 <= i < levels.len() && levels[i].0 == key.0),
        forall|key: (u64, u8)| #[trigger]
            levels_leg(levels, exchange).contains_key(key) ==> exists|i: int|
                is_last_level_at(levels, key.0, i) && levels_leg(levels, exchange)[key]
                    == levels[i].1,
    decreases levels.len(),
{
    if levels.len() > 0 {
        let t = levels.drop_last();
        let n = levels.len() - 1;
        lemma_levels_leg_lookup(t, exchange);
        assert(levels_leg(levels, exchange) == levels_leg(t, exchange).insert(
            (levels[n].0, exchange),
            levels[n].1,
        ));
        assert forall|key: (u64, u8)| #[trigger]
            levels_leg(levels, exchange).contains_key(key) <==> (key.1 == exchange && exists|
                i: int,
            | 0 <= i < levels.len() && levels[i].0 == key.0) by {
            if key.1 == exchange && exists|i: int| 0 <= i < levels.len() && levels[i].0 == key.0 {
                let i = choose|i: int| 0 <= i < levels.len() && levels[i].0 == key.0;
                if i < n {
                    assert(t[i].0 == key.0);
                }
            }
            if levels_leg(t, exchange).contains_key(key) {
                let i = choose|i: int| 0 <= i < t.len() && t[i].0 == key.0;
                assert(levels[i].0 == key.0);
            }
        }
        assert forall|key: (u64, u8)| #[trigger]
            levels_leg(levels, exchange).contains_key(key) implies exists|i: int|
                is_last_level_at(levels, key.0, i) && levels_leg(levels, exchange)[key]
                    == levels[i].1 by {
            if key == (levels[n].0, exchange) {
                assert(is_last_level_at(levels, key.0, n));
            } else {
                assert(levels_leg(t, exchange).contains_key(key));
                let i = choose|i: int|
                    is_last_level_at(t, key.0, i) && levels_leg(t, exchange)[key] == t[i].1;
                assert(levels[n].0 != key.0);
                assert forall|j: int| i < j < levels.len() implies #[trigger] levels[j].0 != key.0 by {
                    if j < n {
                        assert(t[j].0 != key.0);
                    }
                }
                assert(is_last_level_at(levels, key.0, i));
            }
        }
    }
}

/// Files a list of `(price key, quantity)` levels from one exchange into a leg.
pub fn leg_from_levels(levels: &Vec<(u64, u64)>, exchange: ExchangeId) -> (leg: LobLeg)
    ensures
        leg@ == levels_leg(levels@, exchange),
{
    let mut leg: LobLeg = BTreeMap::new();
    let n = levels.len();
    let mut i: usize = 0;
    while i < n
        invariant
            n == levels@.len(),
            i <= n,
            leg@ == levels_leg(levels@.take(i as int), exchange),
        decreases n - i,
    {
        let (price, quantity) = levels[i];
        assert(levels@.take(i + 1).drop_last() =~= levels@.take(i as int));
        leg.insert((price, exchange), quantity);
        i = i + 1;
    }
    assert(levels@.take(n as int) =~= levels@);
    leg
}

/// Both legs of a book, asks first.
pub type BookView = (LegView, LegView);

/// The book that results from writing the levels of `update` over `book`:
/// a level present in `update` takes its quantity from there, every other
/// level is kept.
pub open spec fn merge_books(book: BookView, update: BookView) -> BookView {
    (book.0.union_prefer_right(update.0), book.1.union_prefer_right(update.1))
}

/// The book that one exchange message describes.
pub open spec fn message_book(data: ExchangeData) -> BookView {
    (
        levels_leg(spec_levels(data).asks@, spec_exchange_id(data)),
        levels_leg(spec_levels(data).bids@, spec_exchange_id(data)),
    )
}

/// Limit order book combined across exchanges: asks and bids, each level
/// keyed by its price key and the exchange that quotes it.
#[derive(Debug)]
pub struct CrossExchangeLOB {
    pub asks: LobLeg,
    pub bids: LobLeg,
}

impl View for CrossExchangeLOB {
    type V = BookView;

    open spec fn view(&self) -> BookView {
        (self.asks@, self.bids@)
    }
}

impl CrossExchangeLOB {
    /// An empty book.
    pub fn new() -> (lob: Self)
        ensures
            lob@ == (LegView::empty(), LegView::empty()),
    {
        CrossExchangeLOB { asks: BTreeMap::new(), bids: BTreeMap::new() }
    }

    /// Writes every level of `other` into this book; a level this book
    /// already has takes the quantity that `other` gives it.
    pub fn update(&mut self, other: CrossExchangeLOB)
        ensures
            final(self)@ == merge_books(old(self)@, other@),
    {
        merge_leg(&mut self.asks, &other.asks);
        merge_leg(&mut self.bids, &other.bids);
    }

    /// The book of one exchange's levels, filed under `exchange`.
    pub fn from_levels(asks: &Vec<(u64, u64)>, bids: &Vec<(u64, u64)>, exchange: ExchangeId) -> (lob: Self)
        ensures
            lob@ == (levels_leg(asks@, exchange), levels_leg(bids@, exchange)),
    {
        CrossExchangeLOB { asks: leg_from_levels(asks, exchange), bids: leg_from_levels(bids, exchange) }
    }

    /// The book that an exchange message describes, its levels filed under
    /// the id of the exchange that sent it.
    pub fn from_exchange_data(data: ExchangeData) -> (lob: Self)
        ensures
            lob@ == message_book(data),
            lob.asks@ == levels_leg(spec_levels(data).asks@, spec_exchange_id(data)),
            lob.bids@ == levels_leg(spec_levels(data).bids@, spec_exchange_id(data)),
            leg_files_levels(lob.asks@, spec_levels(data).asks@, spec_exchange_id(data)),
            leg_files_levels(lob.bids@, spec_levels(data).bids@, spec_exchange_id(data)),
    {
        proof {
            lemma_levels_leg_lookup(spec_levels(data).asks@, spec_exchange_id(data));
            lemma_levels_leg_lookup(spec_levels(data).bids@, spec_exchange_id(data));
        }
        let exchange = data.exchange_id();
        match data {
            ExchangeData::Okx(levels) => Self::from_levels(&levels.asks, &levels.bids, exchange),
            ExchangeData::Deribit(levels) => Self::from_levels(&levels.asks, &levels.bids, exchange),
        }
    }

    /// Folds one exchange message into the book.
    pub fn apply_exchange_data(&mut self, data: ExchangeData)
        ensures
            final(self)@ == merge_books(old(self)@, message_book(data)),
    {
        let update = Self::from_exchange_data(data);
        self.update(update);
    }
}

impl Default for CrossExchangeLOB {
    fn default() -> (lob: Self)
        ensures
            lob@ == (LegView::empty(), LegView::empty()),
    {
        Self::new()
    }
}

} // verus!
