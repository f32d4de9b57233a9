use vstd::prelude::*;

use crate::exchange::{spec_exchange_id, spec_levels, ExchangeData};
use crate::lob::{is_last_level_at, lemma_levels_leg_lookup, merge_books, message_book, BookView, LegView};

verus! {

/// An update to a price level sets its new total quantity: after merging,
/// every level the update holds has the update's quantity, and every level
/// it does not hold is exactly as it was in the book.
pub proof fn lemma_update_overwrites_levels(book: BookView, update: BookView)
    ensures
        forall|key: (u64, u8)| #[trigger]
            update.0.contains_key(key) ==> merge_books(book, update).0.contains_key(key)
                && merge_books(book, update).0[key] == update.0[key],
        forall|key: (u64, u8)| #[trigger]
            update.1.contains_key(key) ==> merge_books(book, update).1.contains_key(key)
                && merge_books(book, update).1[key] == update.1[key],
        forall|key: (u64, u8)|
            !update.0.contains_key(key) ==> #[trigger] merge_books(book, update).0.get(key)
                == book.0.get(key),
        forall|key: (u64, u8)|
            !update.1.contains_key(key) ==> #[trigger] merge_books(book, update).1.get(key)
                == book.1.get(key),
{
}

/// A message from one exchange never changes the levels that another
/// exchange quotes in the combined book.
pub proof fn lemma_message_keeps_other_exchanges(book: BookView, data: ExchangeData)
    ensures
        forall|key: (u64, u8)|
            key.1 != spec_exchange_id(data) ==> #[trigger] merge_books(book, message_book(data)).0.get(key)
                == book.0.get(key),
        forall|key: (u64, u8)|
            key.1 != spec_exchange_id(data) ==> #[trigger] merge_books(book, message_book(data)).1.get(key)
                == book.1.get(key),
{
    let m = message_book(data);
    lemma_levels_leg_lookup(spec_levels(data).asks@, spec_exchange_id(data));
    lemma_levels_leg_lookup(spec_levels(data).bids@, spec_exchange_id(data));
    assert forall|key: (u64, u8)| key.1 != spec_exchange_id(data) implies !m.0.contains_key(key) && !m.1.contains_key(key) by {}
}

/// Two updates applied one after the other give the same book as the single
/// update obtained by merging the second into the first.
pub proof fn lemma_updates_compose(book: BookView, first: BookView, second: BookView)
    ensures
        merge_books(merge_books(book, first), second) == merge_books(book, merge_books(first, second)),
{
    assert(merge_books(merge_books(book, first), second).0 =~= merge_books(book, merge_books(first, second)).0);
    assert(merge_books(merge_books(book, first), second).1 =~= merge_books(book, merge_books(first, second)).1);
}

/// Applying the same update a second time changes nothing.
pub proof fn lemma_update_idempotent(book: BookView, update: BookView)
    ensures
        merge_books(merge_books(book, update), update) == merge_books(book, update),
{
    assert(merge_books(merge_books(book, update), update).0 =~= merge_books(book, update).0);
    assert(merge_books(merge_books(book, update), update).1 =~= merge_books(book, update).1);
}

/// An empty update leaves a book as it is, and updating an empty book
/// yields the update itself.
pub proof fn lemma_update_empty(book: BookView)
    ensures
        merge_books(book, (LegView::empty(), LegView::empty())) == book,
        merge_books((LegView::empty(), LegView::empty()), book) == book,
{
    assert(merge_books(book, (LegView::empty(), LegView::empty())).0 =~= book.0);
    assert(merge_books(book, (LegView::empty(), LegView::empty())).1 =~= book.1);
    assert(merge_books((LegView::empty(), LegView::empty()), book).0 =~= book.0);
    assert(merge_books((LegView::empty(), LegView::empty()), book).1 =~= book.1);
}

/// The book of a message files every level it carries, on both sides, under
/// the id of the exchange that sent it (0 for OKX, 1 for Deribit): a side of
/// the book holds `(p, id)` exactly when some level of the same side of the
/// message quotes price `p`, with the quantity of the last such level.
pub proof fn lemma_message_book_files_all_levels(data: ExchangeData)
    ensures
        ({
            let id = if data is Okx { 0u8 } else { 1u8 };
            let asks = spec_levels(data).asks@;
            let bids = spec_levels(data).bids@;
            &&& forall|p: u64| #[trigger]
                message_book(data).0.contains_key((p, id)) <==> exists|i: int|
                    0 <= i < asks.len() && asks[i].0 == p
            &&& forall|p: u64| #[trigger]
                message_book(data).1.contains_key((p, id)) <==> exists|i: int|
                    0 <= i < bids.len() && bids[i].0 == p
            &&& forall|key: (u64, u8)| #[trigger]
                message_book(data).0.contains_key(key) ==> key.1 == id
            &&& forall|key: (u64, u8)| #[trigger]
                message_book(data).1.contains_key(key) ==> key.1 == id
            &&& forall|p: u64| #[trigger]
                message_book(data).0.contains_key((p, id)) ==> exists|i: int|
                    is_last_level_at(asks, p, i) && message_book(data).0[(p, id)] == asks[i].1
            &&& forall|p: u64| #[trigger]
                message_book(data).1.contains_key((p, id)) ==> exists|i: int|
                    is_last_level_at(bids, p, i) && message_book(data).1[(p, id)] == bids[i].1
        }),
{
    lemma_levels_leg_lookup(spec_levels(data).asks@, spec_exchange_id(data));
    lemma_levels_leg_lookup(spec_levels(data).bids@, spec_exchange_id(data));
}

} // verus!
