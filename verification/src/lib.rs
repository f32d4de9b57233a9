//! Cross-exchange limit order book: the verified core of an arbitrage
//! watcher that merges the order books of several exchanges.
mod exchange;
mod feed;
mod laws;
mod lob;
mod subscribe;

pub use exchange::{
    lemma_exchange_id_by_sender, spec_exchange_id, spec_levels, BookLevels, ExchangeData, DERIBIT_EXCHANGE_ID, OKX_EXCHANGE_ID,
};
pub use feed::{
    feed_action, lemma_feed_rule, spec_feed_action, spec_keeps_reading, FeedAction, FeedEvent};
pub use laws::{
    lemma_message_book_files_all_levels, lemma_message_keeps_other_exchanges, lemma_update_empty, lemma_update_idempotent,
    lemma_update_overwrites_levels, lemma_updates_compose,
};
pub use lob::{
    is_last_level_at, leg_files_levels, leg_from_levels, lemma_levels_leg_lookup, levels_leg, merge_books,
    merge_leg, message_book, BookView, CrossExchangeLOB, ExchangeId, LegView, LobLeg,
};
pub use subscribe::{
    deribit_channel_text, deribit_subscribe_text, json_string_text, lemma_deribit_channel_shape,
    lemma_deribit_request_shape, lemma_okx_request_shape, okx_subscribe_text, CliArgs,
};
