use vstd::prelude::*;

verus! {

/// Exchange id under which OKX levels are filed in the combined book.
pub const OKX_EXCHANGE_ID: u8 = 0;

/// Exchange id under which Deribit levels are filed in the combined book.
pub const DERIBIT_EXCHANGE_ID: u8 = 1;

/// The two sides of one book message from an exchange, each level a
/// `(price key, quantity)` pair in the order the exchange sent them.
pub struct BookLevels {
    pub asks: Vec<(u64, u64)>,
    pub bids: Vec<(u64, u64)>,
}

/// A book message, tagged by the exchange that sent it.
pub enum ExchangeData {
    Okx(BookLevels),
    Deribit(BookLevels),
}

/// The exchange id that a message's levels are filed under.
pub open spec fn spec_exchange_id(data: ExchangeData) -> u8 {
    match data {
        ExchangeData::Okx(_) => OKX_EXCHANGE_ID,
        ExchangeData::Deribit(_) => DERIBIT_EXCHANGE_ID,
    }
}

/// The levels that a message carries, whatever exchange sent it.
pub open spec fn spec_levels(data: ExchangeData) -> BookLevels {
    match data {
        ExchangeData::Okx(levels) => levels,
        ExchangeData::Deribit(levels) => levels,
    }
}

impl ExchangeData {
    /// The exchange id that this message's levels are filed under.
    pub fn exchange_id(&self) -> (id: u8)
        ensures
            id == spec_exchange_id(*self),
            *self is Okx ==> id == 0,
            *self is Deribit ==> id == 1,
    {
        match self {
            ExchangeData::Okx(_) => OKX_EXCHANGE_ID,
            ExchangeData::Deribit(_) => DERIBIT_EXCHANGE_ID,
        }
    }
}

/// The exchange id of a message depends on the sending exchange alone:
/// every OKX message is filed under 0 and every Deribit message under 1,
/// whatever levels it carries, and the levels a message carries are the
/// ones it was built with.
pub proof fn lemma_exchange_id_by_sender(levels: BookLevels)
    ensures
        spec_exchange_id(ExchangeData::Okx(levels)) == 0u8,
        spec_exchange_id(ExchangeData::Deribit(levels)) == 1u8,
        OKX_EXCHANGE_ID == 0u8,
        DERIBIT_EXCHANGE_ID == 1u8,
        spec_levels(ExchangeData::Okx(levels)) == levels,
        spec_levels(ExchangeData::Deribit(levels)) == levels,
{
}

} // verus!
