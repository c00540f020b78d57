//! The smallest requester: it keeps nothing, and reads the price that the
//! broker delivers.

use crate::price::{decode_price, price_of, price_view, PriceError};
use vstd::prelude::*;

verus! {

/// A requester without state.
#[derive(Debug, Default)]
pub struct ClientContract {}

impl ClientContract {
    /// Takes an answer of the broker and returns the price that it stands
    /// for, for the host to report.
    pub fn token_price_callback(&mut self, price: String) -> (r: Result<String, PriceError>)
        ensures
            price_view(r) == price_of(price@),
    {
        decode_price(&price)
    }
}

} // verus!
