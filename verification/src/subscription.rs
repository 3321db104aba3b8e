//! The request that subscribes to the book's feed.

use vstd::prelude::*;

verus! {

/// What a subscription asks for: a channel, the symbols and a depth.
#[derive(Debug)]
pub struct SubscriptionParams {
    pub channel: String,
    pub symbol: Vec<String>,
    pub depth: i32,
}

/// A request to the feed.
#[derive(Debug)]
pub struct Subscription {
    pub method: String,
    pub params: SubscriptionParams,
}

/// The subscription to the book channel for the one instrument that the
/// book follows, twenty-five levels deep.
pub fn get_subscription() -> (subscription: Subscription)
    ensures
        subscription.method@ == "subscribe"@,
        subscription.params.channel@ == "book"@,
        subscription.params.symbol@.len() == 1,
        subscription.params.symbol@[0]@ == "BTC/USD"@,
        subscription.params.depth == 25,
{
    let mut symbol: Vec<String> = Vec::new();
    symbol.push("BTC/USD".to_owned());
    Subscription {
        method: "subscribe".to_owned(),
        params: SubscriptionParams { channel: "book".to_owned(), symbol, depth: 25 },
    }
}

} // verus!
