use vstd::prelude::*;
use vstd::string::StringSliceAdditionalSpecFns;

verus! {

/// Largest age, in seconds, of a price point that is still served.
pub const PRICE_MAX_AGE: u64 = 60;

/// One price point of an external feed.
#[derive(Debug, Clone, Copy, PartialEq, Eq)]
pub struct FeedPrice {
    pub price: i64,
    pub conf: u64,
    pub expo: i32,
    pub publish_time: i64,
}

/// What the external feed service answers for one identifier.
#[derive(Debug, Clone, Copy, PartialEq, Eq)]
pub struct PriceFeed {
    pub id: [u8; 32],
    pub price: FeedPrice,
    pub ema_price: FeedPrice,
}

pub open spec fn abs_diff(a: int, b: int) -> int {
    if a >= b {
        a - b
    } else {
        b - a
    }
}

/// The price point of `feed` if it was published within `age` seconds of `current_time`.
pub open spec fn recent_price(feed: PriceFeed, current_time: i64, age: u64) -> Option<FeedPrice> {
    if abs_diff(feed.price.publish_time as int, current_time as int) <= age as int {
        Some(feed.price)
    } else {
        None
    }
}

/// Relies on pyth_sdk::PriceFeed::get_price_no_older_than: it returns the current price
/// point exactly when its publish time differs from `current_time` by at most `age`.
/// The difference must fit in an `i64` and have an absolute value, else the call panics.
#[verifier::external_body]
fn price_no_older_than(feed: &PriceFeed, current_time: i64, age: u64) -> (r: Option<FeedPrice>)
    requires
        i64::MIN < feed.price.publish_time - current_time <= i64::MAX,
    ensures
        r == recent_price(*feed, current_time, age),
{
    let to_pyth = |p: FeedPrice| pyth_sdk_cw::Price {
        price: p.price,
        conf: p.conf,
        expo: p.expo,
        publish_time: p.publish_time,
    };
    let outside = pyth_sdk_cw::PriceFeed::new(
        pyth_sdk_cw::PriceIdentifier::new(feed.id),
        to_pyth(feed.price),
        to_pyth(feed.ema_price),
    );
    match outside.get_price_no_older_than(current_time, age) {
        Some(p) => Some(FeedPrice { price: p.price, conf: p.conf, expo: p.expo, publish_time: p.publish_time }),
        None => None,
    }
}

/// The current price point of `feed`, when it is at most `PRICE_MAX_AGE` seconds away
/// from `current_time`. A difference too large for an `i64` is never recent.
pub fn current_price(feed: &PriceFeed, current_time: i64) -> (r: Option<FeedPrice>)
    ensures
        r == recent_price(*feed, current_time, PRICE_MAX_AGE),
{
    let t = feed.price.publish_time;
    if (current_time >= 0 && t < i64::MIN + 1 + current_time) || (current_time < 0 && t
        > i64::MAX + current_time) {
        None
    } else {
        price_no_older_than(feed, current_time, PRICE_MAX_AGE)
    }
}

/// A price point published exactly `PRICE_MAX_AGE` seconds before the current time is
/// still served; one published a second earlier is not.
pub proof fn lemma_staleness_boundary(feed: PriceFeed, current_time: i64)
    ensures
        feed.price.publish_time == current_time - 60 ==> recent_price(
            feed,
            current_time,
            PRICE_MAX_AGE,
        ) == Some(feed.price),
        feed.price.publish_time == current_time - 61 ==> recent_price(
            feed,
            current_time,
            PRICE_MAX_AGE,
        ) is None,
{
}

/// The value of an ASCII hexadecimal digit, or -1 for any other byte.
pub open spec fn hex_digit_value(b: u8) -> int {
    if 48 <= b <= 57 {
        b - 48
    } else if 97 <= b <= 102 {
        b - 87
    } else if 65 <= b <= 70 {
        b - 55
    } else {
        -1
    }
}

/// `s` is the text of a 32-byte identifier: 64 hexadecimal digits.
pub open spec fn is_id_hex(s: Seq<u8>) -> bool {
    s.len() == 64 && forall|i: int| 0 <= i < 64 ==> hex_digit_value(#[trigger] s[i]) >= 0
}

/// `bytes` is what the hexadecimal text `s` stands for, two digits per byte, high digit first.
pub open spec fn hex_decodes_to(s: Seq<u8>, bytes: Seq<u8>) -> bool {
    s.len() == 2 * bytes.len() && forall|i: int|
        0 <= i < bytes.len() ==> #[trigger] bytes[i] == 16 * hex_digit_value(s[2 * i])
            + hex_digit_value(s[2 * i + 1])
}

/// Relies on pyth_sdk::Identifier::from_hex, which fills 32 bytes through
/// hex::decode_to_slice: it succeeds exactly on 64 digits of either case.
#[verifier::external_body]
pub(crate) fn decode_price_id(s: &str) -> (r: Option<[u8; 32]>)
    ensures
        r.is_some() == is_id_hex(s.spec_bytes()),
        r matches Some(b) ==> hex_decodes_to(s.spec_bytes(), b@),
{
    match pyth_sdk_cw::PriceIdentifier::from_hex(s) {
        Ok(id) => Some(id.to_bytes()),
        Err(_) => None,
    }
}

} // verus!
