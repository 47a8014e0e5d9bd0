use vstd::prelude::*;

use anchor_lang::AccountDeserialize;
use pyth_solana_receiver_sdk::price_update::PriceUpdateV2;

use crate::errors::ErrorCode;
use crate::state::Key;

verus! {

/// The `(price, exponent)` that the Pyth price-update account bytes `data`
/// carry for the feed `feed`; `None` where the bytes do not decode as such an
/// account or carry another feed.
pub uninterp spec fn pyth_reading(data: Seq<u8>, feed: Key) -> Option<(i64, i32)>;

/// Relies on pyth_solana_receiver_sdk: `PriceUpdateV2::try_deserialize_unchecked`
/// decodes the account bytes after their 8-byte discriminator (it slices them
/// there, so shorter data would panic), and `get_price_unchecked` hands back
/// the price message's price and exponent when its feed id equals `feed`'s 32
/// bytes.
#[verifier::external_body]
fn read_pyth(data: &[u8], feed: Key) -> (r: Option<(i64, i32)>)
    requires
        data@.len() >= PYTH_DISCRIMINATOR_LEN,
    ensures
        r == pyth_reading(data@, feed),
{
    let mut id = [0u8; 32];
    id[..16].copy_from_slice(&feed.hi.to_be_bytes());
    id[16..].copy_from_slice(&feed.lo.to_be_bytes());
    let mut bytes: &[u8] = data;
    let update = PriceUpdateV2::try_deserialize_unchecked(&mut bytes).ok()?;
    let price = update.get_price_unchecked(&id).ok()?;
    Some((price.price, price.exponent))
}

/// Bytes of the account-type tag in front of a price-update account.
pub const PYTH_DISCRIMINATOR_LEN: usize = 8;

/// Reads the raw price and exponent of the price feed account `feed` from its
/// bytes; what cannot be read is an invalid feed.
pub fn get_price_and_exponent_from_pyth(data: &[u8], feed: Key) -> (r: Result<(i64, i32), ErrorCode>)
    ensures
        data@.len() < PYTH_DISCRIMINATOR_LEN ==> r == Err::<(i64, i32), ErrorCode>(ErrorCode::InvalidOraclePriceFeed),
        data@.len() >= PYTH_DISCRIMINATOR_LEN ==> r == (match pyth_reading(data@, feed) {
            Some(reading) => Ok::<(i64, i32), ErrorCode>(reading),
            None => Err::<(i64, i32), ErrorCode>(ErrorCode::InvalidOraclePriceFeed),
        }),
{
    if data.len() < PYTH_DISCRIMINATOR_LEN {
        return Err(ErrorCode::InvalidOraclePriceFeed);
    }
    match read_pyth(data, feed) {
        Some(reading) => Ok(reading),
        None => Err(ErrorCode::InvalidOraclePriceFeed),
    }
}

} // verus!
