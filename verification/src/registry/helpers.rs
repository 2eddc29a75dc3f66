use vstd::prelude::*;

use cosmwasm_std::Binary;

use crate::random::{id_chars, id_from_digest, sha256, sha256_digest, BlockEnv};
use crate::registry::error::ContractError;
use crate::text::{decimal, parse_u128, parse_u128_text, push_decimal};
use crate::types::coin::Coin;

verus! {

/// The digit of value `n` (below 64) in the standard base64 alphabet.
pub open spec fn base64_digit(n: int) -> char {
    if n < 26 {
        (65 + n) as char
    } else if n < 52 {
        (97 + n - 26) as char
    } else if n < 62 {
        (48 + n - 52) as char
    } else if n == 62 {
        '+'
    } else {
        '/'
    }
}

/// The standard base64 text of `b`, padded with `=`: each three bytes give four
/// digits of six bits, most significant first.
pub open spec fn base64(b: Seq<u8>) -> Seq<char>
    decreases b.len(),
{
    if b.len() == 0 {
        Seq::empty()
    } else {
        let x = b[0] as int;
        let y = if b.len() > 1 { b[1] as int } else { 0 };
        let z = if b.len() > 2 { b[2] as int } else { 0 };
        if b.len() == 1 {
            seq![base64_digit(x / 4), base64_digit((x % 4) * 16), '=', '=']
        } else if b.len() == 2 {
            seq![base64_digit(x / 4), base64_digit((x % 4) * 16 + y / 16), base64_digit((y % 16) * 4), '=']
        } else {
            seq![
                base64_digit(x / 4),
                base64_digit((x % 4) * 16 + y / 16),
                base64_digit((y % 16) * 4 + z / 64),
                base64_digit(z % 64),
            ] + base64(b.skip(3))
        }
    }
}

/// `Binary::to_base64` of `cosmwasm_std`: the standard, padded base64 text of
/// `bytes`.
#[verifier::external_body]
fn base64_text(bytes: &Vec<u8>) -> (r: String)
    ensures
        r@ == base64(bytes@),
{
    Binary::new(bytes.clone()).to_base64()
}

/// The text hashed for an id: block time, transaction index (zero when there is
/// none), height, the prefix, then the base64 text of the salt.
pub open spec fn id_text(salt: Seq<u8>, env: BlockEnv, prefix: Seq<char>) -> Seq<char> {
    let tx: nat = match env.tx_index {
        Some(t) => t as nat,
        None => 0,
    };
    decimal(env.block_time_nanos as nat) + decimal(tx) + decimal(env.block_height as nat) + prefix + base64(salt)
}

/// The id with prefix `prefix` drawn for `salt` in block `env`.
pub open spec fn drawn_id(salt: Seq<u8>, env: BlockEnv, prefix: Seq<char>) -> Seq<char> {
    prefix + id_chars(sha256(vstd::utf8::encode_utf8(id_text(salt, env, prefix))).take(16))
}

/// `prefix` followed by 32 letters and digits drawn from the SHA-256 digest of
/// the block, the prefix and the salt.
pub fn generate_random_id_with_prefix(salt: &Vec<u8>, env: &BlockEnv, prefix: &str) -> (r: String)
    ensures
        r@ == drawn_id(salt@, *env, prefix@),
{
    let tx: u32 = match env.tx_index {
        Some(t) => t,
        None => 0,
    };
    let mut text = String::new();
    push_decimal(&mut text, env.block_time_nanos as u128);
    push_decimal(&mut text, tx as u128);
    push_decimal(&mut text, env.block_height as u128);
    text.append(prefix);
    let encoded = base64_text(salt);
    text.append(encoded.as_str());
    assert(text@ =~= id_text(salt@, *env, prefix@));
    let hash = sha256_digest(text.as_str().as_bytes());
    id_from_digest(prefix, &hash)
}

/// The failure of a query for an ONFT.
#[derive(Debug, PartialEq, Eq, Clone, Copy)]
pub enum OnftQuerierError {
    AssetNotFound {},
}

/// Checks that `owner` holds the ONFT whose holder a query reported (`None`
/// when the ONFT was not found).
pub fn check_onft_owner(queried_owner: &Option<String>, owner: &String) -> (r: Result<(), ContractError>)
    ensures
        match queried_owner {
            None => r == Err::<(), ContractError>(ContractError::OnftNotFound {}),
            Some(q) => if q@ == owner@ {
                r is Ok
            } else {
                r == Err::<(), ContractError>(ContractError::OnftNotOwned {})
            },
        },
{
    match queried_owner {
        None => Err(ContractError::OnftNotFound {}),
        Some(q) => {
            if *q == *owner {
                Ok(())
            } else {
                Err(ContractError::OnftNotOwned {})
            }
        },
    }
}

/// The fee for creating a collection, from the denomination and the decimal
/// amount that the chain's parameters report.
pub fn get_collection_creation_fee(denom: String, amount: String) -> (r: Coin)
    requires
        parse_u128(amount@) is Some,
    ensures
        r.denom == denom,
        r.amount == parse_u128(amount@)->0,
{
    let a = match parse_u128_text(amount.as_str()) {
        Some(a) => a,
        None => {
            proof {
                assert(false);
            }
            0
        },
    };
    Coin { denom, amount: a }
}

} // verus!
