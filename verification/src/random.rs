use vstd::prelude::*;

use rand_core::{RngCore, SeedableRng};
use rand_xoshiro::Xoshiro128PlusPlus;
use sha2::{Digest, Sha256};

use crate::text::{decimal, push_decimal};

verus! {

/// The SHA-256 digest of `data`.
pub uninterp spec fn sha256(data: Seq<u8>) -> Seq<u8>;

/// The `k`th value (counting from zero) that `next_u32` yields from
/// `Xoshiro128PlusPlus::from_seed(seed)`.
pub uninterp spec fn xoshiro_draw(seed: Seq<u8>, k: nat) -> u32;

/// `Sha256::digest` of `sha2`: the digest of `data`, 32 bytes long.
#[verifier::external_body]
pub(crate) fn sha256_digest(data: &[u8]) -> (r: Vec<u8>)
    ensures
        r@ == sha256(data@),
        r@.len() == 32,
{
    Sha256::digest(data).to_vec()
}

/// `Xoshiro128PlusPlus::from_seed` of `rand_xoshiro`, then `next_u32` `n` times:
/// the values drawn, in order. The seed must be 16 bytes long.
#[verifier::external_body]
fn xoshiro_draws(seed: &Vec<u8>, n: usize) -> (r: Vec<u32>)
    requires
        seed@.len() == 16,
    ensures
        r@.len() == n,
        forall|k: int| 0 <= k < n ==> #[trigger] r@[k] == xoshiro_draw(seed@, k as nat),
{
    let bytes: [u8; 16] = seed.as_slice().try_into().unwrap();
    let mut rng = Xoshiro128PlusPlus::from_seed(bytes);
    (0..n).map(|_| rng.next_u32()).collect()
}

/// `std::str::from_utf8`: the text that `bytes` encode, when they are valid UTF-8.
#[verifier::external_body]
fn utf8_text(bytes: &Vec<u8>) -> (r: Option<String>)
    ensures
        r is Some <==> vstd::utf8::valid_utf8(bytes@),
        r matches Some(s) ==> s@ == vstd::utf8::decode_utf8(bytes@),
{
    std::str::from_utf8(bytes.as_slice()).ok().map(|s| s.to_owned())
}

/// The character that byte `b` stands for in an id: `b` modulo 36 picks from the
/// lower-case letters, then the digits.
pub open spec fn alphanumeric(b: u8) -> char {
    let i = b % 36;
    if i < 26 {
        (97 + i) as char
    } else {
        (48 + i - 26) as char
    }
}

/// The character that `byte` stands for in an id.
pub fn byte_to_alphanumeric(byte: u8) -> (r: char)
    ensures
        r == alphanumeric(byte),
{
    let i = byte % 36;
    if i < 26 {
        (97 + i) as char
    } else {
        (48 + i - 26) as char
    }
}

/// The block that a message is executed in.
#[derive(Debug, Clone, PartialEq, Eq)]
pub struct BlockEnv {
    /// The block time, in nanoseconds since the epoch.
    pub block_time_nanos: u64,
    pub block_height: u64,
    /// The index of the transaction in the block, when there is one.
    pub tx_index: Option<u32>,
    /// The address of this contract.
    pub contract_address: String,
}

/// The text that a salt contributes: its characters when it is valid UTF-8,
/// nothing otherwise.
pub open spec fn salt_text(salt: Option<Seq<u8>>) -> Seq<char> {
    match salt {
        Some(b) => if vstd::utf8::valid_utf8(b) { vstd::utf8::decode_utf8(b) } else { Seq::empty() },
        None => Seq::empty(),
    }
}

/// The text hashed for an id drawn from the block: its time, the transaction
/// index (zero when there is none), its height, then the salt's text.
pub open spec fn block_text(env: BlockEnv, salt: Option<Seq<u8>>) -> Seq<char> {
    let tx: nat = match env.tx_index {
        Some(t) => t as nat,
        None => 0,
    };
    decimal(env.block_time_nanos as nat) + decimal(tx) + decimal(env.block_height as nat) + salt_text(salt)
}

/// The characters of an id drawn from seed `seed`: 32 draws, each cut to a byte
/// and taken as a letter or digit.
pub open spec fn id_chars(seed: Seq<u8>) -> Seq<char> {
    Seq::new(32, |k: int| alphanumeric(xoshiro_draw(seed, k as nat) as u8))
}

/// The bytes an id is derived from: the entropy when given, else the block text.
pub open spec fn id_source(entropy: Option<Seq<char>>, env: Option<BlockEnv>, salt: Option<Seq<u8>>) -> Seq<u8> {
    match entropy {
        Some(e) => vstd::utf8::encode_utf8(e),
        None => vstd::utf8::encode_utf8(block_text(env->0, salt)),
    }
}

/// The id with prefix `prefix` derived from `source`: the first 16 bytes of the
/// SHA-256 digest of `source` seed the generator whose draws give the id.
pub open spec fn random_id(prefix: Seq<char>, source: Seq<u8>) -> Seq<char> {
    prefix + id_chars(sha256(source).take(16))
}

/// An id made of `prefix` and 32 letters and digits, derived from `entropy`
/// when it is given and otherwise from the block `env`, which must then be
/// given, and the `salt`. The prefix is not hashed: ids drawn from the same
/// source share their 32 characters.
pub fn generate_random_id_with_prefix(
    prefix: &str,
    entropy: Option<&str>,
    env: Option<&BlockEnv>,
    salt: Option<&Vec<u8>>,
) -> (r: String)
    requires
        entropy is Some || env is Some,
    ensures
        r@ == random_id(
            prefix@,
            id_source(
                match entropy {
                    Some(e) => Some(e@),
                    None => None,
                },
                match env {
                    Some(e) => Some(*e),
                    None => None,
                },
                match salt {
                    Some(b) => Some(b@),
                    None => None,
                },
            ),
        ),
{
    let hash = match entropy {
        Some(e) => sha256_digest(e.as_bytes()),
        None => {
            let env = match env {
                Some(e) => e,
                None => {
                    proof {
                        assert(false);
                    }
                    return String::new();
                },
            };
            let tx: u32 = match env.tx_index {
                Some(t) => t,
                None => 0,
            };
            let mut text = String::new();
            push_decimal(&mut text, env.block_time_nanos as u128);
            push_decimal(&mut text, tx as u128);
            push_decimal(&mut text, env.block_height as u128);
            let salt_str = match salt {
                Some(b) => match utf8_text(b) {
                    Some(s) => s,
                    None => String::new(),
                },
                None => String::new(),
            };
            text.append(salt_str.as_str());
            proof {
                let ghost sb = match salt {
                    Some(b) => Some(b@),
                    None => None,
                };
                assert(salt_str@ == salt_text(sb));
                assert(text@ =~= block_text(*env, sb));
            }
            sha256_digest(text.as_str().as_bytes())
        },
    };
    id_from_digest(prefix, &hash)
}

/// `prefix` followed by the id that the first 16 bytes of `hash` seed.
pub(crate) fn id_from_digest(prefix: &str, hash: &Vec<u8>) -> (r: String)
    requires
        hash@.len() == 32,
    ensures
        r@ == prefix@ + id_chars(hash@.take(16)),
{
    let mut seed: Vec<u8> = Vec::new();
    let mut i: usize = 0;
    while i < 16
        invariant
            i <= 16,
            hash@.len() == 32,
            seed@ == hash@.take(i as int),
        decreases 16 - i,
    {
        seed.push(hash[i]);
        assert(seed@ =~= hash@.take(i + 1));
        i = i + 1;
    }
    let draws = xoshiro_draws(&seed, 32);
    let mut id = String::new();
    id.append(prefix);
    let mut k: usize = 0;
    while k < 32
        invariant
            k <= 32,
            draws@.len() == 32,
            forall|j: int| 0 <= j < 32 ==> #[trigger] draws@[j] == xoshiro_draw(seed@, j as nat),
            id@ == prefix@ + id_chars(seed@).take(k as int),
        decreases 32 - k,
    {
        crate::text::push_char(&mut id, byte_to_alphanumeric(draws[k] as u8));
        assert(id@ =~= prefix@ + id_chars(seed@).take(k + 1));
        k = k + 1;
    }
    assert(id_chars(seed@).take(32) =~= id_chars(seed@));
    id
}

} // verus!
