use vstd::prelude::*;

use crate::text::{decimal, padded_trimmed, push_char, push_decimal, push_padded_trimmed};

verus! {

/// An amount of one native token.
#[derive(Debug, PartialEq, Eq, Clone)]
pub struct Coin {
    pub denom: String,
    pub amount: u128,
}

/// The mathematical content of a [`Coin`].
pub open spec fn coin_view(c: Coin) -> (Seq<char>, u128) {
    (c.denom@, c.amount)
}

/// The mathematical content of a list of coins.
pub open spec fn coins_view(v: Seq<Coin>) -> Seq<(Seq<char>, u128)> {
    v.map_values(|c: Coin| coin_view(c))
}

impl Coin {
    /// A coin of `amount` units of `denom`.
    pub fn new(amount: u128, denom: &str) -> (r: Coin)
        ensures
            r.denom@ == denom@,
            r.amount == amount,
    {
        Coin { denom: denom.to_owned(), amount }
    }

    /// A copy of this coin.
    pub fn duplicate(&self) -> (r: Coin)
        ensures
            r == *self,
    {
        Coin { denom: self.denom.clone(), amount: self.amount }
    }
}

/// A fixed-point number with 18 decimal places, held as its count of
/// 10^-18 units (its atomics).
#[derive(Debug, PartialEq, Eq, Clone, Copy)]
pub struct Decimal {
    pub atomics: u128,
}

/// How a decimal of `a` atomics is written: its whole part, then, unless it is
/// whole, a point and its eighteen fractional digits without trailing zeros.
pub open spec fn decimal_text(a: u128) -> Seq<char> {
    let whole = decimal((a / DECIMAL_FRACTIONAL) as nat);
    if a % DECIMAL_FRACTIONAL == 0 {
        whole
    } else {
        whole.push('.') + padded_trimmed((a % DECIMAL_FRACTIONAL) as nat, 18)
    }
}

/// How a coin is written: its amount, then its denomination.
pub open spec fn coin_text(c: Coin) -> Seq<char> {
    decimal(c.amount as nat) + c.denom@
}

impl Coin {
    /// This coin, written as its amount followed by its denomination.
    pub fn to_text(&self) -> (r: String)
        ensures
            r@ == coin_text(*self),
    {
        let mut s = String::new();
        push_decimal(&mut s, self.amount);
        let mut i: usize = 0;
        let chars = crate::text::chars_of(self.denom.as_str());
        let ghost start = s@;
        while i < chars.len()
            invariant
                i <= chars@.len(),
                chars@ == self.denom@,
                s@ == start + chars@.take(i as int),
            decreases chars@.len() - i,
        {
            push_char(&mut s, chars[i]);
            assert(chars@.take(i + 1) =~= chars@.take(i as int).push(chars@[i as int]));
            i = i + 1;
        }
        assert(chars@.take(i as int) =~= chars@);
        assert(Seq::<char>::empty() + decimal(self.amount as nat) =~= decimal(self.amount as nat));
        s
    }
}

/// The number of atomics in one.
pub const DECIMAL_FRACTIONAL: u128 = 1_000_000_000_000_000_000u128;

impl Decimal {
    /// Zero.
    pub fn zero() -> (r: Decimal)
        ensures
            r.atomics == 0,
    {
        Decimal { atomics: 0 }
    }

    /// One.
    pub fn one() -> (r: Decimal)
        ensures
            r.atomics == DECIMAL_FRACTIONAL,
    {
        Decimal { atomics: DECIMAL_FRACTIONAL }
    }

    /// This decimal, written out.
    pub fn to_text(&self) -> (r: String)
        ensures
            r@ == decimal_text(self.atomics),
    {
        let mut s = String::new();
        push_decimal(&mut s, self.atomics / DECIMAL_FRACTIONAL);
        assert(Seq::<char>::empty() + decimal((self.atomics / DECIMAL_FRACTIONAL) as nat) =~= decimal(
            (self.atomics / DECIMAL_FRACTIONAL) as nat,
        ));
        let frac = self.atomics % DECIMAL_FRACTIONAL;
        if frac != 0 {
            push_char(&mut s, '.');
            push_padded_trimmed(&mut s, frac, 18);
        }
        s
    }

    /// `x` percent.
    pub fn percent(x: u64) -> (r: Decimal)
        ensures
            r.atomics == x * 10_000_000_000_000_000,
    {
        Decimal { atomics: (x as u128) * 10_000_000_000_000_000u128 }
    }
}

} // verus!
