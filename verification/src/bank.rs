use vstd::prelude::*;

use cw_utils::NativeBalance;

use crate::asset_manager::playlists::{first_index, lemma_first_index_absent, lemma_first_index_found};
use crate::error::ContractError;
use crate::order::{lemma_str_order, str_lt};
use crate::text::decimal;
use crate::types::coin::{coin_text, coins_view, Coin, Decimal, DECIMAL_FRACTIONAL};

verus! {

/// Why the funds sent with a message were refused.
#[derive(Debug, PartialEq, Eq, Clone)]
pub enum PaymentError {
    MissingDenom(String),
    ExtraDenom(String),
    MultipleDenoms {},
    NoFunds {},
    NonPayable {},
}

/// The amount of `d` that the coins `s` hold, over all their entries.
pub open spec fn total(s: Seq<(Seq<char>, u128)>, d: Seq<char>) -> int
    decreases s.len(),
{
    if s.len() == 0 {
        0
    } else {
        (if s[0].0 == d { s[0].1 as int } else { 0int }) + total(s.drop_first(), d)
    }
}

/// Sorted by denomination, with no denomination twice and no zero amount.
pub open spec fn canonical(s: Seq<(Seq<char>, u128)>) -> bool {
    &&& forall|i: int, j: int| 0 <= i < j < s.len() ==> str_lt(#[trigger] s[i].0, #[trigger] s[j].0)
    &&& forall|i: int| 0 <= i < s.len() ==> #[trigger] s[i].1 > 0
}

/// The denominations of the coins `s`.
pub open spec fn denoms(s: Seq<(Seq<char>, u128)>) -> Seq<Seq<char>> {
    s.map_values(|c: (Seq<char>, u128)| c.0)
}

/// Every denomination of `s` amounts to at most `u128::MAX`.
pub open spec fn totals_fit(s: Seq<(Seq<char>, u128)>) -> bool {
    forall|d: Seq<char>| #[trigger] total(s, d) <= u128::MAX
}

pub proof fn lemma_total_nonneg(s: Seq<(Seq<char>, u128)>, d: Seq<char>)
    ensures
        total(s, d) >= 0,
    decreases s.len(),
{
    if s.len() > 0 {
        lemma_total_nonneg(s.drop_first(), d);
    }
}

pub proof fn lemma_total_concat(a: Seq<(Seq<char>, u128)>, b: Seq<(Seq<char>, u128)>, d: Seq<char>)
    ensures
        total(a + b, d) == total(a, d) + total(b, d),
    decreases a.len(),
{
    if a.len() == 0 {
        assert(a + b =~= b);
    } else {
        assert((a + b).drop_first() =~= a.drop_first() + b);
        assert((a + b)[0] == a[0]);
        lemma_total_concat(a.drop_first(), b, d);
    }
}

pub proof fn lemma_total_single(x: (Seq<char>, u128), d: Seq<char>)
    ensures
        total(seq![x], d) == if x.0 == d { x.1 as int } else { 0int },
{
    assert(seq![x].drop_first() =~= Seq::<(Seq<char>, u128)>::empty());
    assert(total(Seq::<(Seq<char>, u128)>::empty(), d) == 0);
    assert(seq![x][0] == x);
}

/// Inserting a coin adds its amount to its denomination.
pub proof fn lemma_total_insert(s: Seq<(Seq<char>, u128)>, p: int, x: (Seq<char>, u128), d: Seq<char>)
    requires
        0 <= p <= s.len(),
    ensures
        total(s.insert(p, x), d) == total(s, d) + if x.0 == d { x.1 as int } else { 0int },
{
    assert(s.insert(p, x) =~= s.take(p) + seq![x] + s.skip(p));
    assert(s =~= s.take(p) + s.skip(p));
    lemma_total_concat(s.take(p) + seq![x], s.skip(p), d);
    lemma_total_concat(s.take(p), seq![x], d);
    lemma_total_concat(s.take(p), s.skip(p), d);
    lemma_total_single(x, d);
}

/// Replacing a coin changes its denomination's amount by the difference.
pub proof fn lemma_total_update(s: Seq<(Seq<char>, u128)>, i: int, x: (Seq<char>, u128), d: Seq<char>)
    requires
        0 <= i < s.len(),
    ensures
        total(s.update(i, x), d) == total(s, d) - (if s[i].0 == d { s[i].1 as int } else { 0int }) + (if x.0
            == d { x.1 as int } else { 0int }),
{
    assert(s.update(i, x).remove(i) =~= s.remove(i));
    assert(s.update(i, x) =~= s.remove(i).insert(i, x));
    assert(s =~= s.remove(i).insert(i, s[i]));
    lemma_total_insert(s.remove(i), i, x, d);
    lemma_total_insert(s.remove(i), i, s[i], d);
}

/// One coin amounts to no more than its denomination's total.
pub proof fn lemma_entry_le_total(s: Seq<(Seq<char>, u128)>, i: int)
    requires
        0 <= i < s.len(),
    ensures
        s[i].1 <= total(s, s[i].0),
{
    assert(s =~= s.remove(i).insert(i, s[i]));
    lemma_total_insert(s.remove(i), i, s[i], s[i].0);
    lemma_total_nonneg(s.remove(i), s[i].0);
}

/// A prefix holds no more of a denomination than the whole, and one coin more
/// adds that coin.
pub proof fn lemma_total_prefix(s: Seq<(Seq<char>, u128)>, k: int, d: Seq<char>)
    requires
        0 <= k < s.len(),
    ensures
        total(s.take(k + 1), d) == total(s.take(k), d) + if s[k].0 == d { s[k].1 as int } else { 0int },
        total(s.take(k + 1), d) <= total(s, d),
{
    assert(s.take(k + 1) =~= s.take(k).insert(k, s[k]));
    lemma_total_insert(s.take(k), k, s[k], d);
    assert(s =~= s.take(k + 1) + s.skip(k + 1));
    lemma_total_concat(s.take(k + 1), s.skip(k + 1), d);
    lemma_total_nonneg(s.skip(k + 1), d);
}

proof fn lemma_canonical_absent(s: Seq<(Seq<char>, u128)>, d: Seq<char>)
    requires
        !denoms(s).contains(d),
    ensures
        total(s, d) == 0,
    decreases s.len(),
{
    if s.len() > 0 {
        assert(denoms(s)[0] == s[0].0);
        assert forall|j: int| 0 <= j < s.len() - 1 implies denoms(s.drop_first())[j] != d by {
            assert(denoms(s)[j + 1] == s[j + 1].0);
        }
        lemma_canonical_absent(s.drop_first(), d);
    }
}

/// In canonical coins, a denomination's total is the amount of its one entry.
pub proof fn lemma_canonical_entry(s: Seq<(Seq<char>, u128)>, i: int)
    requires
        canonical(s),
        0 <= i < s.len(),
    ensures
        total(s, s[i].0) == s[i].1,
    decreases s.len(),
{
    lemma_str_order();
    let l = |x: Seq<char>, y: Seq<char>| str_lt(x, y);
    let t = s.drop_first();
    assert(canonical(t)) by {
        assert forall|a: int, b: int| 0 <= a < b < t.len() implies str_lt(#[trigger] t[a].0, #[trigger] t[b].0) by {
            assert(str_lt(s[a + 1].0, s[b + 1].0));
        }
        assert forall|a: int| 0 <= a < t.len() implies #[trigger] t[a].1 > 0 by {
            assert(s[a + 1].1 > 0);
        }
    }
    if i == 0 {
        assert forall|j: int| 0 <= j < t.len() implies denoms(t)[j] != s[0].0 by {
            assert(str_lt(s[0].0, s[j + 1].0));
            assert(!l(s[0].0, s[0].0));
        }
        lemma_canonical_absent(t, s[0].0);
    } else {
        assert(str_lt(s[0].0, s[i].0));
        assert(!l(s[i].0, s[i].0));
        lemma_canonical_entry(t, i - 1);
    }
}

/// Canonical coins with the same totals are the same coins.
pub proof fn lemma_canonical_eq(a: Seq<(Seq<char>, u128)>, b: Seq<(Seq<char>, u128)>)
    requires
        canonical(a),
        canonical(b),
        forall|d: Seq<char>| #[trigger] total(a, d) == total(b, d),
    ensures
        a == b,
    decreases a.len() + b.len(),
{
    lemma_str_order();
    let l = |x: Seq<char>, y: Seq<char>| str_lt(x, y);
    if a.len() == 0 && b.len() == 0 {
        assert(a =~= b);
    } else if a.len() == 0 {
        lemma_canonical_entry(b, 0);
        assert(total(a, b[0].0) == total(b, b[0].0));
    } else if b.len() == 0 {
        lemma_canonical_entry(a, 0);
        assert(total(a, a[0].0) == total(b, a[0].0));
    } else {
        let x = a[0].0;
        let y = b[0].0;
        lemma_canonical_entry(a, 0);
        lemma_canonical_entry(b, 0);
        assert(total(a, x) == total(b, x));
        assert(total(a, y) == total(b, y));
        if !denoms(b).contains(x) {
            lemma_canonical_absent(b, x);
        }
        if !denoms(a).contains(y) {
            lemma_canonical_absent(a, y);
        }
        let j = choose|j: int| 0 <= j < denoms(b).len() && denoms(b)[j] == x;
        let k = choose|k: int| 0 <= k < denoms(a).len() && denoms(a)[k] == y;
        if x != y {
            assert(j > 0 && k > 0);
            assert(str_lt(b[0].0, b[j].0));
            assert(str_lt(a[0].0, a[k].0));
            assert(l(y, x) && l(x, y));
            assert(l(x, x));
        }
        assert(a[0] == b[0]);
        let ta = a.drop_first();
        let tb = b.drop_first();
        assert(canonical(ta)) by {
            assert forall|p: int, q: int| 0 <= p < q < ta.len() implies str_lt(#[trigger] ta[p].0, #[trigger] ta[q].0) by {
                assert(str_lt(a[p + 1].0, a[q + 1].0));
            }
            assert forall|p: int| 0 <= p < ta.len() implies #[trigger] ta[p].1 > 0 by {
                assert(a[p + 1].1 > 0);
            }
        }
        assert(canonical(tb)) by {
            assert forall|p: int, q: int| 0 <= p < q < tb.len() implies str_lt(#[trigger] tb[p].0, #[trigger] tb[q].0) by {
                assert(str_lt(b[p + 1].0, b[q + 1].0));
            }
            assert forall|p: int| 0 <= p < tb.len() implies #[trigger] tb[p].1 > 0 by {
                assert(b[p + 1].1 > 0);
            }
        }
        assert forall|d: Seq<char>| #[trigger] total(ta, d) == total(tb, d) by {
            assert(total(a, d) == total(b, d));
        }
        lemma_canonical_eq(ta, tb);
        assert(a =~= seq![a[0]] + ta);
        assert(b =~= seq![b[0]] + tb);
    }
}

#[verifier::external_type_specification]
#[verifier::external_body]
pub struct ExNativeBalance(NativeBalance);

/// The coins that a `cw_utils::NativeBalance` holds, in order, each as its
/// denomination and amount.
pub uninterp spec fn balance_coins(b: NativeBalance) -> Seq<(Seq<char>, u128)>;

/// `NativeBalance::default()`: a balance with no coins.
#[verifier::external_body]
fn empty_balance() -> (r: NativeBalance)
    ensures
        balance_coins(r) == Seq::<(Seq<char>, u128)>::empty(),
{
    NativeBalance::default()
}

/// `NativeBalance += Coin`: adds the amount to the first entry of the coin's
/// denomination, or, when there is none, inserts the coin somewhere. The sum
/// must fit in a `u128`: `Uint128` addition panics otherwise.
#[verifier::external_body]
fn balance_add(b: &mut NativeBalance, c: &Coin)
    requires
        first_index(denoms(balance_coins(*old(b))), c.denom@) matches Some(i) ==> balance_coins(*old(b))[i].1
            + c.amount <= u128::MAX,
    ensures
        match first_index(denoms(balance_coins(*old(b))), c.denom@) {
            Some(i) => balance_coins(*final(b)) == balance_coins(*old(b)).update(
                i,
                (c.denom@, (balance_coins(*old(b))[i].1 + c.amount) as u128),
            ),
            None => exists|p: int|
                0 <= p <= balance_coins(*old(b)).len() && balance_coins(*final(b)) == balance_coins(*old(b)).insert(
                    p,
                    (c.denom@, c.amount),
                ),
        },
{
    *b += cosmwasm_std::Coin { denom: c.denom.clone(), amount: cosmwasm_std::Uint128::new(c.amount) };
}

/// `NativeBalance::normalize`: drops zero amounts, sorts by denomination and
/// merges entries of one denomination, keeping every denomination's total. A
/// merged amount must fit in a `u128`: `Uint128` addition panics otherwise.
#[verifier::external_body]
fn balance_normalize(b: &mut NativeBalance)
    requires
        totals_fit(balance_coins(*old(b))),
    ensures
        canonical(balance_coins(*final(b))),
        forall|d: Seq<char>| #[trigger] total(balance_coins(*final(b)), d) == total(balance_coins(*old(b)), d),
{
    b.normalize();
}

/// `NativeBalance::is_empty`: whether every amount is zero.
#[verifier::external_body]
fn balance_is_empty(b: &NativeBalance) -> (r: bool)
    ensures
        r == forall|i: int| 0 <= i < balance_coins(*b).len() ==> #[trigger] balance_coins(*b)[i].1 == 0,
{
    b.is_empty()
}

/// `==` on `NativeBalance`: the same coins in the same order.
#[verifier::external_body]
fn balances_equal(a: &NativeBalance, b: &NativeBalance) -> (r: bool)
    ensures
        r == (balance_coins(*a) == balance_coins(*b)),
{
    a == b
}

/// `NativeBalance::into_vec`, each coin taken as a coin of this library.
#[verifier::external_body]
fn balance_into_coins(b: NativeBalance) -> (r: Vec<Coin>)
    ensures
        coins_view(r@) == balance_coins(b),
{
    b.into_vec().into_iter().map(|c| Coin { denom: c.denom, amount: c.amount.u128() }).collect()
}

/// The balance of `coins`, normalized: sorted by denomination, no zero amounts, one
/// entry per denomination.
fn normalized_balance(coins: &Vec<Coin>) -> (r: NativeBalance)
    requires
        totals_fit(coins_view(coins@)),
    ensures
        canonical(balance_coins(r)),
        forall|d: Seq<char>| #[trigger] total(balance_coins(r), d) == total(coins_view(coins@), d),
{
    let ghost all = coins_view(coins@);
    let mut b = empty_balance();
    let mut i: usize = 0;
    assert(all.take(0) =~= Seq::<(Seq<char>, u128)>::empty());
    while i < coins.len()
        invariant
            i <= coins@.len(),
            all == coins_view(coins@),
            totals_fit(all),
            forall|d: Seq<char>| #[trigger] total(balance_coins(b), d) == total(all.take(i as int), d),
        decreases coins@.len() - i,
    {
        let c = &coins[i];
        let ghost before = balance_coins(b);
        let ghost dd = c.denom@;
        assert(all[i as int] == (c.denom@, c.amount));
        proof {
            lemma_total_prefix(all, i as int, dd);
            assert(total(all, dd) <= u128::MAX);
            match first_index(denoms(before), dd) {
                Some(j) => {
                    lemma_first_index_found(denoms(before), dd);
                    assert(denoms(before)[j] == before[j].0);
                    lemma_entry_le_total(before, j);
                },
                None => {},
            }
        }
        balance_add(&mut b, c);
        proof {
            assert forall|d: Seq<char>| #[trigger] total(balance_coins(b), d) == total(all.take(i + 1), d) by {
                lemma_total_prefix(all, i as int, d);
                match first_index(denoms(before), dd) {
                    Some(j) => {
                        lemma_first_index_found(denoms(before), dd);
                        assert(denoms(before)[j] == before[j].0);
                        lemma_total_update(before, j, (dd, (before[j].1 + c.amount) as u128), d);
                    },
                    None => {
                        let p = choose|p: int|
                            0 <= p <= before.len() && balance_coins(b) == before.insert(p, (dd, c.amount));
                        lemma_total_insert(before, p, (dd, c.amount), d);
                    },
                }
            }
        }
        i = i + 1;
    }
    assert(all.take(i as int) =~= all);
    balance_normalize(&mut b);
    b
}

/// Checks that `received` holds exactly the coins of `expected`, denomination by
/// denomination, whatever their order or split into entries.
pub fn check_payment(expected: Vec<Coin>, received: Vec<Coin>) -> (r: Result<(), ContractError>)
    requires
        totals_fit(coins_view(expected@)),
        totals_fit(coins_view(received@)),
    ensures
        r is Ok <==> forall|d: Seq<char>| #[trigger] total(coins_view(expected@), d) == total(coins_view(received@), d),
        r matches Err(e) ==> e matches ContractError::PaymentError { expected: x, received: y } && x@ == expected@
            && y@ == received@,
{
    let e = normalized_balance(&expected);
    let g = normalized_balance(&received);
    if !balances_equal(&e, &g) {
        proof {
            if forall|d: Seq<char>| #[trigger] total(coins_view(expected@), d) == total(coins_view(received@), d) {
                assert forall|d: Seq<char>| #[trigger] total(balance_coins(e), d) == total(balance_coins(g), d) by {
                    assert(total(coins_view(expected@), d) == total(coins_view(received@), d));
                }
                lemma_canonical_eq(balance_coins(e), balance_coins(g));
            }
        }
        return Err(ContractError::PaymentError { expected, received });
    }
    proof {
        assert forall|d: Seq<char>| #[trigger] total(coins_view(expected@), d) == total(coins_view(received@), d) by {
            assert(total(balance_coins(e), d) == total(balance_coins(g), d));
        }
    }
    Ok(())
}

/// A transfer of coins to an address.
#[derive(Debug, PartialEq, Eq)]
pub struct BankSend {
    pub to_address: String,
    pub amount: Vec<Coin>,
}

/// A transfer of `amount` to `recipient`, normalized, or nothing when it amounts
/// to nothing.
pub fn bank_msg_wrapper(recipient: String, amount: Vec<Coin>) -> (r: Vec<BankSend>)
    requires
        totals_fit(coins_view(amount@)),
    ensures
        r@.len() == 0 <==> forall|d: Seq<char>| #[trigger] total(coins_view(amount@), d) == 0,
        r@.len() <= 1,
        r@.len() == 1 ==> {
            &&& r@[0].to_address == recipient
            &&& canonical(coins_view(r@[0].amount@))
            &&& forall|d: Seq<char>| #[trigger] total(coins_view(r@[0].amount@), d) == total(coins_view(amount@), d)
        },
{
    let b = normalized_balance(&amount);
    if balance_is_empty(&b) {
        proof {
            let s = balance_coins(b);
            if s.len() > 0 {
                assert(s[0].1 > 0);
            }
            assert(s =~= Seq::<(Seq<char>, u128)>::empty());
            assert forall|d: Seq<char>| #[trigger] total(coins_view(amount@), d) == 0 by {
                assert(total(s, d) == 0);
            }
        }
        return Vec::new();
    }
    proof {
        let s = balance_coins(b);
        let i = choose|i: int| 0 <= i < s.len() && s[i].1 != 0;
        lemma_canonical_entry(s, i);
        assert(total(coins_view(amount@), s[i].0) != 0);
    }
    let coins = balance_into_coins(b);
    let mut out: Vec<BankSend> = Vec::new();
    out.push(BankSend { to_address: recipient, amount: coins });
    out
}

/// The characters of a list of attributes.
pub open spec fn attrs_view(v: Seq<(String, String)>) -> Seq<(Seq<char>, Seq<char>)> {
    v.map_values(|a: (String, String)| (a.0@, a.1@))
}

/// The attributes of shared-out funds: each address with the coin it got, then
/// `channel` with the rest when it is not zero.
pub open spec fn share_attrs(
    addrs: Seq<Seq<char>>,
    pays: Seq<int>,
    rest: int,
    channel: Seq<char>,
    denom: Seq<char>,
) -> Seq<(Seq<char>, Seq<char>)> {
    Seq::new(addrs.len(), |j: int| (addrs[j], decimal(pays[j] as nat) + denom)) + if rest != 0 {
        seq![(channel, decimal(rest as nat) + denom)]
    } else {
        Seq::empty()
    }
}

/// The amount that a message's funds pay in `denom` when they are exactly one
/// coin of that denomination and not zero.
pub open spec fn paid(funds: Seq<(Seq<char>, u128)>, denom: Seq<char>) -> Option<u128> {
    if funds.len() == 1 && funds[0].1 != 0 && funds[0].0 == denom {
        Some(funds[0].1)
    } else {
        None
    }
}

/// `r` is what `cw_utils::must_pay` answers for funds `funds` and denomination
/// `denom`.
pub open spec fn must_pay_result(r: Result<u128, PaymentError>, funds: Seq<(Seq<char>, u128)>, denom: Seq<char>) -> bool {
    if funds.len() == 0 {
        r == Err::<u128, PaymentError>(PaymentError::NoFunds {})
    } else if funds.len() > 1 {
        r == Err::<u128, PaymentError>(PaymentError::MultipleDenoms {})
    } else if funds[0].1 == 0 {
        r == Err::<u128, PaymentError>(PaymentError::NoFunds {})
    } else if funds[0].0 != denom {
        r matches Err(PaymentError::MissingDenom(d)) && d@ == denom
    } else {
        r == Ok::<u128, PaymentError>(funds[0].1)
    }
}

/// `cw_utils::must_pay` on a message carrying `funds`: the amount of the one
/// coin sent, which must be of `denom` and not zero.
#[verifier::external_body]
pub(crate) fn must_pay(funds: &Vec<Coin>, denom: &str) -> (r: Result<u128, PaymentError>)
    ensures
        must_pay_result(r, coins_view(funds@), denom@),
{
    let info = cosmwasm_std::MessageInfo {
        sender: cosmwasm_std::Addr::unchecked(""),
        funds: funds.iter().map(|c| cosmwasm_std::Coin::new(c.amount, c.denom.clone())).collect(),
    };
    match cw_utils::must_pay(&info, denom) {
        Ok(a) => Ok(a.u128()),
        Err(cw_utils::PaymentError::MissingDenom(d)) => Err(PaymentError::MissingDenom(d)),
        Err(cw_utils::PaymentError::ExtraDenom(d)) => Err(PaymentError::ExtraDenom(d)),
        Err(cw_utils::PaymentError::MultipleDenoms {}) => Err(PaymentError::MultipleDenoms {}),
        Err(cw_utils::PaymentError::NoFunds {}) => Err(PaymentError::NoFunds {}),
        Err(cw_utils::PaymentError::NonPayable {}) => Err(PaymentError::NonPayable {}),
    }
}

/// The sum of a list of shares, in atomics.
pub open spec fn share_total(s: Seq<u128>) -> int
    decreases s.len(),
{
    if s.len() == 0 { 0 } else { s[0] + share_total(s.drop_first()) }
}

/// Appending a share adds it to the sum.
pub proof fn lemma_share_total_push(s: Seq<u128>, x: u128)
    ensures
        share_total(s.push(x)) == share_total(s) + x,
    decreases s.len(),
{
    if s.len() > 0 {
        assert(s.push(x)[0] == s[0]);
        assert(s.push(x).drop_first() =~= s.drop_first().push(x));
        lemma_share_total_push(s.drop_first(), x);
        assert(share_total(s.push(x)) == s[0] + share_total(s.drop_first().push(x)));
        assert(share_total(s) == s[0] + share_total(s.drop_first()));
    } else {
        assert(s.push(x)[0] == x);
        assert(s.push(x).drop_first() =~= Seq::<u128>::empty());
        assert(share_total(Seq::<u128>::empty()) == 0);
        assert(share_total(s.push(x)) == x + share_total(s.push(x).drop_first()));
    }
}

/// A sum of numbers that are never negative is not negative.
pub proof fn lemma_sum_nonneg(s: Seq<int>)
    requires
        forall|j: int| 0 <= j < s.len() ==> #[trigger] s[j] >= 0,
    ensures
        sum_ints(s) >= 0,
    decreases s.len(),
{
    if s.len() > 0 {
        assert forall|j: int| 0 <= j < s.drop_first().len() implies #[trigger] s.drop_first()[j] >= 0 by {
            assert(s.drop_first()[j] == s[j + 1]);
        }
        lemma_sum_nonneg(s.drop_first());
    }
}

/// The payouts of shares of the whole of `amount`, each rounded down, are never
/// negative, and their sum times one (in atomics) is at most `amount` times the
/// sum of the shares.
pub proof fn lemma_pays_sum(amount: int, shares: Seq<u128>)
    requires
        0 <= amount,
    ensures
        forall|j: int| 0 <= j < shares.len() ==> #[trigger] share_pays(amount, shares)[j] >= 0,
        sum_ints(share_pays(amount, shares)) >= 0,
        sum_ints(share_pays(amount, shares)) * (DECIMAL_FRACTIONAL as int) <= amount * share_total(shares),
    decreases shares.len(),
{
    let df = DECIMAL_FRACTIONAL as int;
    let sp = share_pays(amount, shares);
    assert forall|j: int| 0 <= j < shares.len() implies #[trigger] sp[j] >= 0 by {
        let sj = shares[j] as int;
        assert(amount * sj / df >= 0) by (nonlinear_arith)
            requires
                0 <= amount,
                0 <= sj,
                df > 0,
        ;
    }
    lemma_sum_nonneg(sp);
    if shares.len() > 0 {
        let rest = shares.drop_first();
        lemma_pays_sum(amount, rest);
        assert(sp.drop_first() =~= share_pays(amount, rest));
        let s0 = shares[0] as int;
        let p = sp[0];
        assert(p * df <= amount * s0) by (nonlinear_arith)
            requires
                p == amount * s0 / df,
                0 <= amount,
                0 <= s0,
                df > 0,
        ;
        let t = share_total(rest);
        let q = sum_ints(share_pays(amount, rest));
        assert((p + q) * df <= amount * (s0 + t)) by (nonlinear_arith)
            requires
                p * df <= amount * s0,
                q * df <= amount * t,
        ;
    }
}

/// Shares of at most one each that add up to at most one, paid out of an amount
/// whose decimal fits, stay within `u128` and within the amount.
pub proof fn lemma_pays_within(amount: int, shares: Seq<u128>)
    requires
        0 <= amount,
        shares.len() > 0 ==> amount * (DECIMAL_FRACTIONAL as int) <= u128::MAX,
        forall|j: int| 0 <= j < shares.len() ==> #[trigger] shares[j] <= DECIMAL_FRACTIONAL,
        share_total(shares) <= DECIMAL_FRACTIONAL,
    ensures
        pays_within(amount, shares),
{
    let df = DECIMAL_FRACTIONAL as int;
    assert forall|j: int| 0 <= j < shares.len() implies amount * (#[trigger] shares[j] as int) <= u128::MAX by {
        let sj = shares[j] as int;
        assert(amount * sj <= amount * df) by (nonlinear_arith)
            requires
                0 <= amount,
                0 <= sj <= df,
        ;
    }
    lemma_pays_sum(amount, shares);
    let q = sum_ints(share_pays(amount, shares));
    let t = share_total(shares);
    assert(q <= amount) by (nonlinear_arith)
        requires
            q * df <= amount * t,
            t <= df,
            0 <= amount,
            df > 0,
    ;
}

/// What a share of `share` atomics takes of `amount`: `amount` times the share,
/// rounded down to a whole unit.
pub open spec fn payout(amount: int, share: int) -> int {
    amount * share / (DECIMAL_FRACTIONAL as int)
}

/// Each share's payout, taken of the whole of `amount`.
pub open spec fn share_pays(amount: int, shares: Seq<u128>) -> Seq<int> {
    Seq::new(shares.len(), |j: int| payout(amount, shares[j] as int))
}

/// Each share takes its payout of the whole of `amount`: the payouts, and what
/// they leave of `amount`.
pub open spec fn payouts(amount: int, shares: Seq<u128>) -> (Seq<int>, int) {
    (share_pays(amount, shares), amount - sum_ints(share_pays(amount, shares)))
}

/// Paying out `shares` of `amount` stays within `u128`: the amount as a
/// decimal, when there is a share, and its product with each share; and the
/// payouts together are no more than `amount`.
pub open spec fn pays_within(amount: int, shares: Seq<u128>) -> bool {
    &&& shares.len() > 0 ==> amount * (DECIMAL_FRACTIONAL as int) <= u128::MAX
    &&& forall|j: int| 0 <= j < shares.len() ==> amount * (#[trigger] shares[j] as int) <= u128::MAX
    &&& sum_ints(share_pays(amount, shares)) <= amount
}

/// The transfers of shared-out funds: to each address whose payout is not zero,
/// in order, its payout; then to `channel` the rest, when it is not zero.
pub open spec fn transfers(addrs: Seq<Seq<char>>, pays: Seq<int>, rest: int, channel: Seq<char>) -> Seq<(Seq<char>, int)>
    decreases pays.len(),
{
    if pays.len() == 0 {
        if rest != 0 { seq![(channel, rest)] } else { Seq::empty() }
    } else {
        let t = transfers(addrs.drop_first(), pays.drop_first(), rest, channel);
        if pays[0] != 0 { seq![(addrs[0], pays[0])] + t } else { t }
    }
}

/// The sum of a list of numbers.
pub open spec fn sum_ints(s: Seq<int>) -> int
    decreases s.len(),
{
    if s.len() == 0 { 0 } else { s[0] + sum_ints(s.drop_first()) }
}

/// The sum of the amounts of a list of transfers.
pub open spec fn transferred(ts: Seq<(Seq<char>, int)>) -> int
    decreases ts.len(),
{
    if ts.len() == 0 { 0 } else { ts[0].1 + transferred(ts.drop_first()) }
}

/// The shares, in atomics, of a list of collaborators.
pub open spec fn share_atomics(v: Seq<(String, Decimal)>) -> Seq<u128> {
    v.map_values(|c: (String, Decimal)| c.1.atomics)
}

/// The addresses of a list of collaborators.
pub open spec fn share_addresses(v: Seq<(String, Decimal)>) -> Seq<Seq<char>> {
    v.map_values(|c: (String, Decimal)| c.0@)
}

/// The payouts and what is left add up to what there was.
pub proof fn lemma_payouts_add_up(amount: int, shares: Seq<u128>)
    ensures
        sum_ints(payouts(amount, shares).0) + payouts(amount, shares).1 == amount,
        payouts(amount, shares).0.len() == shares.len(),
{
}

/// The transfers carry the payouts and the rest, the zero ones left out.
pub proof fn lemma_transfers_add_up(addrs: Seq<Seq<char>>, pays: Seq<int>, rest: int, channel: Seq<char>)
    ensures
        transferred(transfers(addrs, pays, rest, channel)) == sum_ints(pays) + rest,
    decreases pays.len(),
{
    if pays.len() == 0 {
        if rest != 0 {
            let one = seq![(channel, rest)];
            assert(one.drop_first() =~= Seq::<(Seq<char>, int)>::empty());
            assert(transferred(one.drop_first()) == 0);
            assert(one[0].1 == rest);
        }
    } else {
        let t = transfers(addrs.drop_first(), pays.drop_first(), rest, channel);
        lemma_transfers_add_up(addrs.drop_first(), pays.drop_first(), rest, channel);
        if pays[0] != 0 {
            assert((seq![(addrs[0], pays[0])] + t).drop_first() =~= t);
        }
    }
}

/// No transfer of shared-out funds is of a zero amount.
pub proof fn lemma_transfers_nonzero(addrs: Seq<Seq<char>>, pays: Seq<int>, rest: int, channel: Seq<char>)
    ensures
        forall|j: int|
            0 <= j < transfers(addrs, pays, rest, channel).len() ==> #[trigger] transfers(
                addrs,
                pays,
                rest,
                channel,
            )[j].1 != 0,
    decreases pays.len(),
{
    if pays.len() > 0 {
        let t = transfers(addrs.drop_first(), pays.drop_first(), rest, channel);
        lemma_transfers_nonzero(addrs.drop_first(), pays.drop_first(), rest, channel);
        if pays[0] != 0 {
            let all = seq![(addrs[0], pays[0])] + t;
            assert forall|j: int| 0 <= j < all.len() implies #[trigger] all[j].1 != 0 by {
                if j > 0 {
                    assert(all[j] == t[j - 1]);
                }
            }
        }
    }
}

/// Sharing out a tip moves exactly the tipped amount: what the transfers carry
/// adds up to `amount`.
pub proof fn lemma_tip_conserved(addrs: Seq<Seq<char>>, shares: Seq<u128>, amount: int, channel: Seq<char>)
    ensures
        transferred(transfers(addrs, payouts(amount, shares).0, payouts(amount, shares).1, channel)) == amount,
{
    lemma_payouts_add_up(amount, shares);
    lemma_transfers_add_up(addrs, payouts(amount, shares).0, payouts(amount, shares).1, channel);
}

/// A transfer of one coin of `amount` units of `denom`, or nothing when the
/// amount is zero.
fn send_one(to: &String, denom: &String, amount: u128) -> (r: Vec<BankSend>)
    ensures
        amount == 0 ==> r@.len() == 0,
        amount != 0 ==> r@.len() == 1 && r@[0].to_address == *to && coins_view(r@[0].amount@) == seq![(denom@, amount)],
{
    let mut coins: Vec<Coin> = Vec::new();
    coins.push(Coin { denom: denom.clone(), amount });
    proof {
        assert(coins_view(coins@) =~= seq![(denom@, amount)]);
        assert forall|d: Seq<char>| #[trigger] total(coins_view(coins@), d) <= u128::MAX by {
            lemma_total_single((denom@, amount), d);
        }
    }
    let r = bank_msg_wrapper(to.clone(), coins);
    proof {
        let one = seq![(denom@, amount)];
        lemma_total_single((denom@, amount), denom@);
        if amount == 0 {
            assert forall|d: Seq<char>| #[trigger] total(coins_view(coins@), d) == 0 by {
                lemma_total_single((denom@, amount), d);
            }
        }
        if amount != 0 {
            assert(r@.len() != 0);
            assert(canonical(one));
            assert forall|d: Seq<char>| #[trigger] total(coins_view(r@[0].amount@), d) == total(one, d) by {
                assert(total(coins_view(coins@), d) == total(one, d));
            }
            lemma_canonical_eq(coins_view(r@[0].amount@), one);
        }
    }
    r
}

/// Shares out `amount`: each collaborator gets its share of the whole amount,
/// rounded down, and the channel's payment address gets the rest. Hands back
/// the transfers, leaving out zero ones, and, for each collaborator in turn and
/// then for the rest when it is not zero, the address and the coin it got.
pub fn distribute_funds_with_shares(
    collaborators: Vec<(String, Decimal)>,
    amount: Coin,
    channel_payment_address: String,
) -> (r: Result<(Vec<BankSend>, Vec<(String, String)>), ContractError>)
    requires
        pays_within(amount.amount as int, share_atomics(collaborators@)),
    ensures
        ({
            let shares = share_atomics(collaborators@);
            let pays = payouts(amount.amount as int, shares).0;
            let rest = payouts(amount.amount as int, shares).1;
            let ts = transfers(share_addresses(collaborators@), pays, rest, channel_payment_address@);
            let n = collaborators@.len();
            r matches Ok((msgs, attrs)) && {
                &&& msgs@.len() == ts.len()
                &&& forall|j: int| 0 <= j < ts.len() ==> #[trigger] ts[j].1 != 0
                &&& forall|j: int|
                    0 <= j < ts.len() ==> (#[trigger] msgs@[j]).to_address@ == ts[j].0 && coins_view(msgs@[j].amount@)
                        == seq![(amount.denom@, ts[j].1 as u128)]
                &&& attrs@.len() == n + if rest != 0 { 1int } else { 0int }
                &&& forall|j: int|
                    0 <= j < n ==> (#[trigger] attrs@[j]).0 == collaborators@[j].0 && attrs@[j].1@ == decimal(
                        pays[j] as nat,
                    ) + amount.denom@
                &&& rest != 0 ==> attrs@[n as int].0 == channel_payment_address && attrs@[n as int].1@ == decimal(rest as nat)
                    + amount.denom@
                &&& attrs_view(attrs@) == share_attrs(
                    share_addresses(collaborators@),
                    pays,
                    rest,
                    channel_payment_address@,
                    amount.denom@,
                )
            }
        }),
{
    let ghost shares = share_atomics(collaborators@);
    let ghost addrs = share_addresses(collaborators@);
    let ghost ch = channel_payment_address@;
    let ghost pays = payouts(amount.amount as int, shares).0;
    let ghost rest = payouts(amount.amount as int, shares).1;
    let ghost ts = transfers(addrs, pays, rest, ch);
    let n = collaborators.len();
    proof {
        lemma_payouts_add_up(amount.amount as int, shares);
        assert(shares.skip(0) =~= shares);
        assert(pays.skip(0) =~= pays);
        assert(addrs.skip(0) =~= addrs);
    }
    let mut msgs: Vec<BankSend> = Vec::new();
    let mut attrs: Vec<(String, String)> = Vec::new();
    let mut remaining: u128 = amount.amount;
    let ghost mut done: Seq<(Seq<char>, int)> = Seq::empty();
    let mut i: usize = 0;
    proof {
        lemma_pays_sum(amount.amount as int, shares);
    }
    while i < n
        invariant
            n == collaborators@.len(),
            i <= n,
            shares == share_atomics(collaborators@),
            addrs == share_addresses(collaborators@),
            ch == channel_payment_address@,
            pays.len() == n,
            pays == share_pays(amount.amount as int, shares),
            rest == amount.amount - sum_ints(pays),
            forall|j: int| 0 <= j < n ==> #[trigger] pays[j] >= 0,
            pays_within(amount.amount as int, shares),
            remaining as int == amount.amount - (sum_ints(pays) - sum_ints(pays.skip(i as int))),
            sum_ints(pays.skip(i as int)) <= remaining,
            ts == transfers(addrs, pays, rest, ch),
            ts == done + transfers(addrs.skip(i as int), pays.skip(i as int), rest, ch),
            msgs@.len() == done.len(),
            forall|j: int|
                0 <= j < done.len() ==> (#[trigger] msgs@[j]).to_address@ == done[j].0 && coins_view(msgs@[j].amount@)
                    == seq![(amount.denom@, done[j].1 as u128)],
            attrs@.len() == i,
            forall|j: int|
                0 <= j < i ==> (#[trigger] attrs@[j]).0 == collaborators@[j].0 && attrs@[j].1@ == decimal(pays[j] as nat)
                    + amount.denom@,
        decreases n - i,
    {
        let share = collaborators[i].1.atomics;
        assert(shares[i as int] == share);
        assert(amount.amount * share <= u128::MAX);
        let pay = (amount.amount * share) / DECIMAL_FRACTIONAL;
        assert(pays[i as int] == pay);
        assert(pays.skip(i as int)[0] == pay);
        assert(pays.skip(i as int).drop_first() =~= pays.skip(i + 1));
        assert(addrs.skip(i as int).drop_first() =~= addrs.skip(i + 1));
        assert(addrs.skip(i as int)[0] == collaborators@[i as int].0@);
        proof {
            assert forall|j: int| 0 <= j < pays.skip(i + 1).len() implies #[trigger] pays.skip(i + 1)[j] >= 0 by {
                assert(pays.skip(i + 1)[j] == pays[i + 1 + j]);
            }
            lemma_sum_nonneg(pays.skip(i + 1));
        }
        let addr = &collaborators[i].0;
        let sent = send_one(addr, &amount.denom, pay);
        if pay != 0 {
            msgs.push(BankSend { to_address: sent[0].to_address.clone(), amount: crate::bank::copy_coins(&sent[0].amount) });
            proof {
                let t = transfers(addrs.skip(i + 1), pays.skip(i + 1), rest, ch);
                assert(transfers(addrs.skip(i as int), pays.skip(i as int), rest, ch) == seq![(addrs[i as int], pay as int)] + t);
                assert(done + (seq![(addrs[i as int], pay as int)] + t) =~= done.push((addrs[i as int], pay as int)) + t);
                done = done.push((addrs[i as int], pay as int));
            }
        }
        let coin = Coin { denom: amount.denom.clone(), amount: pay };
        attrs.push((addr.clone(), coin.to_text()));
        remaining = remaining - pay;
        i = i + 1;
    }
    proof {
        assert(pays.skip(n as int) =~= Seq::<int>::empty());
        assert(addrs.skip(n as int).len() == 0);
    }
    if remaining != 0 {
        let sent = send_one(&channel_payment_address, &amount.denom, remaining);
        msgs.push(BankSend { to_address: sent[0].to_address.clone(), amount: crate::bank::copy_coins(&sent[0].amount) });
        let coin = Coin { denom: amount.denom.clone(), amount: remaining };
        attrs.push((channel_payment_address.clone(), coin.to_text()));
        proof {
            assert(ts == done + seq![(ch, rest)]);
            done = done.push((ch, rest));
            assert(ts =~= done);
        }
    } else {
        proof {
            assert(ts =~= done);
        }
    }
    proof {
        lemma_transfers_nonzero(addrs, pays, rest, ch);
        lemma_payouts_add_up(amount.amount as int, shares);
        let sa = share_attrs(addrs, pays, rest, ch, amount.denom@);
        assert(attrs_view(attrs@) =~= sa);
    }
    Ok((msgs, attrs))
}

/// A copy of a list of coins.
pub fn copy_coins(v: &Vec<Coin>) -> (r: Vec<Coin>)
    ensures
        r@ == v@,
{
    let mut out: Vec<Coin> = Vec::new();
    let mut i: usize = 0;
    while i < v.len()
        invariant
            i <= v@.len(),
            out@ == v@.take(i as int),
        decreases v@.len() - i,
    {
        out.push(v[i].duplicate());
        assert(out@ =~= v@.take(i + 1));
        i = i + 1;
    }
    assert(out@ =~= v@);
    out
}

} // verus!
