use vstd::prelude::*;

verus! {

/// The length in bytes of the UTF-8 encoding of `s`.
pub open spec fn utf8_len(s: Seq<char>) -> nat {
    vstd::utf8::encode_utf8(s).len()
}

/// `p` is a prefix of `s`.
pub open spec fn has_prefix(s: Seq<char>, p: Seq<char>) -> bool {
    p.len() <= s.len() && s.take(p.len() as int) == p
}

/// `p` is a suffix of `s`.
pub open spec fn has_suffix(s: Seq<char>, p: Seq<char>) -> bool {
    p.len() <= s.len() && s.skip(s.len() - p.len()) == p
}

/// `p` occurs in `s` at position `i`.
pub open spec fn occurs_at(s: Seq<char>, p: Seq<char>, i: int) -> bool {
    0 <= i && i + p.len() <= s.len() && s.subrange(i, i + p.len()) == p
}

/// `p` occurs somewhere in `s`.
pub open spec fn has_infix(s: Seq<char>, p: Seq<char>) -> bool {
    exists|i: int| occurs_at(s, p, i)
}

/// The characters of a string slice, in order.
pub fn chars_of(s: &str) -> (r: Vec<char>)
    ensures
        r@ == s@,
{
    let mut out: Vec<char> = Vec::new();
    for c in it: s.chars()
        invariant
            out@ == it.seq().take(it.index() as int),
            it.seq() == s@,
    {
        out.push(c);
    }
    out
}

/// Whether `p` occurs in `s` starting at index `start`.
pub fn matches_at(s: &Vec<char>, p: &Vec<char>, start: usize) -> (r: bool)
    requires
        start + p@.len() <= s@.len(),
    ensures
        r == occurs_at(s@, p@, start as int),
{
    let n = s.len();
    let mut i: usize = 0;
    while i < p.len()
        invariant
            i <= p@.len(),
            start + p@.len() <= s@.len(),
            n == s@.len(),
            forall|j: int| 0 <= j < i ==> s@[start + j] == p@[j],
        decreases p@.len() - i,
    {
        if s[start + i] != p[i] {
            assert(s@.subrange(start as int, start + p@.len())[i as int] != p@[i as int]);
            return false;
        }
        i = i + 1;
    }
    assert(s@.subrange(start as int, start + p@.len()) =~= p@);
    true
}

/// Whether `s` starts with `p`.
pub fn starts_with(s: &Vec<char>, p: &Vec<char>) -> (r: bool)
    ensures
        r == has_prefix(s@, p@),
{
    if p.len() > s.len() {
        return false;
    }
    let r = matches_at(s, p, 0);
    assert(s@.subrange(0, p@.len() as int) =~= s@.take(p@.len() as int));
    r
}

/// Whether `s` ends with `p`.
pub fn ends_with(s: &Vec<char>, p: &Vec<char>) -> (r: bool)
    ensures
        r == has_suffix(s@, p@),
{
    if p.len() > s.len() {
        return false;
    }
    let start = s.len() - p.len();
    let r = matches_at(s, p, start);
    assert(s@.subrange(start as int, s@.len() as int) =~= s@.skip(start as int));
    r
}

/// Whether `p` occurs anywhere in `s`.
pub fn contains_chars(s: &Vec<char>, p: &Vec<char>) -> (r: bool)
    ensures
        r == has_infix(s@, p@),
{
    if p.len() > s.len() {
        assert forall|i: int| !occurs_at(s@, p@, i) by {}
        return false;
    }
    let last = s.len() - p.len();
    let mut start: usize = 0;
    loop
        invariant
            last + p@.len() == s@.len(),
            start <= last,
            forall|k: int| 0 <= k < start ==> !occurs_at(s@, p@, k),
        ensures
            forall|k: int| 0 <= k <= last ==> !occurs_at(s@, p@, k),
        decreases last - start,
    {
        if matches_at(s, p, start) {
            return true;
        }
        if start == last {
            break;
        }
        start = start + 1;
    }
    assert forall|i: int| !occurs_at(s@, p@, i) by {
        if 0 <= i && i + p@.len() <= s@.len() {
            assert(i <= last);
        }
    }
    false
}

} // verus!

verus! {

/// A copy of a list of strings.
pub fn clone_strings(v: &Vec<String>) -> (r: Vec<String>)
    ensures
        r@ == v@,
{
    let mut out: Vec<String> = Vec::new();
    let mut i: usize = 0;
    while i < v.len()
        invariant
            i <= v@.len(),
            out@ == v@.take(i as int),
        decreases v@.len() - i,
    {
        out.push(v[i].clone());
        assert(out@ =~= v@.take(i + 1));
        i = i + 1;
    }
    assert(out@ =~= v@);
    out
}

} // verus!

verus! {

/// `String::push`: appends `c` to `s`.
#[verifier::external_body]
pub(crate) fn push_char(s: &mut String, c: char)
    ensures
        final(s)@ == old(s)@.push(c),
{
    s.push(c);
}

/// The decimal digit for `d`, below ten.
pub open spec fn digit(d: int) -> char {
    (d + 48) as char
}

/// The decimal numeral of `n`, without leading zeros.
pub open spec fn decimal(n: nat) -> Seq<char>
    decreases n,
{
    if n < 10 {
        seq![digit(n as int)]
    } else {
        decimal(n / 10).push(digit((n % 10) as int))
    }
}

/// The last `k` decimal digits of `f`, with leading zeros.
pub open spec fn padded(f: nat, k: nat) -> Seq<char>
    decreases k,
{
    if k == 0 {
        Seq::empty()
    } else {
        padded(f / 10, (k - 1) as nat).push(digit((f % 10) as int))
    }
}

/// The last `k` decimal digits of `f`, with leading zeros, without the trailing
/// zeros.
pub open spec fn padded_trimmed(f: nat, k: nat) -> Seq<char>
    decreases k,
{
    if k == 0 {
        Seq::empty()
    } else if f % 10 == 0 {
        padded_trimmed(f / 10, (k - 1) as nat)
    } else {
        padded(f, k)
    }
}

fn digit_char(d: u8) -> (r: char)
    requires
        d < 10,
    ensures
        r == digit(d as int),
{
    assert((d + 48) as char == digit(d as int));
    (d + 48) as char
}

/// Appends the decimal numeral of `n` to `s`.
pub fn push_decimal(s: &mut String, n: u128)
    ensures
        final(s)@ == old(s)@ + decimal(n as nat),
    decreases n,
{
    if n >= 10 {
        push_decimal(s, n / 10);
    }
    push_char(s, digit_char((n % 10) as u8));
    proof {
        if n >= 10 {
            assert(old(s)@ + decimal(n as nat) =~= (old(s)@ + decimal((n / 10) as nat)).push(digit((n % 10) as int)));
        } else {
            assert(old(s)@ + decimal(n as nat) =~= old(s)@.push(digit((n % 10) as int)));
        }
    }
}

/// Appends the last `k` decimal digits of `f`, with leading zeros, to `s`.
fn push_padded(s: &mut String, f: u128, k: u32)
    ensures
        final(s)@ == old(s)@ + padded(f as nat, k as nat),
    decreases k,
{
    if k > 0 {
        push_padded(s, f / 10, k - 1);
        push_char(s, digit_char((f % 10) as u8));
        assert(old(s)@ + padded(f as nat, k as nat) =~= (old(s)@ + padded((f / 10) as nat, (k - 1) as nat)).push(
            digit((f % 10) as int),
        ));
    } else {
        assert(old(s)@ + padded(f as nat, k as nat) =~= old(s)@);
    }
}

/// Appends the last `k` decimal digits of `f`, with leading zeros, without the
/// trailing zeros, to `s`.
pub fn push_padded_trimmed(s: &mut String, f: u128, k: u32)
    ensures
        final(s)@ == old(s)@ + padded_trimmed(f as nat, k as nat),
{
    let mut g = f;
    let mut m = k;
    while m > 0 && g % 10 == 0
        invariant
            padded_trimmed(g as nat, m as nat) == padded_trimmed(f as nat, k as nat),
        decreases m,
    {
        g = g / 10;
        m = m - 1;
    }
    push_padded(s, g, m);
    if m == 0 {
        assert(padded(g as nat, 0) =~= Seq::<char>::empty());
    }
}

/// The decimal numeral of `n`.
pub fn decimal_string(n: u128) -> (r: String)
    ensures
        r@ == decimal(n as nat),
{
    let mut s = String::new();
    push_decimal(&mut s, n);
    assert(Seq::<char>::empty() + decimal(n as nat) =~= decimal(n as nat));
    s
}

} // verus!

verus! {

/// `parts` joined, with `sep` between neighbours.
pub open spec fn joined(parts: Seq<Seq<char>>, sep: Seq<char>) -> Seq<char>
    decreases parts.len(),
{
    if parts.len() == 0 {
        Seq::empty()
    } else if parts.len() == 1 {
        parts[0]
    } else {
        joined(parts.drop_last(), sep) + sep + parts.last()
    }
}

/// `parts` joined, with `sep` between neighbours.
pub fn join_strings(parts: &Vec<String>, sep: &str) -> (r: String)
    ensures
        r@ == joined(parts@.map_values(|p: String| p@), sep@),
{
    let ghost all = parts@.map_values(|p: String| p@);
    let mut s = String::new();
    let mut i: usize = 0;
    assert(all.take(0) =~= Seq::<Seq<char>>::empty());
    while i < parts.len()
        invariant
            i <= parts@.len(),
            all == parts@.map_values(|p: String| p@),
            s@ == joined(all.take(i as int), sep@),
        decreases parts@.len() - i,
    {
        if i > 0 {
            s.append(sep);
        }
        s.append(parts[i].as_str());
        proof {
            let t = all.take(i + 1);
            assert(t.drop_last() =~= all.take(i as int));
            assert(t.last() == parts@[i as int]@);
            if i == 0 {
                assert(s@ =~= joined(t, sep@));
            }
        }
        i = i + 1;
    }
    assert(all.take(i as int) =~= all);
    s
}

} // verus!

verus! {

/// The number that the decimal digits `s` write.
pub open spec fn digits_value(s: Seq<char>) -> int
    decreases s.len(),
{
    if s.len() == 0 {
        0
    } else {
        digits_value(s.drop_last()) * 10 + (s.last() as int - 48)
    }
}

/// Every character of `s` is a decimal digit.
pub open spec fn all_digits(s: Seq<char>) -> bool {
    forall|i: int| 0 <= i < s.len() ==> '0' <= #[trigger] s[i] <= '9'
}

/// The unsigned 128-bit number that `s` writes in decimal, after an optional
/// plus sign: at least one digit, and no more than `u128::MAX`.
pub open spec fn parse_u128(s: Seq<char>) -> Option<u128> {
    let t = if s.len() > 0 && s[0] == '+' { s.drop_first() } else { s };
    if t.len() > 0 && all_digits(t) && digits_value(t) <= u128::MAX {
        Some(digits_value(t) as u128)
    } else {
        None
    }
}

proof fn lemma_digits_value_nonneg(s: Seq<char>)
    requires
        all_digits(s),
    ensures
        digits_value(s) >= 0,
    decreases s.len(),
{
    if s.len() > 0 {
        assert(all_digits(s.drop_last())) by {
            assert forall|i: int| 0 <= i < s.drop_last().len() implies '0' <= #[trigger] s.drop_last()[i] <= '9' by {
                assert(s.drop_last()[i] == s[i]);
            }
        }
        lemma_digits_value_nonneg(s.drop_last());
    }
}

proof fn lemma_digits_value_grows(s: Seq<char>, k: int)
    requires
        all_digits(s),
        0 <= k <= s.len(),
    ensures
        digits_value(s.take(k)) <= digits_value(s),
    decreases s.len() - k,
{
    if k < s.len() {
        lemma_digits_value_grows(s, k + 1);
        assert(s.take(k + 1).drop_last() =~= s.take(k));
        assert(all_digits(s.take(k))) by {
            assert forall|i: int| 0 <= i < s.take(k).len() implies '0' <= #[trigger] s.take(k)[i] <= '9' by {
                assert(s.take(k)[i] == s[i]);
            }
        }
        lemma_digits_value_nonneg(s.take(k));
        assert(s.take(k + 1).last() == s[k]);
    } else {
        assert(s.take(k) =~= s);
    }
}

/// The unsigned 128-bit number that `s` writes in decimal, after an optional
/// plus sign.
pub fn parse_u128_text(s: &str) -> (r: Option<u128>)
    ensures
        r == parse_u128(s@),
{
    let chars = chars_of(s);
    let mut start: usize = 0;
    if chars.len() > 0 && chars[0] == '+' {
        start = 1;
    }
    let ghost t = if s@.len() > 0 && s@[0] == '+' { s@.drop_first() } else { s@ };
    assert(t =~= chars@.skip(start as int));
    if start >= chars.len() {
        return None;
    }
    let mut value: u128 = 0;
    let mut i: usize = start;
    while i < chars.len()
        invariant
            start <= i <= chars@.len(),
            chars@ == s@,
            t == chars@.skip(start as int),
            t == (if s@.len() > 0 && s@[0] == '+' { s@.drop_first() } else { s@ }),
            t.len() > 0,
            all_digits(t.take(i - start)),
            value == digits_value(t.take(i - start)),
        decreases chars@.len() - i,
    {
        let c = chars[i];
        let ghost k = i - start;
        assert(t[k] == chars@[i as int]);
        assert(t.take(k + 1).drop_last() =~= t.take(k));
        assert(t.take(k + 1).last() == c);
        if !('0' <= c && c <= '9') {
            proof {
                assert(!all_digits(t)) by {
                    assert(t[k] == c);
                }
            }
            return None;
        }
        let d = (c as u32 - 48) as u128;
        assert(d == c as int - 48);
        assert(digits_value(t.take(k + 1)) == value * 10 + d);
        assert(all_digits(t.take(k + 1))) by {
            assert forall|j: int| 0 <= j < t.take(k + 1).len() implies '0' <= #[trigger] t.take(k + 1)[j] <= '9' by {
                if j < k {
                    assert(t.take(k + 1)[j] == t.take(k)[j]);
                }
            }
        }
        if value > (u128::MAX - d) / 10 {
            proof {
                assert(value * 10 + d > u128::MAX) by (nonlinear_arith)
                    requires
                        value > (u128::MAX - d) / 10,
                        d <= 9,
                ;
                if all_digits(t) {
                    lemma_digits_value_grows(t, k + 1);
                }
            }
            return None;
        }
        value = value * 10 + d;
        i = i + 1;
    }
    assert(t.take(i - start) =~= t);
    Some(value)
}

} // verus!
