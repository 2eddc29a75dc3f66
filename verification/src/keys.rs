use vstd::prelude::*;

use crate::order::{char_order, key_lt, lemma_key_order, lemma_str_order, lex_lt, str_lt, strict_total};
use crate::text::chars_of;

verus! {

/// A storage key: one or more strings, ordered component by component.
#[derive(Debug)]
pub struct Key {
    pub parts: Vec<Vec<char>>,
}

impl View for Key {
    type V = Seq<Seq<char>>;

    open spec fn view(&self) -> Seq<Seq<char>> {
        self.parts@.map_values(|p: Vec<char>| p@)
    }
}

/// The key made of one string.
pub open spec fn key1(a: Seq<char>) -> Seq<Seq<char>> {
    seq![a]
}

/// Keys of one string are equal only for equal strings.
pub proof fn lemma_key1_injective(a: Seq<char>, b: Seq<char>)
    ensures
        key1(a) == key1(b) <==> a == b,
{
    if key1(a) == key1(b) {
        assert(key1(a)[0] == key1(b)[0]);
    }
}

/// The key made of two strings.
pub open spec fn key2(a: Seq<char>, b: Seq<char>) -> Seq<Seq<char>> {
    seq![a, b]
}

/// The key made of three strings.
pub open spec fn key3(a: Seq<char>, b: Seq<char>, c: Seq<char>) -> Seq<Seq<char>> {
    seq![a, b, c]
}

proof fn lemma_lex_step<T>(a: Seq<T>, b: Seq<T>, lt: spec_fn(T, T) -> bool, i: int)
    requires
        0 <= i < a.len(),
        i < b.len(),
        !lt(a[i], b[i]),
        !lt(b[i], a[i]),
    ensures
        lex_lt(a.skip(i), b.skip(i), lt) == lex_lt(a.skip(i + 1), b.skip(i + 1), lt),
{
    assert(a.skip(i).drop_first() =~= a.skip(i + 1));
    assert(b.skip(i).drop_first() =~= b.skip(i + 1));
}

/// Whether `a` comes before `b` in string order.
pub fn chars_less(a: &Vec<char>, b: &Vec<char>) -> (r: bool)
    ensures
        r == str_lt(a@, b@),
{
    let na = a.len();
    let nb = b.len();
    let mut i: usize = 0;
    assert(a@.skip(0) =~= a@);
    assert(b@.skip(0) =~= b@);
    while i < na && i < nb
        invariant
            na == a@.len(),
            nb == b@.len(),
            i <= na,
            i <= nb,
            str_lt(a@, b@) == lex_lt(a@.skip(i as int), b@.skip(i as int), char_order()),
        decreases na - i,
    {
        if a[i] < b[i] {
            return true;
        }
        if b[i] < a[i] {
            return false;
        }
        proof {
            lemma_lex_step(a@, b@, char_order(), i as int);
        }
        i = i + 1;
    }
    i < nb
}

/// Whether `a` and `b` hold the same characters.
pub fn chars_equal(a: &Vec<char>, b: &Vec<char>) -> (r: bool)
    ensures
        r == (a@ == b@),
{
    proof {
        lemma_str_order();
    }
    let r = !chars_less(a, b) && !chars_less(b, a);
    proof {
        let l = |x: Seq<char>, y: Seq<char>| str_lt(x, y);
        if a@ != b@ {
            assert(l(a@, b@) || l(b@, a@));
        } else {
            assert(!l(a@, a@));
        }
    }
    r
}

impl Key {
    /// The key made of the characters of `a`.
    pub fn one(a: &str) -> (r: Key)
        ensures
            r@ == key1(a@),
    {
        let mut parts: Vec<Vec<char>> = Vec::new();
        parts.push(chars_of(a));
        let r = Key { parts };
        assert(r@ =~= key1(a@));
        r
    }

    /// The key made of the characters of `a` then those of `b`.
    pub fn two(a: &str, b: &str) -> (r: Key)
        ensures
            r@ == key2(a@, b@),
    {
        let mut parts: Vec<Vec<char>> = Vec::new();
        parts.push(chars_of(a));
        parts.push(chars_of(b));
        let r = Key { parts };
        assert(r@ =~= key2(a@, b@));
        r
    }

    /// The key made of the characters of `a`, then `b`, then `c`.
    pub fn three(a: &str, b: &str, c: &str) -> (r: Key)
        ensures
            r@ == key3(a@, b@, c@),
    {
        let mut parts: Vec<Vec<char>> = Vec::new();
        parts.push(chars_of(a));
        parts.push(chars_of(b));
        parts.push(chars_of(c));
        let r = Key { parts };
        assert(r@ =~= key3(a@, b@, c@));
        r
    }

    /// Whether this key comes before `other`.
    pub fn less(&self, other: &Key) -> (r: bool)
        ensures
            r == key_lt(self@, other@),
    {
        let na = self.parts.len();
        let nb = other.parts.len();
        let ghost sv = self@;
        let ghost ov = other@;
        let ghost lt = |x: Seq<char>, y: Seq<char>| str_lt(x, y);
        let mut i: usize = 0;
        assert(sv.skip(0) =~= sv);
        assert(ov.skip(0) =~= ov);
        while i < na && i < nb
            invariant
                na == sv.len(),
                nb == ov.len(),
                sv == self@,
                ov == other@,
                lt == (|x: Seq<char>, y: Seq<char>| str_lt(x, y)),
                i <= na,
                i <= nb,
                key_lt(sv, ov) == lex_lt(sv.skip(i as int), ov.skip(i as int), lt),
            decreases na - i,
        {
            if chars_less(&self.parts[i], &other.parts[i]) {
                assert(lt(sv[i as int], ov[i as int]));
                assert(sv.skip(i as int)[0] == sv[i as int]);
                assert(ov.skip(i as int)[0] == ov[i as int]);
                return true;
            }
            if chars_less(&other.parts[i], &self.parts[i]) {
                assert(lt(ov[i as int], sv[i as int]));
                assert(sv.skip(i as int)[0] == sv[i as int]);
                assert(ov.skip(i as int)[0] == ov[i as int]);
                return false;
            }
            proof {
                lemma_lex_step(sv, ov, lt, i as int);
            }
            i = i + 1;
        }
        i < nb
    }

    /// Whether this key equals `other`.
    pub fn same(&self, other: &Key) -> (r: bool)
        ensures
            r == (self@ == other@),
    {
        proof {
            lemma_key_order();
        }
        let r = !self.less(other) && !other.less(self);
        proof {
            let l = |x: Seq<Seq<char>>, y: Seq<Seq<char>>| key_lt(x, y);
            if self@ != other@ {
                assert(l(self@, other@) || l(other@, self@));
            } else {
                assert(!l(self@, self@));
            }
        }
        r
    }

    /// Whether the first component of this key is `c`.
    pub fn first_is(&self, c: &Vec<char>) -> (r: bool)
        ensures
            r == (self@.len() > 0 && self@[0] == c@),
    {
        if self.parts.len() == 0 {
            false
        } else {
            chars_equal(&self.parts[0], c)
        }
    }
}

} // verus!
