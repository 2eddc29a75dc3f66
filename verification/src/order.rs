use vstd::prelude::*;

verus! {

/// `lt` is a strict total order.
pub open spec fn strict_total<T>(lt: spec_fn(T, T) -> bool) -> bool {
    &&& forall|x: T| !#[trigger] lt(x, x)
    &&& forall|x: T, y: T, z: T| #[trigger] lt(x, y) && #[trigger] lt(y, z) ==> lt(x, z)
    &&& forall|x: T, y: T| x != y ==> #[trigger] lt(x, y) || #[trigger] lt(y, x)
}

/// The lexicographic order on sequences that `lt` induces: a proper prefix comes
/// first.
pub open spec fn lex_lt<T>(a: Seq<T>, b: Seq<T>, lt: spec_fn(T, T) -> bool) -> bool
    decreases a.len(),
{
    if a.len() == 0 {
        b.len() > 0
    } else if b.len() == 0 {
        false
    } else if lt(a[0], b[0]) {
        true
    } else if lt(b[0], a[0]) {
        false
    } else {
        lex_lt(a.drop_first(), b.drop_first(), lt)
    }
}

proof fn lemma_lex_irreflexive<T>(a: Seq<T>, lt: spec_fn(T, T) -> bool)
    requires
        strict_total(lt),
    ensures
        !lex_lt(a, a, lt),
    decreases a.len(),
{
    if a.len() > 0 {
        assert(!lt(a[0], a[0]));
        lemma_lex_irreflexive(a.drop_first(), lt);
    }
}

proof fn lemma_lex_transitive<T>(a: Seq<T>, b: Seq<T>, c: Seq<T>, lt: spec_fn(T, T) -> bool)
    requires
        strict_total(lt),
        lex_lt(a, b, lt),
        lex_lt(b, c, lt),
    ensures
        lex_lt(a, c, lt),
    decreases a.len(),
{
    if a.len() > 0 && b.len() > 0 && c.len() > 0 {
        if !lt(a[0], b[0]) && !lt(b[0], a[0]) && !lt(b[0], c[0]) && !lt(c[0], b[0]) {
            assert(a[0] == b[0]);
            assert(b[0] == c[0]);
            lemma_lex_transitive(a.drop_first(), b.drop_first(), c.drop_first(), lt);
        } else if lt(a[0], b[0]) && lt(b[0], c[0]) {
            assert(lt(a[0], c[0]));
        } else if lt(a[0], b[0]) {
            assert(b[0] == c[0]);
        } else {
            assert(a[0] == b[0]);
        }
        if lt(c[0], a[0]) {
            if lt(a[0], b[0]) {
                if lt(b[0], c[0]) {
                    assert(lt(a[0], c[0]));
                    assert(lt(a[0], a[0]));
                } else {
                    assert(b[0] == c[0]);
                    assert(lt(a[0], a[0]));
                }
            } else {
                assert(a[0] == b[0]);
                assert(lt(b[0], b[0]));
            }
        }
    }
}

proof fn lemma_lex_total<T>(a: Seq<T>, b: Seq<T>, lt: spec_fn(T, T) -> bool)
    requires
        strict_total(lt),
        a != b,
    ensures
        lex_lt(a, b, lt) || lex_lt(b, a, lt),
    decreases a.len(),
{
    if a.len() > 0 && b.len() > 0 {
        if !lt(a[0], b[0]) && !lt(b[0], a[0]) {
            assert(a[0] == b[0]);
            if a.drop_first() == b.drop_first() {
                assert(a =~= seq![a[0]] + a.drop_first());
                assert(b =~= seq![b[0]] + b.drop_first());
            }
            lemma_lex_total(a.drop_first(), b.drop_first(), lt);
        }
    } else if a.len() == 0 && b.len() == 0 {
        assert(a =~= b);
    }
}

/// The lexicographic order induced by a strict total order is a strict total order.
pub proof fn lemma_lex_strict_total<T>(lt: spec_fn(T, T) -> bool)
    requires
        strict_total(lt),
    ensures
        strict_total(|a: Seq<T>, b: Seq<T>| lex_lt(a, b, lt)),
{
    let l = |a: Seq<T>, b: Seq<T>| lex_lt(a, b, lt);
    assert forall|x: Seq<T>| !#[trigger] l(x, x) by {
        lemma_lex_irreflexive(x, lt);
    }
    assert forall|x: Seq<T>, y: Seq<T>, z: Seq<T>| #[trigger] l(x, y) && #[trigger] l(y, z) implies l(x, z) by {
        lemma_lex_transitive(x, y, z, lt);
    }
    assert forall|x: Seq<T>, y: Seq<T>| x != y implies #[trigger] l(x, y) || #[trigger] l(y, x) by {
        lemma_lex_total(x, y, lt);
    }
}

/// The order on characters, by code point.
pub open spec fn char_order() -> spec_fn(char, char) -> bool {
    |x: char, y: char| x < y
}

/// The order on strings: lexicographic by code point, which is the order of
/// their UTF-8 bytes.
pub open spec fn str_lt(a: Seq<char>, b: Seq<char>) -> bool {
    lex_lt(a, b, char_order())
}

/// The order on keys made of several strings: lexicographic by component.
pub open spec fn key_lt(a: Seq<Seq<char>>, b: Seq<Seq<char>>) -> bool {
    lex_lt(a, b, |x: Seq<char>, y: Seq<char>| str_lt(x, y))
}

pub proof fn lemma_str_order()
    ensures
        strict_total(|x: Seq<char>, y: Seq<char>| str_lt(x, y)),
{
    assert(strict_total(char_order()));
    lemma_lex_strict_total(char_order());
    let a = |x: Seq<char>, y: Seq<char>| lex_lt(x, y, char_order());
    let b = |x: Seq<char>, y: Seq<char>| str_lt(x, y);
    assert(a =~= b);
}

/// The order on keys is a strict total order.
pub proof fn lemma_key_order()
    ensures
        strict_total(|x: Seq<Seq<char>>, y: Seq<Seq<char>>| key_lt(x, y)),
{
    lemma_str_order();
    lemma_lex_strict_total(|x: Seq<char>, y: Seq<char>| str_lt(x, y));
    let a = |x: Seq<Seq<char>>, y: Seq<Seq<char>>| lex_lt(x, y, |p: Seq<char>, q: Seq<char>| str_lt(p, q));
    let b = |x: Seq<Seq<char>>, y: Seq<Seq<char>>| key_lt(x, y);
    assert(a =~= b);
}

} // verus!
