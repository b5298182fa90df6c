//! Orders: lexicographic order of sequences, and what it is to be sorted.

use vstd::prelude::*;

verus! {

/// Whether `a` stands before `b` in the order of their first difference.
pub open spec fn lex<T>(a: Seq<T>, b: Seq<T>, lt: spec_fn(T, T) -> bool) -> bool
    decreases a.len(),
{
    if b.len() == 0 {
        false
    } else if a.len() == 0 {
        true
    } else {
        ||| lt(a.first(), b.first())
        ||| a.first() == b.first() && lex(a.drop_first(), b.drop_first(), lt)
    }
}

/// Whether `lt` orders any two values, one of them first unless they are equal.
pub open spec fn strict_order<T>(lt: spec_fn(T, T) -> bool) -> bool {
    &&& forall|a: T| !#[trigger] lt(a, a)
    &&& forall|a: T, b: T, c: T| #[trigger] lt(a, b) && #[trigger] lt(b, c) ==> lt(a, c)
    &&& forall|a: T, b: T| #[trigger] lt(a, b) || lt(b, a) || a == b
}

/// Whether no value stands before one that comes earlier.
pub open spec fn sorted<T>(s: Seq<T>, lt: spec_fn(T, T) -> bool) -> bool {
    forall|i: int, j: int| 0 <= i < j < s.len() ==> !lt(#[trigger] s[j], #[trigger] s[i])
}

/// Whether each value stands before all that come later.
pub open spec fn rising<T>(s: Seq<T>, lt: spec_fn(T, T) -> bool) -> bool {
    forall|i: int, j: int| 0 <= i < j < s.len() ==> lt(#[trigger] s[i], #[trigger] s[j])
}

/// The order of characters by their code points.
pub open spec fn char_order() -> spec_fn(char, char) -> bool {
    |a: char, b: char| a < b
}

/// The order of bytes.
pub open spec fn byte_order() -> spec_fn(u8, u8) -> bool {
    |a: u8, b: u8| a < b
}

/// The order of texts.
pub open spec fn text_before(a: Seq<char>, b: Seq<char>) -> bool {
    lex(a, b, char_order())
}

/// The order of byte strings.
pub open spec fn bytes_order() -> spec_fn(Seq<u8>, Seq<u8>) -> bool {
    |a: Seq<u8>, b: Seq<u8>| lex(a, b, byte_order())
}

/// The order of paths, by their parts.
pub open spec fn path_before(a: Seq<Seq<u8>>, b: Seq<Seq<u8>>) -> bool {
    lex(a, b, bytes_order())
}

/// The order of texts, as a relation.
pub open spec fn text_order() -> spec_fn(Seq<char>, Seq<char>) -> bool {
    |a: Seq<char>, b: Seq<char>| text_before(a, b)
}

/// The order of paths, as a relation.
pub open spec fn path_order() -> spec_fn(Seq<Seq<u8>>, Seq<Seq<u8>>) -> bool {
    |a: Seq<Seq<u8>>, b: Seq<Seq<u8>>| path_before(a, b)
}

/// The lexicographic order puts nothing before itself.
pub proof fn lemma_lex_irreflexive<T>(a: Seq<T>, lt: spec_fn(T, T) -> bool)
    requires
        strict_order(lt),
    ensures
        !lex(a, a, lt),
    decreases a.len(),
{
    if a.len() > 0 {
        lemma_lex_irreflexive(a.drop_first(), lt);
    }
}

/// The lexicographic order is transitive.
pub proof fn lemma_lex_transitive<T>(a: Seq<T>, b: Seq<T>, c: Seq<T>, lt: spec_fn(T, T) -> bool)
    requires
        strict_order(lt),
        lex(a, b, lt),
        lex(b, c, lt),
    ensures
        lex(a, c, lt),
    decreases a.len(),
{
    if a.len() > 0 {
        if a.first() == b.first() && b.first() == c.first() && !lt(a.first(), a.first()) {
            lemma_lex_transitive(a.drop_first(), b.drop_first(), c.drop_first(), lt);
        }
    }
}

/// The lexicographic order puts one of any two different sequences first.
pub proof fn lemma_lex_total<T>(a: Seq<T>, b: Seq<T>, lt: spec_fn(T, T) -> bool)
    requires
        strict_order(lt),
    ensures
        lex(a, b, lt) || lex(b, a, lt) || a == b,
    decreases a.len(),
{
    if a.len() > 0 && b.len() > 0 {
        assert(lt(a.first(), b.first()) || lt(b.first(), a.first()) || a.first() == b.first());
        lemma_lex_total(a.drop_first(), b.drop_first(), lt);
        if a.drop_first() == b.drop_first() && a.first() == b.first() {
            assert(a =~= seq![a.first()] + a.drop_first());
            assert(b =~= seq![b.first()] + b.drop_first());
        }
    } else if a.len() == 0 && b.len() == 0 {
        assert(a =~= b);
    }
}

/// The lexicographic order of a strict order is a strict order.
pub proof fn lemma_lex_strict<T>(lt: spec_fn(T, T) -> bool)
    requires
        strict_order(lt),
    ensures
        strict_order(|a: Seq<T>, b: Seq<T>| lex(a, b, lt)),
{
    let on = |a: Seq<T>, b: Seq<T>| lex(a, b, lt);
    assert forall|a: Seq<T>| !#[trigger] on(a, a) by {
        lemma_lex_irreflexive(a, lt);
    }
    assert forall|a: Seq<T>, b: Seq<T>, c: Seq<T>| #[trigger] on(a, b) && #[trigger] on(
        b,
        c,
    ) implies on(a, c) by {
        lemma_lex_transitive(a, b, c, lt);
    }
    assert forall|a: Seq<T>, b: Seq<T>| #[trigger] on(a, b) || on(b, a) || a == b by {
        lemma_lex_total(a, b, lt);
    }
}

/// Texts are strictly ordered.
pub proof fn lemma_text_order()
    ensures
        strict_order(text_order()),
{
    lemma_lex_strict(char_order());
    let f = |a: Seq<char>, b: Seq<char>| lex(a, b, char_order());
    assert(f =~= text_order());
}

/// Paths are strictly ordered.
pub proof fn lemma_path_order()
    ensures
        strict_order(path_order()),
{
    lemma_lex_strict(byte_order());
    lemma_lex_strict(bytes_order());
    let f = |a: Seq<Seq<u8>>, b: Seq<Seq<u8>>| lex(a, b, bytes_order());
    assert(f =~= path_order());
}

/// A value goes into a sorted sequence after all that stand before it and
/// before all that do not.
pub proof fn lemma_insert_sorted<T>(s: Seq<T>, at: int, x: T, lt: spec_fn(T, T) -> bool)
    requires
        strict_order(lt),
        sorted(s, lt),
        0 <= at <= s.len(),
        forall|i: int| 0 <= i < at ==> lt(#[trigger] s[i], x),
        at < s.len() ==> !lt(s[at], x),
    ensures
        sorted(s.insert(at, x), lt),
{
    let t = s.insert(at, x);
    assert forall|i: int, j: int| 0 <= i < j < t.len() implies !lt(
        #[trigger] t[j],
        #[trigger] t[i],
    ) by {
        let b = if j < at {
            s[j]
        } else if j == at {
            x
        } else {
            s[j - 1]
        };
        let a = if i < at {
            s[i]
        } else if i == at {
            x
        } else {
            s[i - 1]
        };
        assert(t[j] == b && t[i] == a);
        if j == at {
            assert(lt(s[i], x));
            assert(!lt(x, s[i])) by {
                if lt(x, s[i]) {
                    assert(lt(x, x));
                }
            }
        } else if i == at {
            assert(!lt(s[at], x));
            if j - 1 > at {
                assert(!lt(s[j - 1], s[at]));
                if lt(s[j - 1], x) {
                    assert(lt(x, s[at]) || x == s[at]);
                    assert(lt(s[j - 1], s[at]));
                }
            }
        }
    }
}

/// Whether one text stands before another.
pub fn text_less(a: &Vec<char>, b: &Vec<char>) -> (r: bool)
    ensures
        r == text_before(a@, b@),
{
    let mut i: usize = 0;
    assert(a@.skip(0) =~= a@ && b@.skip(0) =~= b@);
    while i < a.len() && i < b.len() && a[i] == b[i]
        invariant
            i <= a@.len(),
            i <= b@.len(),
            text_before(a@, b@) == text_before(a@.skip(i as int), b@.skip(i as int)),
        decreases a@.len() - i,
    {
        assert(a@.skip(i as int).drop_first() =~= a@.skip(i + 1));
        assert(b@.skip(i as int).drop_first() =~= b@.skip(i + 1));
        i += 1;
    }
    if i < b.len() && i < a.len() {
        assert(a@.skip(i as int).first() == a@[i as int]);
        assert(b@.skip(i as int).first() == b@[i as int]);
        a[i] < b[i]
    } else {
        i < b.len()
    }
}

/// Whether one byte string stands before another.
pub fn bytes_less(a: &Vec<u8>, b: &Vec<u8>) -> (r: bool)
    ensures
        r == lex(a@, b@, byte_order()),
{
    let mut i: usize = 0;
    assert(a@.skip(0) =~= a@ && b@.skip(0) =~= b@);
    while i < a.len() && i < b.len() && a[i] == b[i]
        invariant
            i <= a@.len(),
            i <= b@.len(),
            lex(a@, b@, byte_order()) == lex(a@.skip(i as int), b@.skip(i as int), byte_order()),
        decreases a@.len() - i,
    {
        assert(a@.skip(i as int).drop_first() =~= a@.skip(i + 1));
        assert(b@.skip(i as int).drop_first() =~= b@.skip(i + 1));
        i += 1;
    }
    if i < b.len() && i < a.len() {
        assert(a@.skip(i as int).first() == a@[i as int]);
        assert(b@.skip(i as int).first() == b@[i as int]);
        a[i] < b[i]
    } else {
        i < b.len()
    }
}

} // verus!
