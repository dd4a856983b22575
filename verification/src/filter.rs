//! The filter engine: a pure, stable, case-insensitive prefix filter over a
//! catalog of items. An item is kept exactly when its lowercased form starts
//! with the lowercased query; catalog order is preserved and nothing is
//! re-sorted. An empty query keeps the whole catalog.

use vstd::prelude::*;
use vstd::string::StrSliceExecFns;

verus! {

/// What `char::to_lowercase` yields for one character: a sequence of one or
/// more characters, depending on the character alone.
pub uninterp spec fn lower_char(c: char) -> Seq<char>;

/// The lowercased form of a string: each character's lowercase mapping, in
/// order.
pub open spec fn lower_of(s: Seq<char>) -> Seq<char>
    decreases s.len(),
{
    if s.len() == 0 {
        Seq::empty()
    } else {
        lower_char(s[0]) + lower_of(s.drop_first())
    }
}

/// An item matches a query when the lowercased query is a prefix of the
/// lowercased item.
pub open spec fn matches(item: Seq<char>, query: Seq<char>) -> bool {
    lower_of(query).is_prefix_of(lower_of(item))
}

/// The filtered catalog: every item that matches the query, in catalog order.
pub open spec fn filter_spec(catalog: Seq<String>, query: Seq<char>) -> Seq<String> {
    catalog.filter(|item: String| matches(item@, query))
}

/// Relies on `char::to_lowercase`: yields the lowercase mapping of the
/// character as one or more characters, depending on the character alone.
#[verifier::external_body]
fn lowercase_char(c: char) -> (r: Vec<char>)
    ensures
        r@ == lower_char(c),
        r@.len() >= 1,
{
    c.to_lowercase().collect()
}

/// Lowercasing distributes over appending one character at the end.
proof fn lemma_lower_push(s: Seq<char>, c: char)
    ensures
        lower_of(s.push(c)) == lower_of(s) + lower_char(c),
    decreases s.len(),
{
    if s.len() == 0 {
        assert(s.push(c)[0] == c);
        assert(s.push(c).drop_first() =~= Seq::<char>::empty());
        assert(lower_of(s.push(c).drop_first()) == Seq::<char>::empty());
        assert(lower_of(s.push(c)) == lower_char(c) + Seq::<char>::empty());
        assert(lower_char(c) + Seq::<char>::empty() =~= Seq::<char>::empty() + lower_char(c));
        assert(lower_of(s) == Seq::<char>::empty());
    } else {
        assert(s.push(c)[0] == s[0]);
        assert(s.push(c).drop_first() =~= s.drop_first().push(c));
        lemma_lower_push(s.drop_first(), c);
        assert(lower_char(s[0]) + (lower_of(s.drop_first()) + lower_char(c)) =~= (lower_char(s[0])
            + lower_of(s.drop_first())) + lower_char(c));
    }
}

/// Lowercasing distributes over concatenation.
proof fn lemma_lower_append(a: Seq<char>, b: Seq<char>)
    ensures
        lower_of(a + b) == lower_of(a) + lower_of(b),
    decreases b.len(),
{
    if b.len() == 0 {
        assert(a + b =~= a);
        assert(lower_of(a) + lower_of(b) =~= lower_of(a));
    } else {
        let b0 = b.drop_last();
        assert(a + b =~= (a + b0).push(b.last()));
        lemma_lower_append(a, b0);
        lemma_lower_push(a + b0, b.last());
        lemma_lower_push(b0, b.last());
        assert(b0.push(b.last()) =~= b);
        assert((lower_of(a) + lower_of(b0)) + lower_char(b.last()) =~= lower_of(a) + (lower_of(b0)
            + lower_char(b.last())));
    }
}

/// Lowercasing preserves the prefix relation between queries.
proof fn lemma_lower_prefix_monotone(q1: Seq<char>, q2: Seq<char>)
    requires
        q1.is_prefix_of(q2),
    ensures
        lower_of(q1).is_prefix_of(lower_of(q2)),
{
    let rest = q2.skip(q1.len() as int);
    assert(q2 =~= q1 + rest);
    lemma_lower_append(q1, rest);
    assert(lower_of(q1) =~= (lower_of(q1) + lower_of(rest)).subrange(
        0,
        lower_of(q1).len() as int,
    ));
}

/// An empty query matches every item.
proof fn lemma_matches_empty_query(item: Seq<char>)
    ensures
        matches(item, Seq::<char>::empty()),
{
    assert(lower_of(Seq::<char>::empty()) == Seq::<char>::empty());
    assert(Seq::<char>::empty() =~= lower_of(item).subrange(0, 0));
}

/// The prefix relation is transitive.
proof fn lemma_prefix_transitive(a: Seq<char>, b: Seq<char>, c: Seq<char>)
    requires
        a.is_prefix_of(b),
        b.is_prefix_of(c),
    ensures
        a.is_prefix_of(c),
{
    assert forall|j: int| 0 <= j < a.len() implies a[j] == c[j] by {
        assert(a[j] == b.subrange(0, a.len() as int)[j]);
        assert(b[j] == c.subrange(0, b.len() as int)[j]);
    }
    assert(a =~= c.subrange(0, a.len() as int));
}

/// One sequence is a subsequence of another: it can be had from the other by
/// deleting elements, keeping the remaining elements in their order.
pub open spec fn is_subsequence<A>(sub: Seq<A>, sup: Seq<A>) -> bool
    decreases sub.len() + sup.len(),
{
    if sub.len() == 0 {
        true
    } else if sup.len() == 0 {
        false
    } else if sub.last() == sup.last() {
        is_subsequence(sub.drop_last(), sup.drop_last())
    } else {
        is_subsequence(sub, sup.drop_last())
    }
}

/// A subsequence stays one when its own last element is dropped.
proof fn lemma_subsequence_drop_sub<A>(sub: Seq<A>, sup: Seq<A>)
    requires
        is_subsequence(sub, sup),
        sub.len() > 0,
    ensures
        is_subsequence(sub.drop_last(), sup),
    decreases sub.len() + sup.len(),
{
    if sub.last() == sup.last() {
        if sub.len() > 1 {
            lemma_subsequence_extend_sup(sub.drop_last(), sup.drop_last(), sup.last());
        }
        assert(sup.drop_last().push(sup.last()) =~= sup);
    } else {
        lemma_subsequence_drop_sub(sub, sup.drop_last());
        if sub.drop_last().len() > 0 && sub.drop_last().last() == sup.last() {
            lemma_subsequence_drop_sub(sub.drop_last(), sup.drop_last());
        }
    }
}

/// A subsequence stays one when the containing sequence grows at the end.
proof fn lemma_subsequence_extend_sup<A>(sub: Seq<A>, sup: Seq<A>, x: A)
    requires
        is_subsequence(sub, sup),
    ensures
        is_subsequence(sub, sup.push(x)),
    decreases sub.len() + sup.len() + 1,
{
    if sub.len() > 0 {
        assert(sup.push(x).drop_last() =~= sup);
        if sub.last() == x {
            lemma_subsequence_drop_sub(sub, sup);
        }
    }
}

/// What a filtered sequence keeps, for any predicate: a subsequence, in the
/// original order.
proof fn lemma_filter_subsequence_generic<A>(s: Seq<A>, pred: spec_fn(A) -> bool)
    ensures
        is_subsequence(s.filter(pred), s),
    decreases s.len(),
{
    reveal(Seq::filter);
    if s.len() > 0 {
        let rest = s.drop_last().filter(pred);
        lemma_filter_subsequence_generic(s.drop_last(), pred);
        if pred(s.last()) {
            assert(s.filter(pred) == rest.push(s.last()));
            assert(s.filter(pred).drop_last() =~= rest);
        } else {
            lemma_subsequence_extend_sup(rest, s.drop_last(), s.last());
            assert(s.drop_last().push(s.last()) =~= s);
        }
    }
}

/// A filtered sequence holds an element exactly when the original holds it
/// and the predicate accepts it.
proof fn lemma_filter_members<A>(s: Seq<A>, pred: spec_fn(A) -> bool, x: A)
    ensures
        s.filter(pred).contains(x) <==> s.contains(x) && pred(x),
    decreases s.len(),
{
    reveal(Seq::filter);
    if s.len() == 0 {
        assert(!s.filter(pred).contains(x));
        assert(!s.contains(x));
    } else {
        let s0 = s.drop_last();
        lemma_filter_members(s0, pred, x);
        assert(s.contains(x) <==> s0.contains(x) || s.last() == x) by {
            if s0.contains(x) {
                let i = choose|i: int| 0 <= i < s0.len() && s0[i] == x;
                assert(s[i] == x);
            }
            if s.last() == x {
                assert(s[s.len() - 1] == x);
            }
            if s.contains(x) {
                let i = choose|i: int| 0 <= i < s.len() && s[i] == x;
                if i < s.len() - 1 {
                    assert(s0[i] == x);
                }
            }
        }
        if pred(s.last()) {
            let f0 = s0.filter(pred);
            let f = f0.push(s.last());
            assert(s.filter(pred) == f);
            assert(f.contains(x) <==> f0.contains(x) || s.last() == x) by {
                if f0.contains(x) {
                    let i = choose|i: int| 0 <= i < f0.len() && f0[i] == x;
                    assert(f[i] == x);
                }
                if s.last() == x {
                    assert(f[f.len() - 1] == x);
                }
                if f.contains(x) {
                    let i = choose|i: int| 0 <= i < f.len() && f[i] == x;
                    if i < f.len() - 1 {
                        assert(f0[i] == x);
                    }
                }
            }
        }
    }
}

/// The filtered catalog is a subsequence of the catalog, in catalog order,
/// for every query.
pub proof fn lemma_filter_is_subsequence(catalog: Seq<String>, query: Seq<char>)
    ensures
        is_subsequence(filter_spec(catalog, query), catalog),
{
    lemma_filter_subsequence_generic(catalog, |item: String| matches(item@, query));
}

/// An empty query keeps the whole catalog, unchanged.
pub proof fn lemma_filter_empty_query(catalog: Seq<String>)
    ensures
        filter_spec(catalog, Seq::<char>::empty()) == catalog,
    decreases catalog.len(),
{
    reveal(Seq::filter);
    let q = Seq::<char>::empty();
    let pred = |item: String| matches(item@, q);
    if catalog.len() == 0 {
        assert(catalog.filter(pred) =~= catalog);
    } else {
        lemma_filter_empty_query(catalog.drop_last());
        lemma_matches_empty_query(catalog.last()@);
        assert(pred(catalog.last()));
        assert(catalog.drop_last().push(catalog.last()) =~= catalog);
    }
}

/// Lengthening the query can only narrow the result: whatever survives the
/// longer query also survives every prefix of it.
pub proof fn lemma_filter_query_prefix(catalog: Seq<String>, q1: Seq<char>, q2: Seq<char>)
    requires
        q1.is_prefix_of(q2),
    ensures
        forall|item: String|
            filter_spec(catalog, q2).contains(item) ==> filter_spec(catalog, q1).contains(item),
{
    lemma_lower_prefix_monotone(q1, q2);
    assert forall|item: String|
        filter_spec(catalog, q2).contains(item) implies filter_spec(catalog, q1).contains(
        item,
    ) by {
        lemma_filter_members(catalog, |item: String| matches(item@, q2), item);
        lemma_filter_members(catalog, |item: String| matches(item@, q1), item);
        lemma_prefix_transitive(lower_of(q1), lower_of(q2), lower_of(item@));
    }
}

/// The characters of a string, as a vector.
pub fn str_chars(s: &str) -> (r: Vec<char>)
    ensures
        r@ == s@,
{
    let n = s.unicode_len();
    let mut r: Vec<char> = Vec::new();
    let mut i: usize = 0;
    while i < n
        invariant
            n == s@.len(),
            i <= n,
            r@ == s@.take(i as int),
        decreases n - i,
    {
        let c = s.get_char(i);
        r.push(c);
        proof {
            assert(s@.take(i + 1) =~= s@.take(i as int).push(s@[i as int]));
        }
        i = i + 1;
    }
    proof {
        assert(s@.take(n as int) =~= s@);
    }
    r
}

/// The lowercased form of a character sequence.
pub fn lower_chars(s: &Vec<char>) -> (r: Vec<char>)
    ensures
        r@ == lower_of(s@),
{
    let mut r: Vec<char> = Vec::new();
    let mut i: usize = 0;
    while i < s.len()
        invariant
            i <= s@.len(),
            r@ == lower_of(s@.take(i as int)),
        decreases s@.len() - i,
    {
        let mut lc = lowercase_char(s[i]);
        r.append(&mut lc);
        proof {
            assert(s@.take(i + 1) =~= s@.take(i as int).push(s@[i as int]));
            lemma_lower_push(s@.take(i as int), s@[i as int]);
        }
        i = i + 1;
    }
    proof {
        assert(s@.take(s@.len() as int) =~= s@);
    }
    r
}

/// Whether one character sequence is a prefix of another.
pub fn is_prefix(p: &Vec<char>, s: &Vec<char>) -> (r: bool)
    ensures
        r == p@.is_prefix_of(s@),
{
    if p.len() > s.len() {
        return false;
    }
    let mut i: usize = 0;
    while i < p.len()
        invariant
            i <= p@.len() <= s@.len(),
            forall|j: int| 0 <= j < i ==> p@[j] == s@[j],
        decreases p@.len() - i,
    {
        if p[i] != s[i] {
            assert(!p@.is_prefix_of(s@)) by {
                assert(p@[i as int] != s@.subrange(0, p@.len() as int)[i as int]);
            }
            return false;
        }
        i = i + 1;
    }
    proof {
        assert(p@ =~= s@.subrange(0, p@.len() as int));
    }
    true
}

/// Whether the item matches the query, case-insensitively: the lowercased
/// query is a prefix of the lowercased item.
pub fn item_matches(item: &str, query: &Vec<char>) -> (r: bool)
    ensures
        r == matches(item@, query@),
{
    let item_chars = str_chars(item);
    let lowered_item = lower_chars(&item_chars);
    let lowered_query = lower_chars(query);
    is_prefix(&lowered_query, &lowered_item)
}

/// The filter engine: every catalog item whose lowercased form starts with
/// the lowercased query, in catalog order. An empty result is valid output,
/// not a failure.
pub fn filter(catalog: &Vec<String>, query: &Vec<char>) -> (r: Vec<String>)
    ensures
        r@ == filter_spec(catalog@, query@),
{
    let ghost pred = |item: String| matches(item@, query@);
    let mut r: Vec<String> = Vec::new();
    let mut i: usize = 0;
    while i < catalog.len()
        invariant
            i <= catalog@.len(),
            r@ == catalog@.take(i as int).filter(|item: String| matches(item@, query@)),
        decreases catalog@.len() - i,
    {
        let keep = item_matches(catalog[i].as_str(), query);
        if keep {
            r.push(catalog[i].clone());
        }
        proof {
            let prefix = catalog@.take(i as int);
            let one = seq![catalog@[i as int]];
            assert(catalog@.take(i + 1) =~= prefix + one);
            Seq::filter_distributes_over_add(prefix, one, pred);
            reveal_with_fuel(Seq::filter, 2);
            assert(one.drop_last() =~= Seq::<String>::empty());
        }
        i = i + 1;
    }
    proof {
        assert(catalog@.take(catalog@.len() as int) =~= catalog@);
    }
    r
}

} // verus!
