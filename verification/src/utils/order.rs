use vstd::prelude::*;

verus! {

broadcast use vstd::seq_lib::group_seq_properties;

/// Lexicographic order on byte strings (`<[u8] as Ord>`): `a` comes strictly before `b`.
pub open spec fn bytes_lt(a: Seq<u8>, b: Seq<u8>) -> bool
    decreases a.len(),
{
    if b.len() == 0 {
        false
    } else if a.len() == 0 {
        true
    } else if a[0] != b[0] {
        a[0] < b[0]
    } else {
        bytes_lt(a.drop_first(), b.drop_first())
    }
}

/// `a` does not come after `b`.
pub open spec fn bytes_le(a: Seq<u8>, b: Seq<u8>) -> bool {
    !bytes_lt(b, a)
}

pub proof fn lemma_bytes_lt_irreflexive(a: Seq<u8>)
    ensures
        !bytes_lt(a, a),
    decreases a.len(),
{
    if a.len() > 0 {
        lemma_bytes_lt_irreflexive(a.drop_first());
    }
}

pub proof fn lemma_bytes_lt_transitive(a: Seq<u8>, b: Seq<u8>, c: Seq<u8>)
    requires
        bytes_lt(a, b),
        bytes_lt(b, c),
    ensures
        bytes_lt(a, c),
    decreases a.len(),
{
    if a.len() > 0 && b.len() > 0 && c.len() > 0 && a[0] == b[0] && b[0] == c[0] {
        lemma_bytes_lt_transitive(a.drop_first(), b.drop_first(), c.drop_first());
    }
}

pub proof fn lemma_bytes_lt_total(a: Seq<u8>, b: Seq<u8>)
    ensures
        a == b || bytes_lt(a, b) || bytes_lt(b, a),
    decreases a.len(),
{
    if a.len() > 0 && b.len() > 0 && a[0] == b[0] {
        lemma_bytes_lt_total(a.drop_first(), b.drop_first());
        if a.drop_first() == b.drop_first() {
            assert(a =~= seq![a[0]] + a.drop_first());
            assert(b =~= seq![b[0]] + b.drop_first());
        }
    } else if a.len() == 0 && b.len() == 0 {
        assert(a =~= b);
    }
}

pub proof fn lemma_bytes_lt_asymmetric(a: Seq<u8>, b: Seq<u8>)
    requires
        bytes_lt(a, b),
    ensures
        !bytes_lt(b, a),
{
    if bytes_lt(b, a) {
        lemma_bytes_lt_transitive(a, b, a);
        lemma_bytes_lt_irreflexive(a);
    }
}

pub proof fn lemma_bytes_le_transitive(a: Seq<u8>, b: Seq<u8>, c: Seq<u8>)
    requires
        bytes_le(a, b),
        bytes_le(b, c),
    ensures
        bytes_le(a, c),
{
    if bytes_lt(c, a) {
        lemma_bytes_lt_total(a, b);
        lemma_bytes_lt_total(b, c);
        if a == b {
        } else if bytes_lt(a, b) {
            lemma_bytes_lt_transitive(c, a, b);
        } else {
        }
    }
}

proof fn lemma_bytes_lt_skip(a: Seq<u8>, b: Seq<u8>, i: int)
    requires
        0 <= i <= a.len(),
        i <= b.len(),
        a.take(i) == b.take(i),
    ensures
        bytes_lt(a, b) == bytes_lt(a.skip(i), b.skip(i)),
    decreases i,
{
    if i > 0 {
        assert(a[0] == a.take(i)[0]);
        assert(b[0] == b.take(i)[0]);
        assert(a.drop_first().take(i - 1) =~= a.take(i).drop_first());
        assert(b.drop_first().take(i - 1) =~= b.take(i).drop_first());
        lemma_bytes_lt_skip(a.drop_first(), b.drop_first(), i - 1);
        assert(a.drop_first().skip(i - 1) =~= a.skip(i));
        assert(b.drop_first().skip(i - 1) =~= b.skip(i));
    } else {
        assert(a.skip(0) =~= a);
        assert(b.skip(0) =~= b);
    }
}

/// Whether `a` comes strictly before `b` in lexicographic byte order.
pub fn bytes_less(a: &[u8], b: &[u8]) -> (r: bool)
    ensures
        r == bytes_lt(a@, b@),
{
    let n = a.len();
    let m = b.len();
    let mut i: usize = 0;
    while i < n && i < m && a[i] == b[i]
        invariant
            n == a@.len(),
            m == b@.len(),
            i <= n,
            i <= m,
            a@.take(i as int) == b@.take(i as int),
        decreases n - i,
    {
        proof {
            assert(a@.take(i + 1) =~= a@.take(i as int).push(a@[i as int]));
            assert(b@.take(i + 1) =~= b@.take(i as int).push(b@[i as int]));
        }
        i = i + 1;
    }
    proof {
        lemma_bytes_lt_skip(a@, b@, i as int);
    }
    if i == m {
        false
    } else if i == n {
        true
    } else {
        a[i] < b[i]
    }
}

/// A pair of texts, ordered by the UTF-8 bytes of its first member.
pub open spec fn pair_key(p: (Seq<char>, Seq<char>)) -> Seq<u8> {
    vstd::utf8::encode_utf8(p.0)
}

/// The pairs are in non-decreasing key order.
pub open spec fn sorted_by_key(s: Seq<(Seq<char>, Seq<char>)>) -> bool {
    forall|i: int, j: int|
        0 <= i < j < s.len() ==> bytes_le(pair_key(#[trigger] s[i]), pair_key(#[trigger] s[j]))
}

/// The predicate "has key `k`".
pub open spec fn has_key(k: Seq<u8>) -> spec_fn((Seq<char>, Seq<char>)) -> bool {
    |p: (Seq<char>, Seq<char>)| pair_key(p) == k
}

/// `output` is `input` sorted by key, pairs with equal keys keeping their order:
/// what a stable sort (`sort_by` on the key bytes) yields.
pub open spec fn is_stable_key_sort(
    input: Seq<(Seq<char>, Seq<char>)>,
    output: Seq<(Seq<char>, Seq<char>)>,
) -> bool {
    &&& sorted_by_key(output)
    &&& forall|k: Seq<u8>| #[trigger] output.filter(has_key(k)) == input.filter(has_key(k))
}

/// The texts of a list of string pairs.
pub open spec fn pairs_view(v: Seq<(String, String)>) -> Seq<(Seq<char>, Seq<char>)> {
    v.map_values(|p: (String, String)| (p.0@, p.1@))
}

/// Sorts the pairs by the bytes of their keys, keeping pairs with equal keys in order.
pub fn stable_sort_by_key(input: Vec<(String, String)>) -> (output: Vec<(String, String)>)
    ensures
        is_stable_key_sort(pairs_view(input@), pairs_view(output@)),
{
    let mut output: Vec<(String, String)> = Vec::new();
    let n = input.len();
    let mut input = input;
    let ghost whole = pairs_view(input@);
    let mut i: usize = 0;
    // Items are taken from the front in order; the remaining ones stay in `rest`.
    let mut rest: Vec<(String, String)> = Vec::new();
    // Move the input into `rest` reversed, so that `pop` yields the items in order.
    while input.len() > 0
        invariant
            pairs_view(input@) + pairs_view(rest@).reverse() == whole,
        decreases input@.len(),
    {
        let ghost before_input = pairs_view(input@);
        let ghost before_rest = pairs_view(rest@);
        let item = input.pop().unwrap();
        rest.push(item);
        proof {
            assert(pairs_view(input@).push((item.0@, item.1@)) == before_input);
            assert(pairs_view(rest@) == before_rest.push((item.0@, item.1@)));
            assert(pairs_view(rest@).reverse() =~= seq![(item.0@, item.1@)] + before_rest.reverse());
            assert(pairs_view(input@) + pairs_view(rest@).reverse() =~= before_input
                + before_rest.reverse());
        }
    }
    proof {
        assert(pairs_view(input@) =~= Seq::<(Seq<char>, Seq<char>)>::empty());
        assert(pairs_view(rest@).reverse() =~= whole);
    }
    while rest.len() > 0
        invariant
            i <= n,
            whole.len() == n,
            pairs_view(rest@).reverse() == whole.skip(i as int),
            is_stable_key_sort(whole.take(i as int), pairs_view(output@)),
        decreases rest@.len(),
    {
        let ghost before_rest = pairs_view(rest@);
        let item = rest.pop().unwrap();
        let ghost x = (item.0@, item.1@);
        let ghost out = pairs_view(output@);
        proof {
            assert(before_rest == pairs_view(rest@).push(x));
            assert(before_rest.reverse() =~= seq![x] + pairs_view(rest@).reverse());
            assert(whole.skip(i as int)[0] == x);
            assert(whole[i as int] == x);
            assert(pairs_view(rest@).reverse() =~= whole.skip(i + 1));
        }
        let key = item.0.as_str().as_bytes();
        let mut p = output.len();
        while p > 0 && bytes_less(key, output[p - 1].0.as_str().as_bytes())
            invariant
                p <= output@.len(),
                out == pairs_view(output@),
                pair_key(x) == key@,
                forall|q: int| p <= q < out.len() ==> bytes_lt(pair_key(x), pair_key(#[trigger] out[q])),
            decreases p,
        {
            p = p - 1;
        }
        proof {
            assert forall|q: int| 0 <= q < p implies bytes_le(pair_key(#[trigger] out[q]), pair_key(x)) by {
                if q < p - 1 {
                    lemma_bytes_le_transitive(pair_key(out[q]), pair_key(out[p - 1]), pair_key(x));
                }
            }
        }
        output.insert(p, item);
        proof {
            let new_out = pairs_view(output@);
            assert(new_out =~= out.take(p as int) + seq![x] + out.skip(p as int));
            assert forall|a: int, b: int| 0 <= a < b < new_out.len() implies bytes_le(
                pair_key(#[trigger] new_out[a]),
                pair_key(#[trigger] new_out[b]),
            ) by {
                if a < p && b == p {
                } else if a < p && b > p {
                    assert(new_out[b] == out[b - 1]);
                } else if a == p && b > p {
                    assert(new_out[b] == out[b - 1]);
                    lemma_bytes_lt_asymmetric(pair_key(x), pair_key(out[b - 1]));
                } else if a > p {
                    assert(new_out[a] == out[a - 1]);
                    assert(new_out[b] == out[b - 1]);
                }
            }
            assert(whole.take(i + 1) =~= whole.take(i as int).push(x));
            assert forall|k: Seq<u8>| #[trigger] new_out.filter(has_key(k)) == whole.take(i + 1).filter(
                has_key(k),
            ) by {
                let left = out.take(p as int);
                let right = out.skip(p as int);
                assert(out =~= left + right);
                assert((left + seq![x]) =~= left.push(x));
                assert(new_out =~= left.push(x) + right);
                whole.take(i as int).lemma_filter_push(x, has_key(k));
                left.lemma_filter_push(x, has_key(k));
                assert(out.filter(has_key(k)) == whole.take(i as int).filter(has_key(k)));
                Seq::filter_distributes_over_add(left, right, has_key(k));
                Seq::filter_distributes_over_add(left.push(x), right, has_key(k));
                if pair_key(x) == k {
                    assert forall|q: int| 0 <= q < right.len() implies !has_key(k)(right[q]) by {
                        assert(right[q] == out[p + q]);
                        lemma_bytes_lt_irreflexive(k);
                    }
                    right.lemma_all_neg_filter_empty(has_key(k));
                    assert(right.filter(has_key(k)) =~= Seq::empty());
                    assert(left.filter(has_key(k)) + right.filter(has_key(k)) =~= left.filter(has_key(k)));
                    assert(left.filter(has_key(k)).push(x) + right.filter(has_key(k)) =~= left.filter(has_key(k)).push(x));
                }
            }
        }
        i = i + 1;
    }
    proof {
        assert(whole.take(n as int) =~= whole);
    }
    output
}

/// Filtering a sequence filters its first element, then the rest.
proof fn lemma_filter_cons<A>(s: Seq<A>, p: spec_fn(A) -> bool)
    requires
        s.len() > 0,
    ensures
        s.filter(p) == if p(s[0]) {
            seq![s[0]] + s.drop_first().filter(p)
        } else {
            s.drop_first().filter(p)
        },
{
    let head = seq![s[0]];
    assert(s =~= head + s.drop_first());
    Seq::filter_distributes_over_add(head, s.drop_first(), p);
    reveal(Seq::filter);
    assert(head.drop_last() =~= Seq::<A>::empty());
    assert(head.drop_last().filter(p) =~= Seq::<A>::empty());
    if p(s[0]) {
        assert(head.filter(p) =~= head);
    } else {
        assert(head.filter(p) =~= Seq::<A>::empty());
    }
}

/// Every element of a filtered sequence is an element of the sequence.
proof fn lemma_filter_member<A>(s: Seq<A>, p: spec_fn(A) -> bool, i: int) -> (j: int)
    requires
        0 <= i < s.filter(p).len(),
    ensures
        0 <= j < s.len(),
        s[j] == s.filter(p)[i],
    decreases s.len(),
{
    reveal(Seq::filter);
    let sub = s.drop_last().filter(p);
    if p(s.last()) && i == sub.len() {
        s.len() - 1
    } else {
        assert(s.filter(p)[i] == sub[i]);
        let j = lemma_filter_member(s.drop_last(), p, i);
        assert(s[j] == s.drop_last()[j]);
        j
    }
}

/// Two sequences sorted by key that hold, key by key, the same pairs in the
/// same order are the same sequence.
proof fn lemma_sorted_same_groups_equal(a: Seq<(Seq<char>, Seq<char>)>, b: Seq<(Seq<char>, Seq<char>)>)
    requires
        sorted_by_key(a),
        sorted_by_key(b),
        forall|k: Seq<u8>| #[trigger] a.filter(has_key(k)) == b.filter(has_key(k)),
    ensures
        a == b,
    decreases a.len() + b.len(),
{
    if a.len() == 0 || b.len() == 0 {
        if a.len() > 0 {
            let k = pair_key(a[0]);
            lemma_filter_cons(a, has_key(k));
            assert(a.filter(has_key(k)).len() > 0);
            assert(b.filter(has_key(k)).len() <= b.len()) by {
                b.lemma_filter_len(has_key(k));
            }
        } else if b.len() > 0 {
            let k = pair_key(b[0]);
            lemma_filter_cons(b, has_key(k));
            assert(b.filter(has_key(k)).len() > 0);
            assert(a.filter(has_key(k)).len() <= a.len()) by {
                a.lemma_filter_len(has_key(k));
            }
        } else {
            assert(a =~= b);
        }
    } else {
        let x = a[0];
        let y = b[0];
        let kx = pair_key(x);
        let ky = pair_key(y);
        lemma_filter_cons(a, has_key(kx));
        lemma_filter_cons(b, has_key(ky));
        lemma_filter_cons(a, has_key(ky));
        lemma_filter_cons(b, has_key(kx));
        // Some pair of b has key kx, so ky does not come after kx; and the other way round.
        assert(bytes_le(ky, kx)) by {
            assert(a.filter(has_key(kx))[0] == x);
            let j = lemma_filter_member(b, has_key(kx), 0);
            assert(has_key(kx)(b.filter(has_key(kx))[0])) by {
                b.filter_lemma(has_key(kx));
            }
            if j > 0 {
                assert(bytes_le(pair_key(b[0]), pair_key(b[j])));
            } else {
                lemma_bytes_lt_irreflexive(kx);
            }
        }
        assert(bytes_le(kx, ky)) by {
            assert(b.filter(has_key(ky))[0] == y);
            let j = lemma_filter_member(a, has_key(ky), 0);
            assert(has_key(ky)(a.filter(has_key(ky))[0])) by {
                a.filter_lemma(has_key(ky));
            }
            if j > 0 {
                assert(bytes_le(pair_key(a[0]), pair_key(a[j])));
            } else {
                lemma_bytes_lt_irreflexive(ky);
            }
        }
        lemma_bytes_lt_total(kx, ky);
        assert(kx == ky);
        assert(x == a.filter(has_key(kx))[0]);
        assert(y == b.filter(has_key(kx))[0]);
        assert(x == y);
        let a2 = a.drop_first();
        let b2 = b.drop_first();
        assert forall|k: Seq<u8>| #[trigger] a2.filter(has_key(k)) == b2.filter(has_key(k)) by {
            lemma_filter_cons(a, has_key(k));
            lemma_filter_cons(b, has_key(k));
            assert(a.filter(has_key(k)) == b.filter(has_key(k)));
            if k == kx {
                assert(a2.filter(has_key(k)) =~= a.filter(has_key(k)).drop_first());
                assert(b2.filter(has_key(k)) =~= b.filter(has_key(k)).drop_first());
            }
        }
        assert(sorted_by_key(a2)) by {
            assert forall|i: int, j: int| 0 <= i < j < a2.len() implies bytes_le(
                pair_key(#[trigger] a2[i]),
                pair_key(#[trigger] a2[j]),
            ) by {
                assert(a2[i] == a[i + 1] && a2[j] == a[j + 1]);
            }
        }
        assert(sorted_by_key(b2)) by {
            assert forall|i: int, j: int| 0 <= i < j < b2.len() implies bytes_le(
                pair_key(#[trigger] b2[i]),
                pair_key(#[trigger] b2[j]),
            ) by {
                assert(b2[i] == b[i + 1] && b2[j] == b[j + 1]);
            }
        }
        lemma_sorted_same_groups_equal(a2, b2);
        assert(a =~= seq![x] + a2);
        assert(b =~= seq![y] + b2);
    }
}

/// A stable sort by key has one outcome: two stable sorts of the same pairs
/// are equal.
pub proof fn lemma_stable_sort_unique(
    input: Seq<(Seq<char>, Seq<char>)>,
    a: Seq<(Seq<char>, Seq<char>)>,
    b: Seq<(Seq<char>, Seq<char>)>,
)
    requires
        is_stable_key_sort(input, a),
        is_stable_key_sort(input, b),
    ensures
        a == b,
{
    assert forall|k: Seq<u8>| #[trigger] a.filter(has_key(k)) == b.filter(has_key(k)) by {
        assert(a.filter(has_key(k)) == input.filter(has_key(k)));
        assert(b.filter(has_key(k)) == input.filter(has_key(k)));
    }
    lemma_sorted_same_groups_equal(a, b);
}

} // verus!
