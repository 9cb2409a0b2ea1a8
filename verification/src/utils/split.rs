use vstd::prelude::*;

verus! {

/// `sep` occurs in `s` at position `i`.
pub open spec fn occurs_at(s: Seq<char>, sep: Seq<char>, i: int) -> bool {
    0 <= i && i + sep.len() <= s.len() && s.subrange(i, i + sep.len()) == sep
}

/// `i` is the first position at which `sep` occurs in `s`.
pub open spec fn is_first_occurrence(s: Seq<char>, sep: Seq<char>, i: int) -> bool {
    occurs_at(s, sep, i) && forall|j: int| 0 <= j < i ==> !occurs_at(s, sep, j)
}

/// The pieces of `s` between the non-overlapping occurrences of a non-empty
/// `sep`, found from left to right, as `str::split` yields them.
pub open spec fn split_by(s: Seq<char>, sep: Seq<char>) -> Seq<Seq<char>>
    decreases s.len(),
{
    if sep.len() > 0 && exists|i: int| is_first_occurrence(s, sep, i) {
        let i = choose|i: int| is_first_occurrence(s, sep, i);
        seq![s.take(i)] + split_by(s.skip(i + sep.len()), sep)
    } else {
        seq![s]
    }
}

/// What `splitn(2, c)` yields: the text before the first `c` and, if there
/// is one, the text after it.
pub open spec fn split_once(s: Seq<char>, c: char) -> (Seq<char>, Option<Seq<char>>) {
    if exists|i: int| 0 <= i < s.len() && s[i] == c {
        let i = choose|i: int| 0 <= i < s.len() && s[i] == c && forall|j: int| 0 <= j < i ==> s[j] != c;
        (s.take(i), Some(s.skip(i + 1)))
    } else {
        (s, None)
    }
}

proof fn lemma_first_occurrence_unique(s: Seq<char>, sep: Seq<char>, i: int, k: int)
    requires
        is_first_occurrence(s, sep, i),
        is_first_occurrence(s, sep, k),
    ensures
        i == k,
{
    if i < k {
        assert(!occurs_at(s, sep, i));
    }
    if k < i {
        assert(!occurs_at(s, sep, k));
    }
}

proof fn lemma_first_char_unique(s: Seq<char>, c: char, i: int)
    requires
        0 <= i < s.len(),
        s[i] == c,
        forall|j: int| 0 <= j < i ==> s[j] != c,
    ensures
        split_once(s, c) == (s.take(i), Some(s.skip(i + 1))),
{
    let k = choose|k: int| 0 <= k < s.len() && s[k] == c && forall|j: int| 0 <= j < k ==> s[j] != c;
    assert(k == i) by {
        if k < i {
            assert(s[k] != c);
        }
        if k > i {
            assert(s[i] != c);
        }
    }
}

/// Whether `sep` occurs in `s` at position `i`.
fn matches_at(s: &[char], sep: &[char], i: usize) -> (r: bool)
    requires
        i <= s@.len(),
    ensures
        r == occurs_at(s@, sep@, i as int),
{
    let n = s.len();
    if sep.len() > n - i {
        return false;
    }
    let mut j: usize = 0;
    while j < sep.len()
        invariant
            n == s@.len(),
            i + sep@.len() <= n,
            j <= sep@.len(),
            forall|k: int| 0 <= k < j ==> s@[i + k] == sep@[k],
        decreases sep@.len() - j,
    {
        assert(i + j < s@.len());
        if s[i + j] != sep[j] {
            proof {
                assert(s@.subrange(i as int, i + sep@.len())[j as int] != sep@[j as int]);
            }
            return false;
        }
        j = j + 1;
    }
    proof {
        assert(s@.subrange(i as int, i + sep@.len()) =~= sep@);
    }
    true
}

fn copy_range(s: &[char], from: usize, to: usize) -> (r: Vec<char>)
    requires
        from <= to <= s@.len(),
    ensures
        r@ == s@.subrange(from as int, to as int),
{
    let mut r: Vec<char> = Vec::new();
    let mut k = from;
    while k < to
        invariant
            from <= k <= to <= s@.len(),
            r@ == s@.subrange(from as int, k as int),
        decreases to - k,
    {
        r.push(s[k]);
        proof {
            assert(s@.subrange(from as int, k + 1) == s@.subrange(from as int, k as int).push(s@[k as int]));
        }
        k = k + 1;
    }
    r
}

proof fn lemma_occurs_shift(s: Seq<char>, sep: Seq<char>, pos: int, j: int)
    requires
        0 <= pos <= s.len(),
        0 <= j,
    ensures
        occurs_at(s.skip(pos), sep, j) == occurs_at(s, sep, pos + j),
{
    if occurs_at(s, sep, pos + j) {
        assert(s.skip(pos).subrange(j, j + sep.len()) =~= s.subrange(pos + j, pos + j + sep.len()));
    }
    if occurs_at(s.skip(pos), sep, j) {
        assert(s.skip(pos).subrange(j, j + sep.len()) =~= s.subrange(pos + j, pos + j + sep.len()));
    }
}

/// Splits `s` at every occurrence of the non-empty `sep`, as `str::split` does.
pub fn split_chars(s: &[char], sep: &[char]) -> (pieces: Vec<Vec<char>>)
    requires
        sep@.len() > 0,
    ensures
        pieces@.map_values(|p: Vec<char>| p@) == split_by(s@, sep@),
{
    let mut pieces: Vec<Vec<char>> = Vec::new();
    let mut pos: usize = 0;
    let mut j: usize = 0;
    let n = s.len();
    proof {
        assert(s@.skip(0) =~= s@);
        assert(pieces@.map_values(|p: Vec<char>| p@) =~= Seq::<Seq<char>>::empty());
        assert(Seq::<Seq<char>>::empty() + split_by(s@, sep@) =~= split_by(s@, sep@));
    }
    while j < n
        invariant
            n == s@.len(),
            pos <= j <= n,
            sep@.len() > 0,
            pieces@.map_values(|p: Vec<char>| p@) + split_by(s@.skip(pos as int), sep@) == split_by(s@, sep@),
            forall|k: int| pos <= k < j ==> !occurs_at(s@, sep@, k),
        decreases n - j + (n - pos),
    {
        if matches_at(s, sep, j) {
            let piece = copy_range(s, pos, j);
            proof {
                let rest = s@.skip(pos as int);
                let i = j - pos;
                assert forall|k: int| 0 <= k < i implies !occurs_at(rest, sep@, k) by {
                    lemma_occurs_shift(s@, sep@, pos as int, k);
                }
                lemma_occurs_shift(s@, sep@, pos as int, i);
                assert(is_first_occurrence(rest, sep@, i));
                let c = choose|c: int| is_first_occurrence(rest, sep@, c);
                lemma_first_occurrence_unique(rest, sep@, i, c);
                assert(rest.take(i) == piece@);
                assert(rest.skip(i + sep@.len()) == s@.skip(j + sep@.len()));
                assert(split_by(rest, sep@) == seq![piece@] + split_by(s@.skip(j + sep@.len()), sep@));
                let old_view = pieces@.map_values(|p: Vec<char>| p@);
                assert((pieces@.push(piece)).map_values(|p: Vec<char>| p@) == old_view.push(piece@));
                assert(old_view.push(piece@) + split_by(s@.skip(j + sep@.len()), sep@)
                    == old_view + (seq![piece@] + split_by(s@.skip(j + sep@.len()), sep@)));
            }
            pieces.push(piece);
            pos = j + sep.len();
            j = pos;
        } else {
            j = j + 1;
        }
    }
    let last = copy_range(s, pos, n);
    proof {
        let rest = s@.skip(pos as int);
        assert forall|k: int| 0 <= k implies !is_first_occurrence(rest, sep@, k) by {
            lemma_occurs_shift(s@, sep@, pos as int, k);
        }
        assert(split_by(rest, sep@) == seq![rest]);
        assert(rest == last@);
        let old_view = pieces@.map_values(|p: Vec<char>| p@);
        assert((pieces@.push(last)).map_values(|p: Vec<char>| p@) == old_view.push(last@));
        assert(old_view + seq![last@] == old_view.push(last@));
    }
    pieces.push(last);
    pieces
}

/// Splits `s` at its first `c`, as `splitn(2, c)` does.
pub fn split_once_chars(s: &[char], c: char) -> (r: (Vec<char>, Option<Vec<char>>))
    ensures
        r.0@ == split_once(s@, c).0,
        r.1 matches Some(v) ==> split_once(s@, c).1 == Some(v@),
        r.1 is None ==> split_once(s@, c).1 is None,
{
    let n = s.len();
    let mut i: usize = 0;
    while i < n && s[i] != c
        invariant
            n == s@.len(),
            i <= n,
            forall|j: int| 0 <= j < i ==> s@[j] != c,
        decreases n - i,
    {
        i = i + 1;
    }
    if i == n {
        proof {
            assert(!exists|k: int| 0 <= k < s@.len() && s@[k] == c);
            assert(s@.subrange(0, n as int) == s@);
        }
        (copy_range(s, 0, n), None)
    } else {
        proof {
            lemma_first_char_unique(s@, c, i as int);
        }
        (copy_range(s, 0, i), Some(copy_range(s, i + 1, n)))
    }
}

} // verus!
