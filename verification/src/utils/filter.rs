use vstd::prelude::*;

use crate::utils::text::push_char;

verus! {

broadcast use vstd::seq_lib::group_seq_properties;

/// Whether a character has the Unicode `Lowercase` property (`char::is_lowercase`).
pub uninterp spec fn unicode_lowercase(c: char) -> bool;

/// Whether a character has the Unicode `Uppercase` property (`char::is_uppercase`).
pub uninterp spec fn unicode_uppercase(c: char) -> bool;

/// Whether a character has the Unicode `Alphabetic` property (`char::is_alphabetic`).
pub uninterp spec fn unicode_alphabetic(c: char) -> bool;

/// Whether a character is in one of the Unicode numeric general categories (`char::is_numeric`).
pub uninterp spec fn unicode_numeric(c: char) -> bool;

/// Whether a character has the Unicode `White_Space` property (`char::is_whitespace`).
pub uninterp spec fn unicode_white_space(c: char) -> bool;

/// `char::is_whitespace`: the character's `White_Space` property.
#[verifier::external_body]
pub(crate) fn is_whitespace(c: char) -> (r: bool)
    ensures
        r == unicode_white_space(c),
{
    c.is_whitespace()
}

/// `char::is_lowercase`: the result is the character's `Lowercase` property,
/// which is a function of the character alone.
#[verifier::external_body]
fn is_lowercase(c: char) -> (r: bool)
    ensures
        r == unicode_lowercase(c),
{
    c.is_lowercase()
}

/// `char::is_uppercase`: the result is the character's `Uppercase` property.
#[verifier::external_body]
fn is_uppercase(c: char) -> (r: bool)
    ensures
        r == unicode_uppercase(c),
{
    c.is_uppercase()
}

/// `char::is_alphabetic`: the result is the character's `Alphabetic` property.
#[verifier::external_body]
fn is_alphabetic(c: char) -> (r: bool)
    ensures
        r == unicode_alphabetic(c),
{
    c.is_alphabetic()
}

/// `char::is_numeric`: whether the character is in a numeric general category.
#[verifier::external_body]
fn is_numeric(c: char) -> (r: bool)
    ensures
        r == unicode_numeric(c),
{
    c.is_numeric()
}

/// `char::is_alphanumeric` is documented as `is_alphabetic() || is_numeric()`.
pub open spec fn unicode_alphanumeric(c: char) -> bool {
    unicode_alphabetic(c) || unicode_numeric(c)
}

/// A search term ends between `prev` and `c`: on a lower to upper case change,
/// on a change between letters and non letters or digits and non digits, or
/// between word characters and punctuation.
pub open spec fn is_term_boundary(prev: char, c: char) -> bool {
    ||| (unicode_lowercase(prev) && unicode_uppercase(c))
    ||| (unicode_alphabetic(prev) != unicode_alphabetic(c))
    ||| (unicode_numeric(prev) != unicode_numeric(c))
    ||| (!unicode_alphanumeric(prev) && unicode_alphanumeric(c))
    ||| (unicode_alphanumeric(prev) && !unicode_alphanumeric(c))
}

/// Pieces of a search text end at term boundaries and on both sides of each
/// whitespace character.
pub open spec fn is_piece_boundary(prev: char, c: char) -> bool {
    unicode_white_space(prev) || unicode_white_space(c) || is_term_boundary(prev, c)
}

/// `words` cut `s` into non-empty pieces exactly at its piece boundaries, so
/// each whitespace character is a piece of its own.
pub open spec fn is_term_split(s: Seq<char>, words: Seq<Seq<char>>) -> bool {
    &&& words.flatten() == s
    &&& forall|k: int| 0 <= k < words.len() ==> #[trigger] words[k].len() > 0
    &&& forall|k: int, j: int|
        0 <= k < words.len() && 1 <= j < words[k].len() ==> !is_piece_boundary(
            #[trigger] words[k][j - 1],
            words[k][j],
        )
    &&& forall|k: int|
        0 <= k < words.len() - 1 ==> is_piece_boundary(
            #[trigger] words[k].last(),
            words[k + 1][0],
        )
}

/// Dropping the first word of a split leaves a split of the rest of the text.
proof fn lemma_term_split_rest(s: Seq<char>, words: Seq<Seq<char>>)
    requires
        is_term_split(s, words),
        words.len() > 0,
    ensures
        s == words[0] + words.drop_first().flatten(),
        is_term_split(s.skip(words[0].len() as int), words.drop_first()),
{
    let rest = words.drop_first();
    let n = words[0].len() as int;
    assert(s.skip(n) =~= rest.flatten());
    assert forall|k: int| 0 <= k < rest.len() implies #[trigger] rest[k].len() > 0 by {
        assert(rest[k] == words[k + 1]);
    }
    assert forall|k: int, j: int| 0 <= k < rest.len() && 1 <= j < rest[k].len() implies !is_piece_boundary(
        #[trigger] rest[k][j - 1],
        rest[k][j],
    ) by {
        assert(rest[k] == words[k + 1]);
        assert(!is_piece_boundary(words[k + 1][j - 1], words[k + 1][j]));
    }
    assert forall|k: int| 0 <= k < rest.len() - 1 implies is_piece_boundary(
        #[trigger] rest[k].last(),
        rest[k + 1][0],
    ) by {
        assert(rest[k] == words[k + 1] && rest[k + 1] == words[k + 2]);
        assert(is_piece_boundary(words[k + 1].last(), words[k + 2][0]));
    }
}

/// A text has one split into search terms: two splits of the same text are
/// the same list of terms.
pub proof fn lemma_term_split_unique(s: Seq<char>, a: Seq<Seq<char>>, b: Seq<Seq<char>>)
    requires
        is_term_split(s, a),
        is_term_split(s, b),
    ensures
        a == b,
    decreases s.len(),
{
    if a.len() == 0 || b.len() == 0 {
        if a.len() > 0 {
            lemma_term_split_rest(s, a);
            assert(a[0].len() > 0);
        } else if b.len() > 0 {
            lemma_term_split_rest(s, b);
            assert(b[0].len() > 0);
        } else {
            assert(a =~= b);
        }
    } else {
        lemma_term_split_rest(s, a);
        lemma_term_split_rest(s, b);
        let x = a[0];
        let y = b[0];
        assert(x.len() > 0 && y.len() > 0);
        // The first term ends at the first boundary of the text, in either split.
        if x.len() < y.len() {
            let p = x.len() as int;
            if a.len() == 1 {
                assert(a.drop_first().flatten() =~= Seq::<char>::empty());
                assert(s.len() == x.len());
                assert(s.len() >= y.len());
            } else {
                assert(a[1].len() > 0);
                assert(a.drop_first() =~= seq![a[1]] + a.drop_first().drop_first());
                assert(a.drop_first().flatten() == a[1] + a.drop_first().drop_first().flatten());
                assert(s[p] == a[1][0]);
                assert(s[p - 1] == x.last());
                assert(is_piece_boundary(a[0].last(), a[1][0]));
                assert(s[p - 1] == y[p - 1] && s[p] == y[p]);
                assert(!is_piece_boundary(b[0][p - 1], b[0][p]));
            }
        } else if y.len() < x.len() {
            let p = y.len() as int;
            if b.len() == 1 {
                assert(b.drop_first().flatten() =~= Seq::<char>::empty());
                assert(s.len() == y.len());
                assert(s.len() >= x.len());
            } else {
                assert(b[1].len() > 0);
                assert(b.drop_first() =~= seq![b[1]] + b.drop_first().drop_first());
                assert(b.drop_first().flatten() == b[1] + b.drop_first().drop_first().flatten());
                assert(s[p] == b[1][0]);
                assert(s[p - 1] == y.last());
                assert(is_piece_boundary(b[0].last(), b[1][0]));
                assert(s[p - 1] == x[p - 1] && s[p] == x[p]);
                assert(!is_piece_boundary(a[0][p - 1], a[0][p]));
            }
        }
        assert(x.len() == y.len());
        assert(x =~= s.take(x.len() as int));
        assert(y =~= s.take(y.len() as int));
        lemma_term_split_unique(s.skip(x.len() as int), a.drop_first(), b.drop_first());
        assert(a =~= seq![x] + a.drop_first());
        assert(b =~= seq![y] + b.drop_first());
    }
}

/// The character sequences of a list of strings.
pub open spec fn strings_view(v: Seq<String>) -> Seq<Seq<char>> {
    v.map_values(|w: String| w@)
}

fn term_boundary(pc: char, c: char) -> (r: bool)
    ensures
        r == is_term_boundary(pc, c),
{
    let pc_alpha = is_alphabetic(pc);
    let c_alpha = is_alphabetic(c);
    let pc_num = is_numeric(pc);
    let c_num = is_numeric(c);
    let pc_alnum = pc_alpha || pc_num;
    let c_alnum = c_alpha || c_num;
    (is_lowercase(pc) && is_uppercase(c)) || (pc_alpha != c_alpha) || (pc_num != c_num) || (
    !pc_alnum && c_alnum) || (pc_alnum && !c_alnum)
}

/// A piece of a search text that is a term: one that is not whitespace.
pub open spec fn is_term_piece(p: Seq<char>) -> bool {
    p.len() > 0 && !unicode_white_space(p[0])
}

/// The predicate "is a term".
pub open spec fn term_piece() -> spec_fn(Seq<char>) -> bool {
    |p: Seq<char>| is_term_piece(p)
}

/// The predicate "is not whitespace".
pub open spec fn not_space() -> spec_fn(char) -> bool {
    |c: char| !unicode_white_space(c)
}

/// `terms` are the search terms of `s`: its pieces without the whitespace.
pub open spec fn is_search_terms(s: Seq<char>, terms: Seq<Seq<char>>) -> bool {
    exists|pieces: Seq<Seq<char>>| is_term_split(s, pieces) && terms == pieces.filter(term_piece())
}

/// A text has one list of search terms.
pub proof fn lemma_search_terms_unique(s: Seq<char>, a: Seq<Seq<char>>, b: Seq<Seq<char>>)
    requires
        is_search_terms(s, a),
        is_search_terms(s, b),
    ensures
        a == b,
{
    let pa = choose|pieces: Seq<Seq<char>>| is_term_split(s, pieces) && a == pieces.filter(term_piece());
    let pb = choose|pieces: Seq<Seq<char>>| is_term_split(s, pieces) && b == pieces.filter(term_piece());
    lemma_term_split_unique(s, pa, pb);
}

/// Filtering keeps a sequence whose every element passes.
proof fn lemma_filter_keeps_all(s: Seq<char>, f: spec_fn(char) -> bool)
    requires
        forall|i: int| 0 <= i < s.len() ==> f(#[trigger] s[i]),
    ensures
        s.filter(f) == s,
    decreases s.len(),
{
    reveal(Seq::filter);
    if s.len() > 0 {
        lemma_filter_keeps_all(s.drop_last(), f);
        assert(s.drop_last().push(s.last()) =~= s);
    }
}

/// The terms of a split hold the text without its whitespace, and no term
/// holds whitespace.
proof fn lemma_terms_of_split(s: Seq<char>, pieces: Seq<Seq<char>>)
    requires
        is_term_split(s, pieces),
    ensures
        pieces.filter(term_piece()).flatten() == s.filter(not_space()),
        forall|k: int|
            0 <= k < pieces.filter(term_piece()).len() ==> #[trigger] pieces.filter(term_piece())[k].len() > 0,
        forall|k: int, j: int|
            0 <= k < pieces.filter(term_piece()).len() && 0 <= j < pieces.filter(term_piece())[k].len()
                ==> !unicode_white_space(#[trigger] pieces.filter(term_piece())[k][j]),
    decreases pieces.len(),
{
    reveal(Seq::filter);
    if pieces.len() == 0 {
        assert(s =~= Seq::<char>::empty());
        assert(s.filter(not_space()) =~= Seq::<char>::empty());
    } else {
        let init = pieces.drop_last();
        let p = pieces.last();
        let t = init.flatten();
        init.lemma_flatten_push(p);
        assert(init.push(p) =~= pieces);
        assert(s == t + p);
        // The pieces before the last one split the text before it.
        assert(is_term_split(t, init)) by {
            assert forall|k: int| 0 <= k < init.len() implies #[trigger] init[k].len() > 0 by {
                assert(init[k] == pieces[k]);
            }
            assert forall|k: int, j: int| 0 <= k < init.len() && 1 <= j < init[k].len() implies !is_piece_boundary(
                #[trigger] init[k][j - 1],
                init[k][j],
            ) by {
                assert(init[k] == pieces[k]);
            }
            assert forall|k: int| 0 <= k < init.len() - 1 implies is_piece_boundary(
                #[trigger] init[k].last(),
                init[k + 1][0],
            ) by {
                assert(init[k] == pieces[k] && init[k + 1] == pieces[k + 1]);
            }
        }
        lemma_terms_of_split(t, init);
        Seq::filter_distributes_over_add(t, p, not_space());
        let terms = init.filter(term_piece());
        assert(p.len() > 0);
        if is_term_piece(p) {
            // A term holds no whitespace: one inside it would be a boundary.
            assert forall|j: int| 0 <= j < p.len() implies (not_space())(#[trigger] p[j]) by {
                if unicode_white_space(p[j]) {
                    if j > 0 {
                        assert(!is_piece_boundary(pieces[pieces.len() - 1][j - 1], pieces[pieces.len() - 1][j]));
                    }
                }
            }
            lemma_filter_keeps_all(p, not_space());
            assert(pieces.filter(term_piece()) == terms.push(p));
            terms.lemma_flatten_push(p);
            assert forall|k: int, j: int|
                0 <= k < terms.push(p).len() && 0 <= j < terms.push(p)[k].len() implies !unicode_white_space(
                #[trigger] terms.push(p)[k][j],
            ) by {
                if k < terms.len() {
                    assert(terms.push(p)[k] == terms[k]);
                } else {
                    assert((not_space())(p[j]));
                }
            }
            assert forall|k: int| 0 <= k < terms.push(p).len() implies #[trigger] terms.push(p)[k].len() > 0 by {
                if k < terms.len() {
                    assert(terms.push(p)[k] == terms[k]);
                }
            }
        } else {
            // A whitespace piece is that one character.
            if p.len() > 1 {
                assert(!is_piece_boundary(pieces[pieces.len() - 1][0], pieces[pieces.len() - 1][1]));
            }
            assert(p =~= seq![p[0]]);
            assert(p.filter(not_space()) =~= Seq::<char>::empty()) by {
                assert(p.drop_last() =~= Seq::<char>::empty());
            }
            assert(pieces.filter(term_piece()) == terms);
            assert(s.filter(not_space()) =~= t.filter(not_space()));
        }
    }
}

/// Splits a search query value into terms to be case insensitively matched
///
/// testTerm = test, Term
/// TestTerm = Test, Term
/// test1term = test, 1, term
/// test term = test, term
/// test#term = test, #, term
pub fn split_search_terms(value: &str) -> (words: Vec<String>)
    ensures
        is_search_terms(value@, strings_view(words@)),
        strings_view(words@).flatten() == value@.filter(not_space()),
        forall|k: int| 0 <= k < words@.len() ==> #[trigger] words@[k]@.len() > 0,
        forall|k: int, j: int|
            0 <= k < words@.len() && 0 <= j < words@[k]@.len() ==> !unicode_white_space(#[trigger] words@[k]@[j]),
{
    let mut words: Vec<String> = Vec::new();
    let mut current = String::new();
    let mut prev_char: Option<char> = None;
    let ghost mut pieces: Seq<Seq<char>> = Seq::empty();

    for c in it: value.chars()
        invariant
            it.seq() == value@,
            pieces.flatten() + current@ == value@.take(it.index() as int),
            strings_view(words@) == pieces.filter(term_piece()),
            it.index() == 0 ==> prev_char is None && current@.len() == 0 && pieces.len() == 0,
            it.index() > 0 ==> prev_char == Some(value@[it.index() - 1]),
            it.index() > 0 && current@.len() > 0 ==> current@.last() == value@[it.index() - 1],
            it.index() > 0 && current@.len() == 0 ==> pieces.len() > 0 && pieces.last() == seq![value@[it.index() - 1]]
                && unicode_white_space(value@[it.index() - 1]),
            forall|j: int| 0 <= j < current@.len() ==> !unicode_white_space(#[trigger] current@[j]),
            forall|k: int| 0 <= k < pieces.len() ==> #[trigger] pieces[k].len() > 0,
            forall|k: int, j: int|
                0 <= k < pieces.len() && 1 <= j < pieces[k].len() ==> !is_piece_boundary(
                    #[trigger] pieces[k][j - 1],
                    pieces[k][j],
                ),
            forall|k: int|
                0 <= k < pieces.len() - 1 ==> is_piece_boundary(#[trigger] pieces[k].last(), pieces[k + 1][0]),
            forall|j: int| 1 <= j < current@.len() ==> !is_piece_boundary(#[trigger] current@[j - 1], current@[j]),
            pieces.len() > 0 && current@.len() > 0 ==> is_piece_boundary(pieces.last().last(), current@[0]),
    {
        let ghost i = it.index();
        proof {
            assert(value@.take(i + 1) == value@.take(i).push(c));
        }
        if is_whitespace(c) {
            if !current.as_str().is_empty() {
                let ghost old_words = strings_view(words@);
                let ghost old_pieces = pieces;
                let word = current;
                current = String::new();
                words.push(word);
                proof {
                    pieces = pieces.push(word@);
                    assert(strings_view(words@) == old_words.push(word@));
                    old_words.lemma_flatten_push(word@);
                    old_pieces.lemma_flatten_push(word@);
                    old_pieces.lemma_filter_push(word@, term_piece());
                }
            }
            proof {
                let old_pieces = pieces;
                pieces = pieces.push(seq![c]);
                old_pieces.lemma_flatten_push(seq![c]);
                old_pieces.lemma_filter_push(seq![c], term_piece());
                assert(seq![c].last() == c);
            }
        } else {
            if let Some(pc) = prev_char {
                let split = term_boundary(pc, c);
                if split && !current.as_str().is_empty() {
                    let ghost old_words = strings_view(words@);
                    let ghost old_pieces = pieces;
                    let word = current;
                    current = String::new();
                    words.push(word);
                    proof {
                        pieces = pieces.push(word@);
                        assert(strings_view(words@) == old_words.push(word@));
                        old_words.lemma_flatten_push(word@);
                        old_pieces.lemma_flatten_push(word@);
                        old_pieces.lemma_filter_push(word@, term_piece());
                    }
                }
            }
            push_char(&mut current, c);
        }
        prev_char = Some(c);
    }

    if !current.as_str().is_empty() {
        let ghost old_words = strings_view(words@);
        let ghost old_pieces = pieces;
        words.push(current);
        proof {
            pieces = pieces.push(current@);
            old_words.lemma_flatten_push(current@);
            assert(strings_view(words@) == old_words.push(current@));
            old_pieces.lemma_flatten_push(current@);
            old_pieces.lemma_filter_push(current@, term_piece());
        }
    }
    proof {
        assert(value@.take(value@.len() as int) == value@);
        assert(is_term_split(value@, pieces));
        lemma_terms_of_split(value@, pieces);
        let terms = pieces.filter(term_piece());
        assert forall|k: int| 0 <= k < words@.len() implies #[trigger] words@[k]@.len() > 0 by {
            assert(strings_view(words@)[k] == words@[k]@);
            assert(terms[k].len() > 0);
        }
        assert forall|k: int, j: int| 0 <= k < words@.len() && 0 <= j < words@[k]@.len() implies !unicode_white_space(
            #[trigger] words@[k]@[j],
        ) by {
            assert(strings_view(words@)[k] == words@[k]@);
            assert(!unicode_white_space(terms[k][j]));
        }
    }
    words
}

} // verus!
