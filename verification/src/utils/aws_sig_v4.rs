use sha2::Digest;
use vstd::prelude::*;

use crate::utils::encoding::{aws_uri_encode, hex_encode, hex_text, uri_encode_bytes};
use crate::utils::filter::{is_whitespace, unicode_white_space};
use crate::utils::order::{is_stable_key_sort, lemma_stable_sort_unique, pairs_view, stable_sort_by_key};
use crate::utils::split::{split_by, split_chars, split_once, split_once_chars};
use crate::utils::string::join_seqs;
use crate::utils::text::{chars_of, push_char, push_chars, push_str, string_from_chars, str_eq};

verus! {

broadcast use vstd::seq_lib::group_seq_properties;

/// The UTF-8 bytes of a text.
pub open spec fn utf8(s: Seq<char>) -> Seq<u8> {
    vstd::utf8::encode_utf8(s)
}

/// The SHA-256 digest of a byte string.
pub uninterp spec fn sha256_digest(data: Seq<u8>) -> Seq<u8>;

/// The HMAC-SHA256 tag of `msg` under `key`.
pub uninterp spec fn hmac_sha256_tag(key: Seq<u8>, msg: Seq<u8>) -> Seq<u8>;

/// `sha2::Sha256::digest`: the digest is a function of the data alone.
#[verifier::external_body]
fn sha256(data: &[u8]) -> (r: Vec<u8>)
    ensures
        r@ == sha256_digest(data@),
{
    sha2::Sha256::digest(data).to_vec()
}

/// `ring::hmac::sign` with an `HMAC_SHA256` key made from `key`: the tag is a
/// function of the key bytes and the message alone.
#[verifier::external_body]
fn hmac_sha256(key: &[u8], msg: &[u8]) -> (r: Vec<u8>)
    ensures
        r@ == hmac_sha256_tag(key@, msg@),
{
    let signing_key = ring::hmac::Key::new(ring::hmac::HMAC_SHA256, key);
    ring::hmac::sign(&signing_key, msg).as_ref().to_vec()
}

/// Perform a SHA256 hash on a payload returning the hex encoded result
pub fn hash_hex(payload: &[u8]) -> (s: String)
    ensures
        s@ == hex_text(sha256_digest(payload@)),
{
    let digest = sha256(payload);
    hex_encode(digest.as_slice())
}

/// The text with leading white space removed.
pub open spec fn trim_start(s: Seq<char>) -> Seq<char>
    decreases s.len(),
{
    if s.len() > 0 && unicode_white_space(s[0]) {
        trim_start(s.drop_first())
    } else {
        s
    }
}

/// The text with trailing white space removed.
pub open spec fn trim_end(s: Seq<char>) -> Seq<char>
    decreases s.len(),
{
    if s.len() > 0 && unicode_white_space(s.last()) {
        trim_end(s.drop_last())
    } else {
        s
    }
}

/// The text with leading and trailing white space removed (`str::trim`).
pub open spec fn trim(s: Seq<char>) -> Seq<char> {
    trim_end(trim_start(s))
}

proof fn lemma_trim_start_skip(s: Seq<char>, a: int)
    requires
        0 <= a <= s.len(),
        forall|i: int| 0 <= i < a ==> unicode_white_space(#[trigger] s[i]),
        a == s.len() || !unicode_white_space(s[a]),
    ensures
        trim_start(s) == s.skip(a),
    decreases a,
{
    if a == 0 {
        assert(s.skip(0) =~= s);
    } else {
        assert forall|i: int| 0 <= i < a - 1 implies unicode_white_space(#[trigger] s.drop_first()[i]) by {
            assert(s.drop_first()[i] == s[i + 1]);
        }
        if a < s.len() {
            assert(s.drop_first()[a - 1] == s[a]);
        }
        lemma_trim_start_skip(s.drop_first(), a - 1);
        assert(s.drop_first().skip(a - 1) =~= s.skip(a));
    }
}

proof fn lemma_trim_end_take(s: Seq<char>, b: int)
    requires
        0 <= b <= s.len(),
        forall|i: int| b <= i < s.len() ==> unicode_white_space(#[trigger] s[i]),
        b == 0 || !unicode_white_space(s[b - 1]),
    ensures
        trim_end(s) == s.take(b),
    decreases s.len() - b,
{
    if b == s.len() {
        assert(s.take(b) =~= s);
    } else {
        let t = s.drop_last();
        assert forall|i: int| b <= i < t.len() implies unicode_white_space(#[trigger] t[i]) by {
            assert(t[i] == s[i]);
        }
        if b > 0 {
            assert(t[b - 1] == s[b - 1]);
        }
        lemma_trim_end_take(t, b);
        assert(t.take(b) =~= s.take(b));
    }
}

/// Removes leading and trailing white space, as `str::trim` does.
pub fn trim_chars(s: &[char]) -> (r: Vec<char>)
    ensures
        r@ == trim(s@),
{
    let n = s.len();
    let mut a: usize = 0;
    while a < n && is_whitespace(s[a])
        invariant
            n == s@.len(),
            a <= n,
            forall|i: int| 0 <= i < a ==> unicode_white_space(#[trigger] s@[i]),
        decreases n - a,
    {
        a = a + 1;
    }
    proof {
        lemma_trim_start_skip(s@, a as int);
    }
    let ghost t = s@.skip(a as int);
    let mut b: usize = n;
    while b > a && is_whitespace(s[b - 1])
        invariant
            n == s@.len(),
            a <= b <= n,
            forall|i: int| b <= i < n ==> unicode_white_space(#[trigger] s@[i]),
        decreases b,
    {
        b = b - 1;
    }
    proof {
        assert forall|i: int| b - a <= i < t.len() implies unicode_white_space(#[trigger] t[i]) by {
            assert(t[i] == s@[a + i]);
        }
        if b > a {
            assert(t[b - a - 1] == s@[b - 1]);
        }
        lemma_trim_end_take(t, b - a);
        assert(t.take(b - a) =~= s@.subrange(a as int, b as int));
    }
    let mut r: Vec<char> = Vec::new();
    let mut k = a;
    while k < b
        invariant
            a <= k <= b <= n,
            n == s@.len(),
            r@ == s@.subrange(a as int, k as int),
        decreases b - k,
    {
        r.push(s[k]);
        proof {
            assert(s@.subrange(a as int, k + 1) =~= s@.subrange(a as int, k as int).push(s@[k as int]));
        }
        k = k + 1;
    }
    r
}

/// ASCII uppercase letters mapped to lowercase, other characters unchanged.
pub open spec fn lower_char(c: char) -> char {
    if 'A' <= c <= 'Z' {
        (c as int + 32) as char
    } else {
        c
    }
}

/// `str::to_ascii_lowercase`.
pub open spec fn ascii_lower(s: Seq<char>) -> Seq<char> {
    s.map_values(|c: char| lower_char(c))
}

pub fn to_ascii_lowercase(s: &[char]) -> (r: Vec<char>)
    ensures
        r@ == ascii_lower(s@),
{
    let mut r: Vec<char> = Vec::new();
    let mut i: usize = 0;
    while i < s.len()
        invariant
            i <= s@.len(),
            r@ == ascii_lower(s@.take(i as int)),
        decreases s@.len() - i,
    {
        let c = s[i];
        let l = if 'A' <= c && c <= 'Z' {
            ((c as u8) + 32) as char
        } else {
            c
        };
        r.push(l);
        proof {
            assert(ascii_lower(s@.take(i + 1)) =~= ascii_lower(s@.take(i as int)).push(lower_char(c)));
        }
        i = i + 1;
    }
    proof {
        assert(s@.take(s@.len() as int) =~= s@);
    }
    r
}

/// A query parameter: the text before the first `=` and the text after it
/// (empty when there is no `=`).
pub open spec fn query_pair(kv: Seq<char>) -> (Seq<char>, Seq<char>) {
    let (k, v) = split_once(kv, '=');
    (
        k,
        match v {
            Some(v) => v,
            None => Seq::empty(),
        },
    )
}

/// The parameters of a query string, split at each `&`.
pub open spec fn query_pairs(query: Seq<char>) -> Seq<(Seq<char>, Seq<char>)> {
    split_by(query, seq!['&']).map_values(|kv: Seq<char>| query_pair(kv))
}

/// `key=value` with both sides URI encoded, slashes included.
pub open spec fn encode_query_pair(p: (Seq<char>, Seq<char>)) -> Seq<char> {
    uri_encode_bytes(utf8(p.0), true) + seq!['='] + uri_encode_bytes(utf8(p.1), true)
}

/// The encoded pairs, in the given order, joined with `&`.
pub open spec fn encoded_query_text(sorted: Seq<(Seq<char>, Seq<char>)>) -> Seq<char> {
    join_seqs(sorted.map_values(|p: (Seq<char>, Seq<char>)| encode_query_pair(p)), seq!['&'])
}

/// `text` is the canonical form of `query`: its parameters stably sorted by
/// the bytes of their names, encoded and joined with `&`.
pub open spec fn is_canonical_query(query: Seq<char>, text: Seq<char>) -> bool {
    exists|sorted: Seq<(Seq<char>, Seq<char>)>|
        is_stable_key_sort(query_pairs(query), sorted) && text == encoded_query_text(sorted)
}

fn encode_pair(k: &String, v: &String) -> (s: String)
    ensures
        s@ == encode_query_pair((k@, v@)),
{
    let mut s = aws_uri_encode(k.as_str(), true);
    push_char(&mut s, '=');
    let e = aws_uri_encode(v.as_str(), true);
    push_str(&mut s, e.as_str());
    s
}

/// Create a "CanonicalQueryString" from the provided query string
pub fn canonicalize_query(query: &str) -> (r: String)
    ensures
        is_canonical_query(query@, r@),
{
    let cs = chars_of(query);
    let amp: Vec<char> = vec!['&'];
    let pieces = split_chars(cs.as_slice(), amp.as_slice());
    let mut pairs: Vec<(String, String)> = Vec::new();
    let mut i: usize = 0;
    let ghost pv = pieces@.map_values(|p: Vec<char>| p@);
    while i < pieces.len()
        invariant
            i <= pieces@.len(),
            pv == pieces@.map_values(|p: Vec<char>| p@),
            pairs_view(pairs@) == pv.take(i as int).map_values(|kv: Seq<char>| query_pair(kv)),
        decreases pieces@.len() - i,
    {
        let (k, v) = split_once_chars(pieces[i].as_slice(), '=');
        let key = string_from_chars(k.as_slice());
        let value = match v {
            Some(v) => string_from_chars(v.as_slice()),
            None => String::new(),
        };
        proof {
            assert(pv[i as int] == pieces@[i as int]@);
            assert(pv.take(i + 1) =~= pv.take(i as int).push(pv[i as int]));
            assert(pv.take(i + 1).map_values(|kv: Seq<char>| query_pair(kv)) =~= pv.take(
                i as int,
            ).map_values(|kv: Seq<char>| query_pair(kv)).push(query_pair(pv[i as int])));
            assert(pairs_view(pairs@.push((key, value))) =~= pairs_view(pairs@).push((key@, value@)));
        }
        pairs.push((key, value));
        i = i + 1;
    }
    proof {
        assert(pv.take(pv.len() as int) =~= pv);
        assert(amp@ =~= seq!['&']);
    }
    let ghost pairs_v = pairs_view(pairs@);
    proof {
        assert(pv == split_by(query@, seq!['&']));
        assert(pairs_v =~= query_pairs(query@));
    }
    let sorted = stable_sort_by_key(pairs);
    let ghost sv = pairs_view(sorted@);
    let mut encoded: Vec<String> = Vec::new();
    let mut j: usize = 0;
    while j < sorted.len()
        invariant
            j <= sorted@.len(),
            sv == pairs_view(sorted@),
            encoded@.len() == j,
            forall|q: int| 0 <= q < j ==> #[trigger] encoded@[q]@ == encode_query_pair(sv[q]),
        decreases sorted@.len() - j,
    {
        let e = encode_pair(&sorted[j].0, &sorted[j].1);
        encoded.push(e);
        j = j + 1;
    }
    let r = crate::utils::string::join_iter_string(encoded.as_slice(), "&");
    proof {
        assert(crate::utils::filter::strings_view(encoded@) =~= sv.map_values(
            |p: (Seq<char>, Seq<char>)| encode_query_pair(p),
        ));
        assert("&"@ =~= seq!['&']) by {
            reveal_strlit("&");
        }
        assert(r@ == encoded_query_text(sv));
        assert(is_stable_key_sort(query_pairs(query@), sv));
    }
    r
}

/// The header entries whose lowercase names are signed, with trimmed values,
/// in order of first appearance; a later value of the same name replaces an
/// earlier one, and values that are not text are skipped.
pub open spec fn collect_headers(
    headers: Seq<(Seq<char>, Option<Seq<char>>)>,
    signed: Seq<Seq<char>>,
) -> Seq<(Seq<char>, Seq<char>)>
    decreases headers.len(),
{
    if headers.len() == 0 {
        Seq::empty()
    } else {
        let acc = collect_headers(headers.drop_last(), signed);
        let key = ascii_lower(headers.last().0);
        match headers.last().1 {
            Some(value) => if signed.contains(key) {
                if exists|j: int| 0 <= j < acc.len() && acc[j].0 == key {
                    let j = choose|j: int|
                        0 <= j < acc.len() && acc[j].0 == key && forall|i: int|
                            0 <= i < j ==> acc[i].0 != key;
                    acc.update(j, (key, trim(value)))
                } else {
                    acc.push((key, trim(value)))
                }
            } else {
                acc
            },
            None => acc,
        }
    }
}

/// Each header as `name:value` followed by a newline.
pub open spec fn headers_text(hs: Seq<(Seq<char>, Seq<char>)>) -> Seq<char>
    decreases hs.len(),
{
    if hs.len() == 0 {
        Seq::empty()
    } else {
        headers_text(hs.drop_last()) + hs.last().0 + seq![':'] + hs.last().1 + seq!['\n']
    }
}

/// The header names joined with `;`.
pub open spec fn signed_headers_text(hs: Seq<(Seq<char>, Seq<char>)>) -> Seq<char> {
    join_seqs(hs.map_values(|p: (Seq<char>, Seq<char>)| p.0), seq![';'])
}

/// The canonical request: method, encoded path, canonical query, canonical
/// headers, signed header names and the hex SHA-256 of the body, one per line.
pub open spec fn canonical_request_text(
    method: Seq<char>,
    path: Seq<char>,
    query_text: Seq<char>,
    sorted_headers: Seq<(Seq<char>, Seq<char>)>,
    body: Seq<u8>,
) -> Seq<char> {
    method + seq!['\n'] + uri_encode_bytes(utf8(path), false) + seq!['\n'] + query_text + seq!['\n']
        + headers_text(sorted_headers) + seq!['\n'] + signed_headers_text(sorted_headers) + seq![
        '\n',
    ] + hex_text(sha256_digest(body))
}

/// The parts of an HTTP request that its signature covers. Each header is
/// given by its name and, when its value is visible ASCII text, that text.
pub struct RequestHead {
    pub method: String,
    pub path: String,
    pub query: Option<String>,
    pub headers: Vec<(String, Option<String>)>,
}

/// The header names and values of a request head.
pub open spec fn headers_view(hs: Seq<(String, Option<String>)>) -> Seq<(Seq<char>, Option<Seq<char>>)> {
    hs.map_values(
        |h: (String, Option<String>)|
            (
                h.0@,
                match h.1 {
                    Some(v) => Some(v@),
                    None => None,
                },
            ),
    )
}

/// `text` is the canonical request of the request head and body.
pub open spec fn is_canonical_request(
    signed_headers: Seq<Seq<char>>,
    head: RequestHead,
    body: Seq<u8>,
    text: Seq<char>,
) -> bool {
    exists|query_text: Seq<char>, sorted: Seq<(Seq<char>, Seq<char>)>|
        {
            &&& match head.query {
                Some(q) => is_canonical_query(q@, query_text),
                None => query_text == Seq::<char>::empty(),
            }
            &&& is_stable_key_sort(
                collect_headers(headers_view(head.headers@), signed_headers),
                sorted,
            )
            &&& text == canonical_request_text(head.method@, head.path@, query_text, sorted, body)
        }
}

/// A query has one canonical form.
pub proof fn lemma_canonical_query_unique(query: Seq<char>, a: Seq<char>, b: Seq<char>)
    requires
        is_canonical_query(query, a),
        is_canonical_query(query, b),
    ensures
        a == b,
{
    let sa = choose|sorted: Seq<(Seq<char>, Seq<char>)>|
        is_stable_key_sort(query_pairs(query), sorted) && a == encoded_query_text(sorted);
    let sb = choose|sorted: Seq<(Seq<char>, Seq<char>)>|
        is_stable_key_sort(query_pairs(query), sorted) && b == encoded_query_text(sorted);
    lemma_stable_sort_unique(query_pairs(query), sa, sb);
}

/// A request has one canonical form: what is signed is a function of the
/// request's head, body and signed header names.
pub proof fn lemma_canonical_request_unique(
    signed_headers: Seq<Seq<char>>,
    head: RequestHead,
    body: Seq<u8>,
    a: Seq<char>,
    b: Seq<char>,
)
    requires
        is_canonical_request(signed_headers, head, body, a),
        is_canonical_request(signed_headers, head, body, b),
    ensures
        a == b,
{
    let (qa, sa) = choose|query_text: Seq<char>, sorted: Seq<(Seq<char>, Seq<char>)>|
        {
            &&& match head.query {
                Some(q) => is_canonical_query(q@, query_text),
                None => query_text == Seq::<char>::empty(),
            }
            &&& is_stable_key_sort(collect_headers(headers_view(head.headers@), signed_headers), sorted)
            &&& a == canonical_request_text(head.method@, head.path@, query_text, sorted, body)
        };
    let (qb, sb) = choose|query_text: Seq<char>, sorted: Seq<(Seq<char>, Seq<char>)>|
        {
            &&& match head.query {
                Some(q) => is_canonical_query(q@, query_text),
                None => query_text == Seq::<char>::empty(),
            }
            &&& is_stable_key_sort(collect_headers(headers_view(head.headers@), signed_headers), sorted)
            &&& b == canonical_request_text(head.method@, head.path@, query_text, sorted, body)
        };
    match head.query {
        Some(q) => lemma_canonical_query_unique(q@, qa, qb),
        None => {},
    }
    lemma_stable_sort_unique(collect_headers(headers_view(head.headers@), signed_headers), sa, sb);
}

fn contains_text(list: &[String], s: &[char]) -> (r: bool)
    ensures
        r == crate::utils::filter::strings_view(list@).contains(s@),
{
    let mut i: usize = 0;
    while i < list.len()
        invariant
            i <= list@.len(),
            forall|j: int| 0 <= j < i ==> list@[j]@ != s@,
        decreases list@.len() - i,
    {
        let t = string_from_chars(s);
        if str_eq(list[i].as_str(), t.as_str()) {
            proof {
                assert(crate::utils::filter::strings_view(list@)[i as int] == s@);
            }
            return true;
        }
        i = i + 1;
    }
    proof {
        if crate::utils::filter::strings_view(list@).contains(s@) {
            let j = choose|j: int| 0 <= j < list@.len() && crate::utils::filter::strings_view(list@)[j] == s@;
            assert(list@[j]@ == s@);
        }
    }
    false
}

fn collect_signed_headers(signed_headers: &[String], headers: &Vec<(String, Option<String>)>) -> (r: Vec<(String, String)>)
    ensures
        pairs_view(r@) == collect_headers(headers_view(headers@), crate::utils::filter::strings_view(signed_headers@)),
{
    let ghost signed = crate::utils::filter::strings_view(signed_headers@);
    let ghost hv = headers_view(headers@);
    let mut acc: Vec<(String, String)> = Vec::new();
    let mut i: usize = 0;
    while i < headers.len()
        invariant
            i <= headers@.len(),
            signed == crate::utils::filter::strings_view(signed_headers@),
            hv == headers_view(headers@),
            pairs_view(acc@) == collect_headers(hv.take(i as int), signed),
        decreases headers@.len() - i,
    {
        let ghost prev = pairs_view(acc@);
        proof {
            let t = hv.take(i + 1);
            assert(t.drop_last() =~= hv.take(i as int));
            assert(t.last() == hv[i as int]);
        }
        let name_chars = chars_of(headers[i].0.as_str());
        let key = to_ascii_lowercase(name_chars.as_slice());
        match &headers[i].1 {
            Some(value) => {
                if contains_text(signed_headers, key.as_slice()) {
                    let value_chars = chars_of(value.as_str());
                    let trimmed = trim_chars(value_chars.as_slice());
                    let key_string = string_from_chars(key.as_slice());
                    let value_string = string_from_chars(trimmed.as_slice());
                    let mut j: usize = 0;
                    while j < acc.len() && !str_eq(acc[j].0.as_str(), key_string.as_str())
                        invariant
                            j <= acc@.len(),
                            prev == pairs_view(acc@),
                            key_string@ == key@,
                            forall|q: int| 0 <= q < j ==> prev[q].0 != key@,
                        decreases acc@.len() - j,
                    {
                        j = j + 1;
                    }
                    if j < acc.len() {
                        proof {
                            assert(prev[j as int].0 == key@);
                            let c = choose|c: int|
                                0 <= c < prev.len() && prev[c].0 == key@ && forall|q: int|
                                    0 <= q < c ==> prev[q].0 != key@;
                            assert(c == j) by {
                                if c < j {
                                    assert(prev[c].0 != key@);
                                }
                                if c > j {
                                    assert(prev[j as int].0 != key@);
                                }
                            }
                        }
                        acc.set(j, (key_string, value_string));
                        proof {
                            assert(pairs_view(acc@) =~= prev.update(j as int, (key@, trimmed@)));
                        }
                    } else {
                        acc.push((key_string, value_string));
                        proof {
                            assert(pairs_view(acc@) =~= prev.push((key@, trimmed@)));
                        }
                    }
                }
            },
            None => {},
        }
        i = i + 1;
    }
    proof {
        assert(hv.take(hv.len() as int) =~= hv);
    }
    acc
}

/// Compute the "Canonical Request"
pub fn create_canonical_request(signed_headers: &[String], head: &RequestHead, body: &[u8]) -> (r: String)
    ensures
        is_canonical_request(crate::utils::filter::strings_view(signed_headers@), *head, body@, r@),
{
    let canonical_uri = aws_uri_encode(head.path.as_str(), false);
    let canonical_query = match &head.query {
        Some(q) => canonicalize_query(q.as_str()),
        None => String::new(),
    };
    let collected = collect_signed_headers(signed_headers, &head.headers);
    let sorted = stable_sort_by_key(collected);
    let ghost sv = pairs_view(sorted@);

    let mut canonical_headers = String::new();
    let mut names: Vec<String> = Vec::new();
    let mut i: usize = 0;
    while i < sorted.len()
        invariant
            i <= sorted@.len(),
            sv == pairs_view(sorted@),
            canonical_headers@ == headers_text(sv.take(i as int)),
            crate::utils::filter::strings_view(names@) == sv.take(i as int).map_values(|p: (Seq<char>, Seq<char>)| p.0),
        decreases sorted@.len() - i,
    {
        push_str(&mut canonical_headers, sorted[i].0.as_str());
        push_char(&mut canonical_headers, ':');
        push_str(&mut canonical_headers, sorted[i].1.as_str());
        push_char(&mut canonical_headers, '\n');
        let ghost names_before = crate::utils::filter::strings_view(names@);
        let name = sorted[i].0.clone();
        names.push(name);
        proof {
            assert(crate::utils::filter::strings_view(names@) =~= names_before.push(name@));
            let t = sv.take(i + 1);
            assert(t.drop_last() =~= sv.take(i as int));
            assert(t.last() == sv[i as int]);
            assert(crate::utils::filter::strings_view(names@) =~= sv.take(i + 1).map_values(
                |p: (Seq<char>, Seq<char>)| p.0,
            ));
        }
        i = i + 1;
    }
    let signed_text = crate::utils::string::join_iter_string(names.as_slice(), ";");
    let payload_hash = hash_hex(body);
    proof {
        assert(sv.take(sv.len() as int) =~= sv);
        assert(";"@ =~= seq![';']) by {
            reveal_strlit(";");
        }
    }

    let mut r = String::new();
    push_str(&mut r, head.method.as_str());
    push_char(&mut r, '\n');
    push_str(&mut r, canonical_uri.as_str());
    push_char(&mut r, '\n');
    push_str(&mut r, canonical_query.as_str());
    push_char(&mut r, '\n');
    push_str(&mut r, canonical_headers.as_str());
    push_char(&mut r, '\n');
    push_str(&mut r, signed_text.as_str());
    push_char(&mut r, '\n');
    push_str(&mut r, payload_hash.as_str());
    proof {
        assert(r@ =~= canonical_request_text(head.method@, head.path@, canonical_query@, sv, body@));
    }
    r
}

/// The key that signs a request: `AWS4` and the secret, then HMAC-SHA256
/// over the date, the region, the service and `aws4_request` in turn.
pub open spec fn signing_key(secret: Seq<char>, date: Seq<char>, region: Seq<char>, service: Seq<char>) -> Seq<u8> {
    let k_date = hmac_sha256_tag(utf8("AWS4"@ + secret), utf8(date));
    let k_region = hmac_sha256_tag(k_date, utf8(region));
    let k_service = hmac_sha256_tag(k_region, utf8(service));
    hmac_sha256_tag(k_service, utf8("aws4_request"@))
}

/// The string to sign: algorithm, request date, credential scope and the hex
/// SHA-256 of the canonical request, one per line.
pub open spec fn string_to_sign(
    amz_date: Seq<char>,
    date: Seq<char>,
    region: Seq<char>,
    service: Seq<char>,
    canonical_request: Seq<char>,
) -> Seq<char> {
    "AWS4-HMAC-SHA256"@ + seq!['\n'] + amz_date + seq!['\n'] + date + seq!['/'] + region + seq![
        '/',
    ] + service + "/aws4_request"@ + seq!['\n'] + hex_text(sha256_digest(utf8(canonical_request)))
}

/// The hex HMAC-SHA256 of the string to sign under the signing key.
pub open spec fn spec_signature(
    date: Seq<char>,
    amz_date: Seq<char>,
    region: Seq<char>,
    service: Seq<char>,
    canonical_request: Seq<char>,
    secret: Seq<char>,
) -> Seq<char> {
    hex_text(
        hmac_sha256_tag(
            signing_key(secret, date, region, service),
            utf8(string_to_sign(amz_date, date, region, service, canonical_request)),
        ),
    )
}

/// Create a AWS Sigv4 signature
pub fn aws_sig_v4(
    date_yyyymmdd: &str,
    amz_date: &str,
    region: &str,
    service: &str,
    canonical_request: &str,
    access_key_secret: &str,
) -> (signature: String)
    ensures
        signature@ == spec_signature(
            date_yyyymmdd@,
            amz_date@,
            region@,
            service@,
            canonical_request@,
            access_key_secret@,
        ),
{
    let mut k_secret = String::new();
    push_str(&mut k_secret, "AWS4");
    push_str(&mut k_secret, access_key_secret);
    let k_date = hmac_sha256(k_secret.as_str().as_bytes(), date_yyyymmdd.as_bytes());
    let k_region = hmac_sha256(k_date.as_slice(), region.as_bytes());
    let k_service = hmac_sha256(k_region.as_slice(), service.as_bytes());
    let k_signing = hmac_sha256(k_service.as_slice(), "aws4_request".as_bytes());

    let hashed_canonical_request = hash_hex(canonical_request.as_bytes());

    let mut string_to_sign_text = String::new();
    push_str(&mut string_to_sign_text, "AWS4-HMAC-SHA256");
    push_char(&mut string_to_sign_text, '\n');
    push_str(&mut string_to_sign_text, amz_date);
    push_char(&mut string_to_sign_text, '\n');
    push_str(&mut string_to_sign_text, date_yyyymmdd);
    push_char(&mut string_to_sign_text, '/');
    push_str(&mut string_to_sign_text, region);
    push_char(&mut string_to_sign_text, '/');
    push_str(&mut string_to_sign_text, service);
    push_str(&mut string_to_sign_text, "/aws4_request");
    push_char(&mut string_to_sign_text, '\n');
    push_str(&mut string_to_sign_text, hashed_canonical_request.as_str());
    proof {
        assert(string_to_sign_text@ =~= string_to_sign(
            amz_date@,
            date_yyyymmdd@,
            region@,
            service@,
            canonical_request@,
        ));
    }
    let tag = hmac_sha256(k_signing.as_slice(), string_to_sign_text.as_str().as_bytes());
    hex_encode(tag.as_slice())
}

} // verus!
