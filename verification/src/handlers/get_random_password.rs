use rand::seq::{IndexedRandom, SliceRandom};
use vstd::prelude::*;

use crate::utils::text::{chars_of, string_from_chars};

verus! {

broadcast use vstd::seq_lib::group_seq_properties;

// https://docs.aws.amazon.com/secretsmanager/latest/apireference/API_GetRandomPassword.html
pub struct GetRandomPasswordHandler;

pub struct GetRandomPasswordRequest {
    pub exclude_characters: Option<String>,
    pub exclude_lowercase: Option<bool>,
    pub exclude_numbers: Option<bool>,
    pub exclude_punctuation: Option<bool>,
    pub exclude_uppercase: Option<bool>,
    pub include_space: Option<bool>,
    pub password_length: Option<i64>,
    pub require_each_included_type: Option<bool>,
}

pub struct GetRandomPasswordResponse {
    pub random_password: String,
}

pub const LOWERCASE: &'static str = "abcdefghijklmnopqrstuvwxyz";

pub const UPPERCASE: &'static str = "ABCDEFGHIJKLMNOPQRSTUVWXYZ";

pub const NUMBERS: &'static str = "0123456789";

pub const PUNCTUATION: &'static str = "!\"#$%&'()*+,-./:;<=>?@[\\]^_`{|}~";

/// What a password is made of.
pub struct PasswordOptions {
    pub exclude_characters: String,
    pub exclude_lowercase: bool,
    pub exclude_numbers: bool,
    pub exclude_punctuation: bool,
    pub exclude_uppercase: bool,
    pub include_space: bool,
    pub password_length: usize,
    pub require_each_included_type: bool,
}

#[derive(PartialEq, Eq, Structural, Clone, Copy, Debug)]
pub enum RandomPasswordError {
    /// All of the possible characters are excluded
    EmptyCharSet,
    /// One of the required type sets has been completely excluded by
    /// the user provided exclude_characters
    EmptyTypeSet,
    /// The `require_each_included_type` option was provided but the
    /// requested length is too short to fit one of each
    InvalidLength,
}

/// The characters of `set` that are not in `excluded`, in order.
pub open spec fn allowed_of(set: Seq<char>, excluded: Seq<char>) -> Seq<char> {
    set.filter(|c: char| !excluded.contains(c))
}

/// The character sets of the included types, each without the excluded
/// characters: lowercase, uppercase, numbers and punctuation, in this order.
pub open spec fn type_sets(opts: PasswordOptions) -> Seq<Seq<char>> {
    let ex = opts.exclude_characters@;
    let l = if opts.exclude_lowercase { Seq::empty() } else { seq![allowed_of(LOWERCASE@, ex)] };
    let u = if opts.exclude_uppercase { Seq::empty() } else { seq![allowed_of(UPPERCASE@, ex)] };
    let n = if opts.exclude_numbers { Seq::empty() } else { seq![allowed_of(NUMBERS@, ex)] };
    let p = if opts.exclude_punctuation { Seq::empty() } else { seq![allowed_of(PUNCTUATION@, ex)] };
    l + u + n + p
}

/// Every character a password may hold: those of the type sets and, when
/// asked for and not excluded, the space.
pub open spec fn allowed_chars(opts: PasswordOptions) -> Seq<char> {
    type_sets(opts).flatten() + (if opts.include_space && !opts.exclude_characters@.contains(' ') {
        seq![' ']
    } else {
        Seq::empty()
    })
}

/// Which error, if any, a password with these options meets.
pub open spec fn password_error(opts: PasswordOptions) -> Option<RandomPasswordError> {
    if allowed_chars(opts).len() == 0 {
        Some(RandomPasswordError::EmptyCharSet)
    } else if opts.require_each_included_type && opts.password_length < type_sets(opts).len() {
        Some(RandomPasswordError::InvalidLength)
    } else if opts.require_each_included_type && exists|i: int|
        0 <= i < type_sets(opts).len() && #[trigger] type_sets(opts)[i].len() == 0 {
        Some(RandomPasswordError::EmptyTypeSet)
    } else {
        None
    }
}

/// Some character of `pw` belongs to `set`.
pub open spec fn holds_char_of(pw: Seq<char>, set: Seq<char>) -> bool {
    exists|i: int| 0 <= i < pw.len() && set.contains(#[trigger] pw[i])
}

/// A password that fits the options: of the requested length, made of allowed
/// characters only and, when required, holding a character of each type set.
pub open spec fn password_fits(opts: PasswordOptions, pw: Seq<char>) -> bool {
    &&& pw.len() == opts.password_length
    &&& forall|i: int| 0 <= i < pw.len() ==> allowed_chars(opts).contains(#[trigger] pw[i])
    &&& opts.require_each_included_type ==> forall|k: int|
        0 <= k < type_sets(opts).len() ==> holds_char_of(pw, #[trigger] type_sets(opts)[k])
}

/// `IndexedRandom::choose`: a random element, `None` for an empty slice.
/// Which element comes back is random; only that it belongs to the slice is stated.
#[verifier::external_body]
fn choose_char(set: &[char]) -> (r: Option<char>)
    ensures
        r is None <==> set@.len() == 0,
        r matches Some(c) ==> set@.contains(c),
{
    set.choose(&mut rand::rng()).copied()
}

/// `SliceRandom::shuffle`: the same characters in a random order.
#[verifier::external_body]
fn shuffle_chars(v: &mut Vec<char>)
    ensures
        final(v)@.to_multiset() == old(v)@.to_multiset(),
        final(v)@.len() == old(v)@.len(),
{
    v.shuffle(&mut rand::rng());
}

/// The characters of `set` not in `excluded`.
fn filter_allowed(set: &str, excluded: &Vec<char>) -> (r: Vec<char>)
    ensures
        r@ == allowed_of(set@, excluded@),
{
    let cs = chars_of(set);
    let mut r: Vec<char> = Vec::new();
    let mut i: usize = 0;
    while i < cs.len()
        invariant
            i <= cs@.len(),
            cs@ == set@,
            r@ == allowed_of(cs@.take(i as int), excluded@),
        decreases cs@.len() - i,
    {
        let c = cs[i];
        let mut found = false;
        let mut j: usize = 0;
        while j < excluded.len()
            invariant
                j <= excluded@.len(),
                found == exists|k: int| 0 <= k < j && excluded@[k] == c,
            decreases excluded@.len() - j,
        {
            if excluded[j] == c {
                found = true;
            }
            j = j + 1;
        }
        proof {
            assert(cs@.take(i + 1) =~= cs@.take(i as int).push(c));
            cs@.take(i as int).lemma_filter_push(c, |c: char| !excluded@.contains(c));
        }
        if !found {
            r.push(c);
        }
        i = i + 1;
    }
    proof {
        assert(cs@.take(cs@.len() as int) =~= cs@);
    }
    r
}

fn contains_char(cs: &Vec<char>, c: char) -> (r: bool)
    ensures
        r == cs@.contains(c),
{
    let mut j: usize = 0;
    while j < cs.len()
        invariant
            j <= cs@.len(),
            forall|k: int| 0 <= k < j ==> cs@[k] != c,
        decreases cs@.len() - j,
    {
        if cs[j] == c {
            return true;
        }
        j = j + 1;
    }
    false
}

/// Generate a random password from the provided options
pub fn get_random_password(opts: PasswordOptions) -> (r: Result<String, RandomPasswordError>)
    ensures
        match r {
            Ok(pw) => password_error(opts) is None && password_fits(opts, pw@),
            Err(e) => password_error(opts) == Some(e),
        },
{
    let excluded = chars_of(opts.exclude_characters.as_str());
    let ghost ts = type_sets(opts);
    let mut type_sets_v: Vec<Vec<char>> = Vec::new();
    if !opts.exclude_lowercase {
        type_sets_v.push(filter_allowed(LOWERCASE, &excluded));
    }
    if !opts.exclude_uppercase {
        type_sets_v.push(filter_allowed(UPPERCASE, &excluded));
    }
    if !opts.exclude_numbers {
        type_sets_v.push(filter_allowed(NUMBERS, &excluded));
    }
    if !opts.exclude_punctuation {
        type_sets_v.push(filter_allowed(PUNCTUATION, &excluded));
    }
    proof {
        assert(type_sets_v@.map_values(|s: Vec<char>| s@) =~= ts);
    }
    let mut allowed: Vec<char> = Vec::new();
    let mut k: usize = 0;
    while k < type_sets_v.len()
        invariant
            k <= type_sets_v@.len(),
            ts == type_sets_v@.map_values(|s: Vec<char>| s@),
            allowed@ == ts.take(k as int).flatten(),
        decreases type_sets_v@.len() - k,
    {
        let mut j: usize = 0;
        let ghost before = allowed@;
        while j < type_sets_v[k].len()
            invariant
                k < type_sets_v@.len(),
                j <= type_sets_v@[k as int]@.len(),
                allowed@ == before + type_sets_v@[k as int]@.take(j as int),
            decreases type_sets_v@[k as int]@.len() - j,
        {
            allowed.push(type_sets_v[k][j]);
            proof {
                assert(type_sets_v@[k as int]@.take(j + 1) =~= type_sets_v@[k as int]@.take(j as int).push(
                    type_sets_v@[k as int]@[j as int],
                ));
            }
            j = j + 1;
        }
        proof {
            assert(type_sets_v@[k as int]@.take(j as int) =~= type_sets_v@[k as int]@);
            assert(ts.take(k + 1) =~= ts.take(k as int).push(ts[k as int]));
            ts.take(k as int).lemma_flatten_push(ts[k as int]);
        }
        k = k + 1;
    }
    proof {
        assert(ts.take(ts.len() as int) =~= ts);
    }
    if opts.include_space && !contains_char(&excluded, ' ') {
        allowed.push(' ');
    }
    proof {
        assert(allowed@ =~= allowed_chars(opts));
    }

    if allowed.len() == 0 {
        return Err(RandomPasswordError::EmptyCharSet);
    }

    let length = opts.password_length;

    if opts.require_each_included_type {
        if length < type_sets_v.len() {
            return Err(RandomPasswordError::InvalidLength);
        }
        let mut password_chars: Vec<char> = Vec::new();
        // Include one random item from each type set
        let mut t: usize = 0;
        while t < type_sets_v.len()
            invariant
                t <= type_sets_v@.len(),
                ts == type_sets_v@.map_values(|s: Vec<char>| s@),
                password_chars@.len() == t,
                allowed@ == allowed_chars(opts),
                allowed@.len() > 0,
                ts == type_sets(opts),
                opts.require_each_included_type,
                length == opts.password_length,
                length >= ts.len(),
                forall|q: int| 0 <= q < t ==> #[trigger] ts[q].len() > 0,
                forall|q: int| 0 <= q < t ==> ts[q].contains(#[trigger] password_chars@[q]),
            decreases type_sets_v@.len() - t,
        {
            let c = match choose_char(type_sets_v[t].as_slice()) {
                Some(c) => c,
                None => {
                    proof {
                        assert(ts[t as int].len() == 0);
                    }
                    return Err(RandomPasswordError::EmptyTypeSet);
                },
            };
            password_chars.push(c);
            t = t + 1;
        }
        proof {
            assert forall|q: int| 0 <= q < ts.len() implies allowed_chars(opts).contains(
                #[trigger] password_chars@[q],
            ) by {
                let c = password_chars@[q];
                let w = choose|w: int| 0 <= w < ts[q].len() && ts[q][w] == c;
                ts.lemma_flatten_length_ge_single_element_length(q);
                lemma_flatten_index(ts, q, w);
            }
        }
        // Fill the rest from allowed characters
        while password_chars.len() < length
            invariant
                ts.len() <= password_chars@.len() <= length,
                ts == type_sets(opts),
                opts.require_each_included_type,
                length == opts.password_length,
                forall|q: int| 0 <= q < ts.len() ==> #[trigger] ts[q].len() > 0,
                allowed@ == allowed_chars(opts),
                allowed@.len() > 0,
                forall|q: int| 0 <= q < ts.len() ==> ts[q].contains(#[trigger] password_chars@[q]),
                forall|q: int| 0 <= q < password_chars@.len() ==> allowed_chars(opts).contains(#[trigger] password_chars@[q]),
            decreases length - password_chars@.len(),
        {
            let c = match choose_char(allowed.as_slice()) {
                Some(c) => c,
                None => {
                    return Err(RandomPasswordError::EmptyCharSet);
                },
            };
            password_chars.push(c);
        }
        let ghost before_shuffle = password_chars@;
        // Shuffle so the required characters are not all at the front
        shuffle_chars(&mut password_chars);
        proof {
            let after = password_chars@;
            assert forall|i: int| 0 <= i < after.len() implies allowed_chars(opts).contains(#[trigger] after[i]) by {
                let j = lemma_multiset_member(after, before_shuffle, i);
                assert(allowed_chars(opts).contains(before_shuffle[j]));
            }
            assert forall|k: int| 0 <= k < type_sets(opts).len() implies holds_char_of(password_chars@, #[trigger] type_sets(opts)[k]) by {
                let i = lemma_multiset_member(before_shuffle, after, k);
                assert(ts[k].contains(before_shuffle[k]));
                assert(type_sets(opts)[k].contains(password_chars@[i]));
            }
            assert(!(exists|i: int| 0 <= i < ts.len() && #[trigger] ts[i].len() == 0));
        }
        Ok(string_from_chars(password_chars.as_slice()))
    } else {
        let mut password: Vec<char> = Vec::new();
        // Fill from allowed characters
        while password.len() < length
            invariant
                password@.len() <= length,
                length == opts.password_length,
                !opts.require_each_included_type,
                allowed@ == allowed_chars(opts),
                allowed@.len() > 0,
                forall|q: int| 0 <= q < password@.len() ==> allowed_chars(opts).contains(#[trigger] password@[q]),
            decreases length - password@.len(),
        {
            let c = match choose_char(allowed.as_slice()) {
                Some(c) => c,
                None => {
                    return Err(RandomPasswordError::EmptyCharSet);
                },
            };
            password.push(c);
        }
        proof {
            assert(password_error(opts) is None);
            assert(password_fits(opts, password@));
        }
        Ok(string_from_chars(password.as_slice()))
    }
}

/// An element of one piece is an element of the flattened sequence.
proof fn lemma_flatten_index(s: Seq<Seq<char>>, q: int, w: int)
    requires
        0 <= q < s.len(),
        0 <= w < s[q].len(),
    ensures
        s.flatten().contains(s[q][w]),
    decreases s.len(),
{
    if q == s.len() - 1 {
        s.drop_last().lemma_flatten_push(s.last());
        assert(s.drop_last().push(s.last()) =~= s);
        assert((s.drop_last().flatten() + s.last())[s.drop_last().flatten().len() + w] == s[q][w]);
    } else {
        lemma_flatten_index(s.drop_last(), q, w);
        s.drop_last().lemma_flatten_push(s.last());
        assert(s.drop_last().push(s.last()) =~= s);
        let i = choose|i: int| 0 <= i < s.drop_last().flatten().len() && s.drop_last().flatten()[i] == s[q][w];
        assert((s.drop_last().flatten() + s.last())[i] == s[q][w]);
    }
}

/// An element of `a` at `i` occurs in any `b` with the same multiset.
proof fn lemma_multiset_member(a: Seq<char>, b: Seq<char>, i: int) -> (j: int)
    requires
        a.to_multiset() == b.to_multiset(),
        0 <= i < a.len(),
    ensures
        0 <= j < b.len(),
        b[j] == a[i],
{
    a.to_multiset_ensures();
    b.to_multiset_ensures();
    assert(a.contains(a[i]));
    assert(b.to_multiset().count(a[i]) > 0);
    assert(b.contains(a[i]));
    choose|j: int| 0 <= j < b.len() && b[j] == a[i]
}

} // verus!

verus! {

/// The characters a request excludes.
pub open spec fn request_excluded(request: GetRandomPasswordRequest) -> Seq<char> {
    match request.exclude_characters {
        Some(s) => s@,
        None => Seq::empty(),
    }
}

/// The password options a request asks for: nothing excluded, no space,
/// 32 characters and no type required unless the request says otherwise.
pub open spec fn options_match(opts: PasswordOptions, request: GetRandomPasswordRequest) -> bool {
    &&& opts.exclude_characters@ == request_excluded(request)
    &&& opts.exclude_lowercase == (request.exclude_lowercase == Some(true))
    &&& opts.exclude_numbers == (request.exclude_numbers == Some(true))
    &&& opts.exclude_punctuation == (request.exclude_punctuation == Some(true))
    &&& opts.exclude_uppercase == (request.exclude_uppercase == Some(true))
    &&& opts.include_space == (request.include_space == Some(true))
    &&& opts.password_length == match request.password_length {
        Some(n) => n as usize,
        None => 32usize,
    }
    &&& opts.require_each_included_type == (request.require_each_included_type == Some(true))
}

impl GetRandomPasswordHandler {
    /// Generates a password for the request; options that no password can
    /// meet are an invalid request.
    pub fn handle(request: GetRandomPasswordRequest) -> (r: Result<GetRandomPasswordResponse, crate::handlers::error::AwsErrorKind>)
        requires
            request.password_length matches Some(n) ==> n >= 0,
        ensures
            exists|opts: PasswordOptions|
                {
                    &&& options_match(opts, request)
                    &&& match r {
                        Ok(resp) => password_error(opts) is None && password_fits(opts, resp.random_password@),
                        Err(e) => password_error(opts) is Some && e == crate::handlers::error::AwsErrorKind::InvalidRequestException,
                    }
                },
    {
        let exclude_characters = match request.exclude_characters {
            Some(s) => s,
            None => String::new(),
        };
        let password_length: usize = match request.password_length {
            Some(n) => n as usize,
            None => 32,
        };
        let opts = PasswordOptions {
            exclude_characters,
            exclude_lowercase: request.exclude_lowercase == Some(true),
            exclude_numbers: request.exclude_numbers == Some(true),
            exclude_punctuation: request.exclude_punctuation == Some(true),
            exclude_uppercase: request.exclude_uppercase == Some(true),
            include_space: request.include_space == Some(true),
            password_length,
            require_each_included_type: request.require_each_included_type == Some(true),
        };
        let ghost o = opts;
        proof {
            assert(options_match(o, request));
        }
        match get_random_password(opts) {
            Ok(random_password) => Ok(GetRandomPasswordResponse { random_password }),
            Err(_) => Err(crate::handlers::error::AwsErrorKind::InvalidRequestException),
        }
    }
}

} // verus!
