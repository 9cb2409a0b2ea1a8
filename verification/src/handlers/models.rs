use vstd::prelude::*;

use crate::utils::number::{i64_chars, int_text, parse_i64, spec_parse_i64, lemma_int_text_chars, lemma_parse_int_text, is_ascii_digit};
use crate::utils::text::{byte_len, chars_of, push_char, push_chars, str_eq, utf8_len};

verus! {

/// An ASCII letter or digit (`char::is_ascii_alphanumeric`).
pub open spec fn is_ascii_alphanumeric(c: char) -> bool {
    ('a' <= c <= 'z') || ('A' <= c <= 'Z') || ('0' <= c <= '9')
}

pub fn ascii_alphanumeric(c: char) -> (r: bool)
    ensures
        r == is_ascii_alphanumeric(c),
{
    ('a' <= c && c <= 'z') || ('A' <= c && c <= 'Z') || ('0' <= c && c <= '9')
}

/// The number of UTF-8 bytes of `s` lies in `min..=max`.
pub open spec fn length_within(s: Seq<char>, min: int, max: int) -> bool {
    min <= utf8_len(s) <= max
}

pub fn check_length(s: &String, min: usize, max: usize) -> (r: bool)
    ensures
        r == length_within(s@, min as int, max as int),
{
    let n = byte_len(s);
    min <= n && n <= max
}

/// A character allowed in a secret name: ASCII letters and digits and `/_+=.@-`.
pub open spec fn is_secret_name_char(c: char) -> bool {
    is_ascii_alphanumeric(c) || c == '/' || c == '_' || c == '+' || c == '=' || c == '.' || c
        == '@' || c == '-'
}

/// A character allowed in a filter value: ASCII letters and digits and ` :_@/+=.-!`.
pub open spec fn is_filter_value_char(c: char) -> bool {
    is_ascii_alphanumeric(c) || c == ' ' || c == ':' || c == '_' || c == '@' || c == '/' || c
        == '+' || c == '=' || c == '.' || c == '-' || c == '!'
}

/// Secret names are made of the allowed characters only.
pub open spec fn spec_valid_secret_name_chars(s: Seq<char>) -> bool {
    forall|i: int| 0 <= i < s.len() ==> is_secret_name_char(#[trigger] s[i])
}

/// A filter value without its optional leading `!`.
pub open spec fn filter_value_body(s: Seq<char>) -> Seq<char> {
    if s.len() > 0 && s[0] == '!' {
        s.drop_first()
    } else {
        s
    }
}

/// A filter value: an optional leading `!`, then allowed characters only.
pub open spec fn spec_valid_filter_value_chars(s: Seq<char>) -> bool {
    forall|i: int|
        0 <= i < filter_value_body(s).len() ==> is_filter_value_char(
            #[trigger] filter_value_body(s)[i],
        )
}

/// The keys a filter may use.
pub open spec fn spec_valid_filter_key(s: Seq<char>) -> bool {
    ||| s == "description"@
    ||| s == "name"@
    ||| s == "tag-key"@
    ||| s == "tag-value"@
    ||| s == "primary-region"@
    ||| s == "owning-service"@
    ||| s == "all"@
}

/// Checks if the provided value is a valid secret name
pub fn is_valid_secret_name(value: &str) -> (r: bool)
    ensures
        r == spec_valid_secret_name_chars(value@),
{
    let cs = chars_of(value);
    let mut i: usize = 0;
    while i < cs.len()
        invariant
            cs@ == value@,
            i <= cs@.len(),
            forall|j: int| 0 <= j < i ==> is_secret_name_char(#[trigger] cs@[j]),
        decreases cs@.len() - i,
    {
        let c = cs[i];
        if !(ascii_alphanumeric(c) || c == '/' || c == '_' || c == '+' || c == '=' || c == '.' || c
            == '@' || c == '-') {
            return false;
        }
        i = i + 1;
    }
    true
}

/// Checks if the provided value is a valid filter key
pub fn is_valid_filter_key(value: &str) -> (r: bool)
    ensures
        r == spec_valid_filter_key(value@),
{
    str_eq(value, "description") || str_eq(value, "name") || str_eq(value, "tag-key") || str_eq(
        value,
        "tag-value",
    ) || str_eq(value, "primary-region") || str_eq(value, "owning-service") || str_eq(
        value,
        "all",
    )
}

/// Checks if the provided value is a valid filter value
pub fn is_valid_filter_value(value: &str) -> (r: bool)
    ensures
        r == spec_valid_filter_value_chars(value@),
{
    let cs = chars_of(value);
    let start: usize = if cs.len() > 0 && cs[0] == '!' {
        1
    } else {
        0
    };
    let ghost rest = filter_value_body(value@);
    let mut i: usize = start;
    while i < cs.len()
        invariant
            cs@ == value@,
            start <= i <= cs@.len(),
            start == 0 || start == 1,
            rest == cs@.subrange(start as int, cs@.len() as int),
            rest == filter_value_body(value@),
            start == (if value@.len() > 0 && value@[0] == '!' { 1usize } else { 0usize }),
            forall|j: int| 0 <= j < i - start ==> is_filter_value_char(#[trigger] rest[j]),
        decreases cs@.len() - i,
    {
        let c = cs[i];
        proof {
            assert(rest[i - start] == c);
        }
        if !(ascii_alphanumeric(c) || c == ' ' || c == ':' || c == '_' || c == '@' || c == '/' || c
            == '+' || c == '=' || c == '.' || c == '-' || c == '!') {
            proof {
                assert(!is_filter_value_char(rest[i - start]));
            }
            return false;
        }
        i = i + 1;
    }
    true
}

/// The name of a secret.
pub struct SecretName(pub String);

impl SecretName {
    /// 1 to 512 bytes of the allowed characters.
    pub open spec fn spec_valid(&self) -> bool {
        length_within(self.0@, 1, 512) && spec_valid_secret_name_chars(self.0@)
    }

    pub fn validate(&self) -> (r: bool)
        ensures
            r == self.spec_valid(),
    {
        check_length(&self.0, 1, 512) && is_valid_secret_name(self.0.as_str())
    }

    pub fn into_inner(self) -> (s: String)
        ensures
            s == self.0,
    {
        self.0
    }
}

/// The shape of `Uuid::to_string()`: 36 lowercase hexadecimal digits and hyphens.
pub open spec fn is_hyphenated_uuid_text(s: Seq<char>) -> bool {
    &&& s.len() == 36
    &&& forall|i: int|
        0 <= i < s.len() ==> #[trigger] s[i] == '-' || ('0' <= s[i] <= '9') || ('a' <= s[i]
            <= 'f')
}

/// `Uuid::new_v4().to_string()`: a random version 4 UUID in hyphenated form.
/// The value is random; only the shape of its text is stated.
#[verifier::external_body]
pub(crate) fn new_uuid_text() -> (s: String)
    ensures
        is_hyphenated_uuid_text(s@),
{
    uuid::Uuid::new_v4().to_string()
}

/// An idempotency token that names the version a request creates.
pub struct ClientRequestToken(pub String);

impl ClientRequestToken {
    /// 32 to 64 bytes.
    pub open spec fn spec_valid(&self) -> bool {
        length_within(self.0@, 32, 64)
    }

    pub fn validate(&self) -> (r: bool)
        ensures
            r == self.spec_valid(),
    {
        check_length(&self.0, 32, 64)
    }

    pub fn into_inner(self) -> (s: String)
        ensures
            s == self.0,
    {
        self.0
    }
}

impl Default for ClientRequestToken {
    /// A fresh random UUID, which is a valid token.
    fn default() -> (t: Self)
        ensures
            is_hyphenated_uuid_text(t.0@),
            t.spec_valid(),
    {
        let s = new_uuid_text();
        proof {
            assert(vstd::utf8::is_ascii_chars(s@));
            vstd::utf8::is_ascii_chars_encode_utf8(s@);
        }
        ClientRequestToken(s)
    }
}

/// The name or ARN of a secret.
pub struct SecretId(pub String);

impl SecretId {
    /// 1 to 2048 bytes.
    pub open spec fn spec_valid(&self) -> bool {
        length_within(self.0@, 1, 2048)
    }

    pub fn validate(&self) -> (r: bool)
        ensures
            r == self.spec_valid(),
    {
        check_length(&self.0, 1, 2048)
    }

    pub fn into_inner(self) -> (s: String)
        ensures
            s == self.0,
    {
        self.0
    }
}

/// The identifier of a secret version.
pub struct VersionId(pub String);

impl VersionId {
    /// 32 to 64 bytes.
    pub open spec fn spec_valid(&self) -> bool {
        length_within(self.0@, 32, 64)
    }

    pub fn validate(&self) -> (r: bool)
        ensures
            r == self.spec_valid(),
    {
        check_length(&self.0, 32, 64)
    }

    pub fn into_inner(self) -> (s: String)
        ensures
            s == self.0,
    {
        self.0
    }
}

/// A secret value given as text.
pub struct SecretString(pub String);

impl SecretString {
    /// 1 to 65536 bytes.
    pub open spec fn spec_valid(&self) -> bool {
        length_within(self.0@, 1, 65536)
    }

    pub fn validate(&self) -> (r: bool)
        ensures
            r == self.spec_valid(),
    {
        check_length(&self.0, 1, 65536)
    }

    pub fn into_inner(self) -> (s: String)
        ensures
            s == self.0,
    {
        self.0
    }
}

/// A secret value given as base64 encoded binary.
pub struct SecretBinary(pub String);

impl SecretBinary {
    /// 1 to 65536 bytes of its text.
    pub open spec fn spec_valid(&self) -> bool {
        length_within(self.0@, 1, 65536)
    }

    pub fn validate(&self) -> (r: bool)
        ensures
            r == self.spec_valid(),
    {
        check_length(&self.0, 1, 65536)
    }

    pub fn into_inner(self) -> (s: String)
        ensures
            s == self.0,
    {
        self.0
    }
}

/// A key and value attached to a secret.
pub struct Tag {
    pub key: String,
    pub value: String,
}

impl Tag {
    /// A key of 1 to 128 bytes and a value of 1 to 256 bytes.
    pub open spec fn spec_valid(&self) -> bool {
        length_within(self.key@, 1, 128) && length_within(self.value@, 1, 256)
    }

    pub fn validate(&self) -> (r: bool)
        ensures
            r == self.spec_valid(),
    {
        check_length(&self.key, 1, 128) && check_length(&self.value, 1, 256)
    }
}

/// Every tag of the list is valid.
pub open spec fn tags_valid(tags: Seq<Tag>) -> bool {
    forall|i: int| 0 <= i < tags.len() ==> (#[trigger] tags[i]).spec_valid()
}

pub fn validate_tags(tags: &Vec<Tag>) -> (r: bool)
    ensures
        r == tags_valid(tags@),
{
    let mut i: usize = 0;
    while i < tags.len()
        invariant
            i <= tags@.len(),
            forall|j: int| 0 <= j < i ==> (#[trigger] tags@[j]).spec_valid(),
        decreases tags@.len() - i,
    {
        if !tags[i].validate() {
            return false;
        }
        i = i + 1;
    }
    true
}

/// A search filter of the listing requests.
pub struct Filter {
    pub key: String,
    pub values: Vec<String>,
}

/// Two lists of filters with the same keys and values, in the same order.
pub open spec fn same_filters(a: Seq<Filter>, b: Seq<Filter>) -> bool {
    &&& a.len() == b.len()
    &&& forall|i: int| 0 <= i < a.len() ==> (#[trigger] a[i]).key == b[i].key && a[i].values@ == b[i].values@
}

/// A copy of a list of filters.
pub fn clone_filters(fs: &Vec<Filter>) -> (r: Vec<Filter>)
    ensures
        same_filters(r@, fs@),
{
    let mut r: Vec<Filter> = Vec::new();
    let mut i: usize = 0;
    while i < fs.len()
        invariant
            i <= fs@.len(),
            r@.len() == i,
            forall|j: int| 0 <= j < i ==> (#[trigger] r@[j]).key == fs@[j].key && r@[j].values@ == fs@[j].values@,
        decreases fs@.len() - i,
    {
        let values = fs[i].values.clone();
        proof {
            assert(values@ =~= fs@[i as int].values@);
        }
        r.push(Filter { key: fs[i].key.clone(), values });
        i = i + 1;
    }
    r
}

/// One filter value: allowed characters and 1 to 512 bytes.
pub open spec fn filter_value_valid(v: Seq<char>) -> bool {
    spec_valid_filter_value_chars(v) && length_within(v, 1, 512)
}

impl Filter {
    /// A known key and 1 to 10 valid values.
    pub open spec fn spec_valid(&self) -> bool {
        &&& spec_valid_filter_key(self.key@)
        &&& 1 <= self.values@.len() <= 10
        &&& forall|i: int| 0 <= i < self.values@.len() ==> filter_value_valid(#[trigger] self.values@[i]@)
    }

    pub fn validate(&self) -> (r: bool)
        ensures
            r == self.spec_valid(),
    {
        if !is_valid_filter_key(self.key.as_str()) {
            return false;
        }
        if self.values.len() < 1 || self.values.len() > 10 {
            return false;
        }
        let mut i: usize = 0;
        while i < self.values.len()
            invariant
                i <= self.values@.len(),
                forall|j: int| 0 <= j < i ==> filter_value_valid(#[trigger] self.values@[j]@),
            decreases self.values@.len() - i,
        {
            let v = &self.values[i];
            if !(is_valid_filter_value(v.as_str()) && check_length(v, 1, 512)) {
                return false;
            }
            i = i + 1;
        }
        true
    }
}

/// Every filter of the list is valid.
pub open spec fn filters_valid(filters: Seq<Filter>) -> bool {
    forall|i: int| 0 <= i < filters.len() ==> (#[trigger] filters[i]).spec_valid()
}

pub fn validate_filters(filters: &Vec<Filter>) -> (r: bool)
    ensures
        r == filters_valid(filters@),
{
    let mut i: usize = 0;
    while i < filters.len()
        invariant
            i <= filters@.len(),
            forall|j: int| 0 <= j < i ==> (#[trigger] filters@[j]).spec_valid(),
        decreases filters@.len() - i,
    {
        if !filters[i].validate() {
            return false;
        }
        i = i + 1;
    }
    true
}

/// The text of a pagination token: `"{page_size}:{page_index}"`.
pub open spec fn token_text(page_size: int, page_index: int) -> Seq<char> {
    int_text(page_size) + seq![':'] + int_text(page_index)
}

/// `i` is the position of the first `:` of `s`.
pub open spec fn is_first_colon(s: Seq<char>, i: int) -> bool {
    &&& 0 <= i < s.len()
    &&& s[i] == ':'
    &&& forall|j: int| 0 <= j < i ==> s[j] != ':'
}

/// What a pagination token parses to: the text is split at its first `:` and
/// both sides must be `i64` numbers.
pub open spec fn spec_parse_token(s: Seq<char>) -> Option<(int, int)> {
    if exists|i: int| is_first_colon(s, i) {
        let i = choose|i: int| is_first_colon(s, i);
        match (spec_parse_i64(s.take(i)), spec_parse_i64(s.skip(i + 1))) {
            (Some(a), Some(b)) => Some((a, b)),
            _ => None,
        }
    } else {
        None
    }
}

/// The token was not of the form `"{page_size}:{page_index}"`.
#[derive(Debug)]
pub struct InvalidPaginationToken;

/// The page after `t`, when its offset fits an `i64` and lies below `count`.
pub open spec fn spec_next_page(t: PaginationToken, count: i64) -> Option<PaginationToken> {
    let next = t.page_index + 1;
    if next <= i64::MAX && i64::MIN <= next * t.page_size <= i64::MAX && count > next * t.page_size {
        Some(PaginationToken { page_size: t.page_size, page_index: next as i64 })
    } else {
        None
    }
}

/// The page after a page starts where that page ends, and only when the
/// listing holds more than that: pages neither overlap nor skip items.
pub proof fn lemma_next_page_follows(t: PaginationToken, count: i64)
    requires
        spec_next_page(t, count) is Some,
    ensures
        spec_next_page(t, count)->0.page_size == t.page_size,
        spec_next_page(t, count)->0.page_index * t.page_size == t.page_index * t.page_size + t.page_size,
        t.page_index * t.page_size + t.page_size < count,
{
    let n = t.page_index + 1;
    assert(n * t.page_size == t.page_index * t.page_size + t.page_size) by (nonlinear_arith)
        requires
            n == t.page_index + 1,
    ;
}

/// A page of a listing: its size and its index, counted from zero.
#[derive(Clone, Copy, Debug)]
pub struct PaginationToken {
    /// Size of each page
    pub page_size: i64,
    /// Page index
    pub page_index: i64,
}

impl PaginationToken {
    /// Update the page size
    pub fn page_size(self, page_size: i64) -> (r: Self)
        ensures
            r.page_size == page_size,
            r.page_index == self.page_index,
    {
        let mut s = self;
        s.page_size = page_size;
        s
    }

    /// Compute the limit and offset to use for database queries: the limit is
    /// the page size and the offset `page_size * page_index`, when that fits an `i64`.
    pub fn as_query_parts(&self) -> (r: Option<(i64, i64)>)
        ensures
            r == (match self.page_size.checked_mul(self.page_index) {
                Some(offset) => Some((self.page_size, offset)),
                None => None,
            }),
    {
        let limit = self.page_size;
        let offset = self.page_size.checked_mul(self.page_index)?;
        Some((limit, offset))
    }

    /// Get the next page if one fits within the bounds of count
    pub fn get_next_page(&self, count: i64) -> (r: Option<PaginationToken>)
        ensures
            r == spec_next_page(*self, count),
            r matches Some(next) ==> {
                &&& next.page_size == self.page_size
                &&& next.page_index == self.page_index + 1
                &&& (self.page_index + 1) * self.page_size < count
            },
            r is None ==> {
                ||| self.page_index + 1 > i64::MAX
                ||| (self.page_index + 1) * self.page_size > i64::MAX
                ||| (self.page_index + 1) * self.page_size < i64::MIN
                ||| count <= (self.page_index + 1) * self.page_size
            },
    {
        let next_page = self.page_index.checked_add(1)?;
        let next_page_offset = next_page.checked_mul(self.page_size)?;

        if count <= next_page_offset {
            return None;
        }
        Some(PaginationToken { page_size: self.page_size, page_index: next_page })
    }

    /// The text of the token: `"{page_size}:{page_index}"`.
    pub fn to_string(&self) -> (s: String)
        ensures
            s@ == token_text(self.page_size as int, self.page_index as int),
    {
        let a = i64_chars(self.page_size);
        let b = i64_chars(self.page_index);
        let mut s = String::new();
        push_chars(&mut s, a.as_slice());
        push_char(&mut s, ':');
        push_chars(&mut s, b.as_slice());
        s
    }

    /// Parses `"{page_size}:{page_index}"`.
    pub fn from_str(s: &str) -> (r: Result<PaginationToken, InvalidPaginationToken>)
        ensures
            r matches Ok(t) ==> spec_parse_token(s@) == Some(
                (t.page_size as int, t.page_index as int),
            ),
            r is Err ==> spec_parse_token(s@) is None,
    {
        let cs = chars_of(s);
        let mut i: usize = 0;
        while i < cs.len() && cs[i] != ':'
            invariant
                cs@ == s@,
                i <= cs@.len(),
                forall|j: int| 0 <= j < i ==> cs@[j] != ':',
            decreases cs@.len() - i,
        {
            i = i + 1;
        }
        if i >= cs.len() {
            proof {
                assert(!exists|k: int| is_first_colon(s@, k));
            }
            return Err(InvalidPaginationToken);
        }
        proof {
            assert(is_first_colon(s@, i as int));
            let k = choose|k: int| is_first_colon(s@, k);
            assert(k == i) by {
                if k < i {
                    assert(s@[k] != ':');
                }
                if k > i {
                    assert(s@[i as int] == ':');
                }
            }
        }
        let (page_size, page_index) = match (parse_i64(&cs.as_slice()[0..i]), parse_i64(&cs.as_slice()[i + 1..cs.len()])) {
            (Some(a), Some(b)) => (a, b),
            _ => {
                return Err(InvalidPaginationToken);
            }
        };
        Ok(PaginationToken { page_size, page_index })
    }
}

/// A token printed by `to_string` parses back to the same page.
pub proof fn lemma_token_text_round_trip(t: PaginationToken)
    ensures
        spec_parse_token(token_text(t.page_size as int, t.page_index as int)) == Some(
            (t.page_size as int, t.page_index as int),
        ),
{
    let a = int_text(t.page_size as int);
    let b = int_text(t.page_index as int);
    let s = token_text(t.page_size as int, t.page_index as int);
    let n = a.len() as int;
    lemma_int_text_chars(t.page_size as int);
    assert(s[n] == ':');
    assert forall|j: int| 0 <= j < n implies s[j] != ':' by {
        assert(s[j] == a[j]);
        assert(a[j] == '-' || is_ascii_digit(a[j]));
    }
    assert(is_first_colon(s, n));
    let k = choose|k: int| is_first_colon(s, k);
    assert(k == n) by {
        if k > n {
            assert(s[n] == ':');
        }
    }
    assert(s.take(n) == a);
    assert(s.skip(n + 1) == b);
    lemma_parse_int_text(t.page_size as int);
    lemma_parse_int_text(t.page_index as int);
}

/// An error entry of a batch answer.
pub struct APIErrorType {
    pub error_code: Option<String>,
    pub message: Option<String>,
    pub secret_id: Option<String>,
}

} // verus!
