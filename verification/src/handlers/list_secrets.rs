use vstd::prelude::*;

use crate::database::secrets::{DbCall, DbQuery, DbReply, ListedSecret, SecretVersion, Step, StoredVersionTags, Timestamp};
use crate::handlers::error::AwsErrorKind;
use crate::handlers::list_secret_version_ids::next_token_text;
use crate::handlers::models::{clone_filters, filters_valid, same_filters, validate_filters, Filter, PaginationToken, Tag};
use crate::utils::text::{owned, str_eq};

verus! {

// https://docs.aws.amazon.com/secretsmanager/latest/apireference/API_ListSecrets.html
pub struct ListSecretsHandler;

pub struct ListSecretsRequest {
    pub filters: Vec<Filter>,
    pub include_planned_deletion: bool,
    pub max_results: i32,
    pub next_token: PaginationToken,
    pub sort_order: String,
}

pub struct ListSecretsResponse {
    pub next_token: Option<String>,
    pub secret_list: Vec<SecretListEntry>,
}

/// One secret of a listing. The service neither rotates secrets nor knows KMS
/// keys, regions or owning services, so those fields are always empty.
pub struct SecretListEntry {
    pub arn: String,
    pub created_date: Timestamp,
    pub deleted_date: Option<Timestamp>,
    pub description: Option<String>,
    pub kms_key_id: Option<String>,
    pub last_accessed_date: Option<Timestamp>,
    pub last_changed_date: Option<Timestamp>,
    pub last_rotated_date: Option<Timestamp>,
    pub name: String,
    pub next_rotation_date: Option<Timestamp>,
    pub owning_service: Option<String>,
    pub primary_region: Option<String>,
    pub rotation_enabled: bool,
    pub rotation_lambda_arn: Option<String>,
    /// Each version's id with its stages, in the order of the versions.
    pub secret_versions_to_stages: Vec<(String, Vec<String>)>,
    pub tags: Vec<Tag>,
}

/// Newest first, unless the request asks otherwise.
pub fn default_sort_order() -> (s: String)
    ensures
        s@ == "desc"@,
{
    owned("desc")
}

/// The number of secrets a page holds when the request names none.
pub fn default_max_results() -> (r: i32)
    ensures
        r == 100,
{
    100
}

/// The first page, of 100 secrets, when the request names none.
pub fn default_next_token() -> (t: PaginationToken)
    ensures
        t.page_size == 100,
        t.page_index == 0,
{
    PaginationToken { page_size: 100, page_index: 0 }
}

/// The sort orders a listing knows.
pub open spec fn is_valid_sort_order(s: Seq<char>) -> bool {
    s == "asc"@ || s == "desc"@
}

impl ListSecretsRequest {
    /// Valid filters, 1 to 100 results per page and a known sort order.
    pub open spec fn spec_valid(&self) -> bool {
        &&& filters_valid(self.filters@)
        &&& 1 <= self.max_results <= 100
        &&& is_valid_sort_order(self.sort_order@)
    }

    pub fn validate(&self) -> (r: bool)
        ensures
            r == self.spec_valid(),
    {
        if !validate_filters(&self.filters) {
            return false;
        }
        if !(1 <= self.max_results && self.max_results <= 100) {
            return false;
        }
        str_eq(self.sort_order.as_str(), "asc") || str_eq(self.sort_order.as_str(), "desc")
    }
}

/// `a` is no later than `b`.
pub open spec fn ts_le(a: Timestamp, b: Timestamp) -> bool {
    a.seconds < b.seconds || (a.seconds == b.seconds && a.millis <= b.millis)
}

/// The later of two instants.
pub fn later(a: Timestamp, b: Timestamp) -> (r: Timestamp)
    ensures
        ts_le(a, r) && ts_le(b, r),
        r == a || r == b,
{
    if a.seconds < b.seconds || (a.seconds == b.seconds && a.millis <= b.millis) {
        b
    } else {
        a
    }
}

/// The later of an optional instant and an instant.
fn later_opt(a: Option<Timestamp>, b: Timestamp) -> (r: Timestamp)
    ensures
        a matches Some(x) ==> ts_le(x, r),
        ts_le(b, r),
        r == b || a == Some(r),
{
    match a {
        Some(x) => later(x, b),
        None => b,
    }
}

/// The last time any version of the secret was read: the latest
/// `last_accessed_at` of its versions, none when no version was read.
pub open spec fn is_last_accessed(versions: Seq<SecretVersion>, t: Option<Timestamp>) -> bool {
    match t {
        None => forall|i: int| 0 <= i < versions.len() ==> (#[trigger] versions[i]).last_accessed_at is None,
        Some(m) => {
            &&& exists|i: int| 0 <= i < versions.len() && (#[trigger] versions[i]).last_accessed_at == Some(m)
            &&& forall|i: int|
                0 <= i < versions.len() ==> ((#[trigger] versions[i]).last_accessed_at matches Some(x) ==> ts_le(x, m))
        },
    }
}

/// One of the times at which the secret changed: the creation of a version,
/// the update of the secret, or the update of a tag.
pub open spec fn is_change_time(s: ListedSecret, x: Timestamp) -> bool {
    ||| exists|i: int| 0 <= i < s.versions@.len() && (#[trigger] s.versions@[i]).created_at == x
    ||| s.updated_at == Some(x)
    ||| exists|j: int| 0 <= j < s.version_tags@.len() && (#[trigger] s.version_tags@[j]).updated_at == Some(x)
}

/// The last time the secret changed: the latest of its change times, none
/// when there is none.
pub open spec fn is_last_changed(s: ListedSecret, t: Option<Timestamp>) -> bool {
    match t {
        None => {
            &&& s.versions@.len() == 0
            &&& s.updated_at is None
            &&& forall|j: int| 0 <= j < s.version_tags@.len() ==> (#[trigger] s.version_tags@[j]).updated_at is None
        },
        Some(m) => {
            &&& is_change_time(s, m)
            &&& forall|i: int| 0 <= i < s.versions@.len() ==> ts_le((#[trigger] s.versions@[i]).created_at, m)
            &&& (s.updated_at matches Some(u) ==> ts_le(u, m))
            &&& forall|j: int|
                0 <= j < s.version_tags@.len() ==> ((#[trigger] s.version_tags@[j]).updated_at matches Some(u)
                    ==> ts_le(u, m))
        },
    }
}

/// The last access of a secret's versions is one instant: the relation
/// `is_last_accessed` pins its value.
pub proof fn lemma_last_accessed_unique(versions: Seq<SecretVersion>, a: Option<Timestamp>, b: Option<Timestamp>)
    requires
        is_last_accessed(versions, a),
        is_last_accessed(versions, b),
    ensures
        a == b,
{
    if let (Some(x), Some(y)) = (a, b) {
        let i = choose|i: int| 0 <= i < versions.len() && (#[trigger] versions[i]).last_accessed_at == Some(x);
        let j = choose|j: int| 0 <= j < versions.len() && (#[trigger] versions[j]).last_accessed_at == Some(y);
        assert(ts_le(x, y) && ts_le(y, x));
    } else if let Some(x) = a {
        let i = choose|i: int| 0 <= i < versions.len() && (#[trigger] versions[i]).last_accessed_at == Some(x);
        assert(versions[i].last_accessed_at is None);
    } else if let Some(y) = b {
        let j = choose|j: int| 0 <= j < versions.len() && (#[trigger] versions[j]).last_accessed_at == Some(y);
        assert(versions[j].last_accessed_at is None);
    }
}

/// The last change of a secret is one instant: the relation
/// `is_last_changed` pins its value.
pub proof fn lemma_last_changed_unique(s: ListedSecret, a: Option<Timestamp>, b: Option<Timestamp>)
    requires
        is_last_changed(s, a),
        is_last_changed(s, b),
    ensures
        a == b,
{
    if let (Some(x), Some(y)) = (a, b) {
        // Each is a change time, so each bounds the other.
        assert(ts_le(x, y)) by {
            if exists|i: int| 0 <= i < s.versions@.len() && (#[trigger] s.versions@[i]).created_at == x {
                let i = choose|i: int| 0 <= i < s.versions@.len() && (#[trigger] s.versions@[i]).created_at == x;
                assert(ts_le(s.versions@[i].created_at, y));
            } else if s.updated_at == Some(x) {
            } else {
                let j = choose|j: int| 0 <= j < s.version_tags@.len() && (#[trigger] s.version_tags@[j]).updated_at == Some(x);
                assert(s.version_tags@[j].updated_at matches Some(u) ==> ts_le(u, y));
            }
        }
        assert(ts_le(y, x)) by {
            if exists|i: int| 0 <= i < s.versions@.len() && (#[trigger] s.versions@[i]).created_at == y {
                let i = choose|i: int| 0 <= i < s.versions@.len() && (#[trigger] s.versions@[i]).created_at == y;
                assert(ts_le(s.versions@[i].created_at, x));
            } else if s.updated_at == Some(y) {
            } else {
                let j = choose|j: int| 0 <= j < s.version_tags@.len() && (#[trigger] s.version_tags@[j]).updated_at == Some(y);
                assert(s.version_tags@[j].updated_at matches Some(u) ==> ts_le(u, x));
            }
        }
    } else if let Some(x) = a {
        if exists|j: int| 0 <= j < s.version_tags@.len() && (#[trigger] s.version_tags@[j]).updated_at == Some(x) {
            let j = choose|j: int| 0 <= j < s.version_tags@.len() && (#[trigger] s.version_tags@[j]).updated_at == Some(x);
            assert(s.version_tags@[j].updated_at is None);
        }
    } else if let Some(y) = b {
        if exists|j: int| 0 <= j < s.version_tags@.len() && (#[trigger] s.version_tags@[j]).updated_at == Some(y) {
            let j = choose|j: int| 0 <= j < s.version_tags@.len() && (#[trigger] s.version_tags@[j]).updated_at == Some(y);
            assert(s.version_tags@[j].updated_at is None);
        }
    }
}

pub fn last_accessed(versions: &Vec<SecretVersion>) -> (t: Option<Timestamp>)
    ensures
        is_last_accessed(versions@, t),
{
    let mut best: Option<Timestamp> = None;
    let mut i: usize = 0;
    while i < versions.len()
        invariant
            i <= versions@.len(),
            is_last_accessed(versions@.take(i as int), best),
        decreases versions@.len() - i,
    {
        let ghost prefix = versions@.take(i as int);
        let ghost next = versions@.take(i + 1);
        proof {
            assert forall|k: int| 0 <= k < i implies next[k] == prefix[k] by {}
            assert(next[i as int] == versions@[i as int]);
        }
        match versions[i].last_accessed_at {
            Some(x) => {
                let m = later_opt(best, x);
                proof {
                    if best is Some {
                        let w = choose|k: int| 0 <= k < prefix.len() && (#[trigger] prefix[k]).last_accessed_at == best;
                        assert(next[w].last_accessed_at == best);
                    }
                    assert(next[i as int].last_accessed_at == Some(x));
                    assert forall|k: int| 0 <= k < next.len() implies ((#[trigger] next[k]).last_accessed_at matches Some(y)
                        ==> ts_le(y, m)) by {
                        if k < i {
                            assert(prefix[k] == next[k]);
                        }
                    }
                }
                best = Some(m);
            },
            None => {
                proof {
                    if best is Some {
                        let w = choose|k: int| 0 <= k < prefix.len() && (#[trigger] prefix[k]).last_accessed_at == best;
                        assert(next[w].last_accessed_at == best);
                    }
                    assert forall|k: int| 0 <= k < next.len() implies ((#[trigger] next[k]).last_accessed_at matches Some(y)
                        ==> (best matches Some(m) && ts_le(y, m))) by {
                        if k < i {
                            assert(prefix[k] == next[k]);
                        }
                    }
                }
            },
        }
        i = i + 1;
    }
    proof {
        assert(versions@.take(versions@.len() as int) =~= versions@);
    }
    best
}

pub fn last_changed(secret: &ListedSecret) -> (t: Option<Timestamp>)
    ensures
        is_last_changed(*secret, t),
{
    let versions = &secret.versions;
    let mut best: Option<Timestamp> = None;
    let mut i: usize = 0;
    while i < versions.len()
        invariant
            versions == &secret.versions,
            i <= versions@.len(),
            best is None <==> i == 0,
            best matches Some(m) ==> {
                &&& exists|k: int| 0 <= k < i && (#[trigger] versions@[k]).created_at == m
                &&& forall|k: int| 0 <= k < i ==> ts_le((#[trigger] versions@[k]).created_at, m)
            },
        decreases versions@.len() - i,
    {
        let x = versions[i].created_at;
        let m = later_opt(best, x);
        proof {
            if m != x {
                let w = choose|k: int| 0 <= k < i && (#[trigger] versions@[k]).created_at == best->0;
                assert(versions@[w].created_at == m);
            } else {
                assert(versions@[i as int].created_at == m);
            }
        }
        best = Some(m);
        i = i + 1;
    }
    if let Some(u) = secret.updated_at {
        best = Some(later_opt(best, u));
    }
    proof {
        if best is Some {
            if secret.updated_at is None || best != secret.updated_at {
                let w = choose|k: int| 0 <= k < versions@.len() && (#[trigger] versions@[k]).created_at == best->0;
                assert(versions@[w].created_at == best->0);
            }
        }
    }
    let tags = &secret.version_tags;
    let mut j: usize = 0;
    while j < tags.len()
        invariant
            tags == &secret.version_tags,
            j <= tags@.len(),
            best matches Some(m) ==> {
                &&& is_change_time(*secret, m)
                &&& forall|k: int| 0 <= k < secret.versions@.len() ==> ts_le((#[trigger] secret.versions@[k]).created_at, m)
                &&& (secret.updated_at matches Some(u) ==> ts_le(u, m))
                &&& forall|k: int| 0 <= k < j ==> ((#[trigger] tags@[k]).updated_at matches Some(u) ==> ts_le(u, m))
            },
            best is None ==> {
                &&& secret.versions@.len() == 0
                &&& secret.updated_at is None
                &&& forall|k: int| 0 <= k < j ==> (#[trigger] tags@[k]).updated_at is None
            },
        decreases tags@.len() - j,
    {
        if let Some(u) = tags[j].updated_at {
            let m = later_opt(best, u);
            proof {
                if m == u {
                    assert(tags@[j as int].updated_at == Some(m));
                    assert(is_change_time(*secret, m));
                }
                if let Some(b) = best {
                    assert forall|k: int| 0 <= k < secret.versions@.len() implies ts_le(
                        (#[trigger] secret.versions@[k]).created_at,
                        m,
                    ) by {
                        assert(ts_le(secret.versions@[k].created_at, b));
                    }
                }
            }
            best = Some(m);
        }
        j = j + 1;
    }
    best
}

/// Each version's id with its stages, in the order of the versions.
pub fn versions_to_stages(versions: Vec<SecretVersion>) -> (r: Vec<(String, Vec<String>)>)
    ensures
        r@ == versions@.map_values(|v: SecretVersion| (v.version_id, v.version_stages)),
{
    let ghost all = versions@;
    let mut rest = versions;
    let mut out: Vec<(String, Vec<String>)> = Vec::new();
    while rest.len() > 0
        invariant
            out@.len() + rest@.len() == all.len(),
            rest@ == all.skip(out@.len() as int),
            out@ == all.take(out@.len() as int).map_values(|v: SecretVersion| (v.version_id, v.version_stages)),
        decreases rest@.len(),
    {
        let ghost k = out@.len() as int;
        let version = rest.remove(0);
        proof {
            assert(version == all[k]);
            assert(rest@ =~= all.skip(k + 1));
            assert(all.take(k + 1) =~= all.take(k).push(all[k]));
        }
        out.push((version.version_id, version.version_stages));
        proof {
            assert(out@ =~= all.take(k + 1).map_values(|v: SecretVersion| (v.version_id, v.version_stages)));
        }
    }
    proof {
        assert(all.take(all.len() as int) =~= all);
    }
    out
}

/// The key and value of each stored tag, in their order.
pub fn tags_of(stored: Vec<StoredVersionTags>) -> (r: Vec<Tag>)
    ensures
        r@ == stored@.map_values(|t: StoredVersionTags| Tag { key: t.key, value: t.value }),
{
    let ghost all = stored@;
    let mut rest = stored;
    let mut out: Vec<Tag> = Vec::new();
    while rest.len() > 0
        invariant
            out@.len() + rest@.len() == all.len(),
            rest@ == all.skip(out@.len() as int),
            out@ == all.take(out@.len() as int).map_values(|t: StoredVersionTags| Tag { key: t.key, value: t.value }),
        decreases rest@.len(),
    {
        let ghost k = out@.len() as int;
        let tag = rest.remove(0);
        proof {
            assert(tag == all[k]);
            assert(rest@ =~= all.skip(k + 1));
            assert(all.take(k + 1) =~= all.take(k).push(all[k]));
        }
        out.push(Tag { key: tag.key, value: tag.value });
        proof {
            assert(out@ =~= all.take(k + 1).map_values(|t: StoredVersionTags| Tag { key: t.key, value: t.value }));
        }
    }
    proof {
        assert(all.take(all.len() as int) =~= all);
    }
    out
}

/// The listing entry `e` describes the stored secret `s`.
pub open spec fn entry_matches(s: ListedSecret, e: SecretListEntry) -> bool {
    &&& e.arn == s.arn
    &&& e.name == s.name
    &&& e.description == s.description
    &&& e.created_date == s.created_at
    &&& e.deleted_date == s.deleted_at
    &&& is_last_accessed(s.versions@, e.last_accessed_date)
    &&& is_last_changed(s, e.last_changed_date)
    &&& e.secret_versions_to_stages@ == s.versions@.map_values(|v: SecretVersion| (v.version_id, v.version_stages))
    &&& e.tags@ == s.version_tags@.map_values(|t: StoredVersionTags| Tag { key: t.key, value: t.value })
    &&& e.kms_key_id is None
    &&& e.last_rotated_date is None
    &&& e.next_rotation_date is None
    &&& e.owning_service is None
    &&& e.primary_region is None
    &&& !e.rotation_enabled
    &&& e.rotation_lambda_arn is None
}

/// The listing entry of a stored secret.
pub fn secret_entry(secret: ListedSecret) -> (e: SecretListEntry)
    ensures
        entry_matches(secret, e),
{
    let last_accessed_date = last_accessed(&secret.versions);
    let last_changed_date = last_changed(&secret);
    let ghost s = secret;
    let ListedSecret { arn, name, description, created_at, updated_at: _, deleted_at, versions, version_tags } = secret;
    let secret_versions_to_stages = versions_to_stages(versions);
    let tags = tags_of(version_tags);
    let e = SecretListEntry {
        arn,
        created_date: created_at,
        deleted_date: deleted_at,
        description,
        kms_key_id: None,
        last_accessed_date,
        last_changed_date,
        last_rotated_date: None,
        name,
        next_rotation_date: None,
        owning_service: None,
        primary_region: None,
        rotation_enabled: false,
        rotation_lambda_arn: None,
        secret_versions_to_stages,
        tags,
    };
    assert(entry_matches(s, e));
    e
}

/// The listing entries of the stored secrets, in their order.
pub fn secret_entries(secrets: Vec<ListedSecret>) -> (entries: Vec<SecretListEntry>)
    ensures
        entries@.len() == secrets@.len(),
        forall|i: int| 0 <= i < secrets@.len() ==> entry_matches(secrets@[i], #[trigger] entries@[i]),
{
    let ghost all = secrets@;
    let mut rest = secrets;
    let mut entries: Vec<SecretListEntry> = Vec::new();
    while rest.len() > 0
        invariant
            entries@.len() + rest@.len() == all.len(),
            rest@ == all.skip(entries@.len() as int),
            forall|i: int| 0 <= i < entries@.len() ==> entry_matches(all[i], #[trigger] entries@[i]),
        decreases rest@.len(),
    {
        let ghost k = entries@.len() as int;
        let secret = rest.remove(0);
        proof {
            assert(secret == all[k]);
            assert(rest@ =~= all.skip(k + 1));
        }
        let e = secret_entry(secret);
        entries.push(e);
    }
    entries
}

/// Where a ListSecrets request stands.
pub enum ListSecretsState {
    /// Waiting for the page of secrets.
    Paging { filters: Vec<Filter>, include_planned_deletion: bool, token: PaginationToken },
    /// Waiting for the number of secrets.
    Counting { token: PaginationToken, secrets: Vec<ListedSecret> },
}

impl ListSecretsHandler {
    /// An invalid request is refused with `InvalidParameterException`. The
    /// page of the token, resized to the request's maximum number of results,
    /// holds `page_size` secrets from offset `page_size * page_index`, in the
    /// request's order (`asc`, or else newest first); an offset beyond an
    /// `i64` is `InvalidRequestException`.
    pub fn start(request: ListSecretsRequest) -> (r: Step<ListSecretsState, ListSecretsResponse>)
        ensures
            !request.spec_valid() ==> r == Step::<ListSecretsState, ListSecretsResponse>::Finish(
                Err(AwsErrorKind::InvalidParameterException),
            ),
            request.spec_valid() ==> {
                let token = PaginationToken { page_size: request.max_results as i64, page_index: request.next_token.page_index };
                match token.page_size.checked_mul(token.page_index) {
                    Some(offset) => r matches Step::Run(
                        ListSecretsState::Paging { filters, include_planned_deletion, token: t },
                        DbCall::Query(DbQuery::SecretsByFilter {
                            filters: query_filters,
                            include_planned_deletion: query_include,
                            limit,
                            offset: query_offset,
                            asc,
                        }),
                    ) && {
                        &&& filters == request.filters
                        &&& same_filters(query_filters@, request.filters@)
                        &&& include_planned_deletion == request.include_planned_deletion
                        &&& query_include == request.include_planned_deletion
                        &&& t == token
                        &&& limit == token.page_size
                        &&& query_offset == offset
                        &&& asc == (request.sort_order@ == "asc"@)
                    },
                    // Requested page exceeds the i64 bounds
                    None => r == Step::<ListSecretsState, ListSecretsResponse>::Finish(
                        Err(AwsErrorKind::InvalidRequestException),
                    ),
                }
            },
    {
        if !request.validate() {
            return Step::Finish(Err(AwsErrorKind::InvalidParameterException));
        }
        let asc = str_eq(request.sort_order.as_str(), "asc");
        // Update the pagination page size to match the max results
        let token = request.next_token.page_size(request.max_results as i64);
        match token.as_query_parts() {
            Some((limit, offset)) => {
                let filters = clone_filters(&request.filters);
                let include_planned_deletion = request.include_planned_deletion;
                Step::Run(
                    ListSecretsState::Paging { filters: request.filters, include_planned_deletion, token },
                    DbCall::Query(DbQuery::SecretsByFilter { filters, include_planned_deletion, limit, offset, asc }),
                )
            },
            None => Step::Finish(Err(AwsErrorKind::InvalidRequestException)),
        }
    }

    /// The secrets of the page are counted among all that match the filters,
    /// and the answer lists each with its versions, stages, tags and dates,
    /// and the token of the next page when more secrets follow and that page's
    /// offset fits an `i64`.
    pub fn resume(state: ListSecretsState, reply: DbReply) -> (r: Step<ListSecretsState, ListSecretsResponse>)
        ensures
            match state {
                ListSecretsState::Paging { filters, include_planned_deletion, token } => match reply {
                    DbReply::Secrets(secrets) => r == Step::<ListSecretsState, ListSecretsResponse>::Run(
                        ListSecretsState::Counting { token, secrets },
                        DbCall::Query(DbQuery::SecretsCountByFilter { filters, include_planned_deletion }),
                    ),
                    _ => r == Step::<ListSecretsState, ListSecretsResponse>::Finish(Err(AwsErrorKind::InternalServiceError)),
                },
                ListSecretsState::Counting { token, secrets } => match reply {
                    DbReply::Count(count) => r matches Step::Finish(Ok(resp)) && {
                        &&& resp.secret_list@.len() == secrets@.len()
                        &&& forall|i: int| 0 <= i < secrets@.len() ==> entry_matches(secrets@[i], #[trigger] resp.secret_list@[i])
                        &&& match resp.next_token {
                            Some(t) => next_token_text(token, count) == Some(t@),
                            None => next_token_text(token, count) is None,
                        }
                    },
                    _ => r == Step::<ListSecretsState, ListSecretsResponse>::Finish(Err(AwsErrorKind::InternalServiceError)),
                },
            },
    {
        match state {
            ListSecretsState::Paging { filters, include_planned_deletion, token } => match reply {
                DbReply::Secrets(secrets) => Step::Run(
                    ListSecretsState::Counting { token, secrets },
                    DbCall::Query(DbQuery::SecretsCountByFilter { filters, include_planned_deletion }),
                ),
                _ => Step::Finish(Err(AwsErrorKind::InternalServiceError)),
            },
            ListSecretsState::Counting { token, secrets } => match reply {
                DbReply::Count(count) => {
                    let next_token = match token.get_next_page(count) {
                        Some(next) => Some(next.to_string()),
                        None => None,
                    };
                    let secret_list = secret_entries(secrets);
                    Step::Finish(Ok(ListSecretsResponse { next_token, secret_list }))
                },
                _ => Step::Finish(Err(AwsErrorKind::InternalServiceError)),
            },
        }
    }
}

} // verus!
