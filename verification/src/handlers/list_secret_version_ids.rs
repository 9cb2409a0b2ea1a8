use vstd::prelude::*;

use crate::database::secrets::{DbCall, DbQuery, DbReply, SecretVersion, Step, Timestamp};
use crate::handlers::error::AwsErrorKind;
use crate::handlers::models::{spec_next_page, token_text, PaginationToken, SecretId};
use crate::handlers::{found_secret, spec_found_secret};

verus! {

// https://docs.aws.amazon.com/secretsmanager/latest/apireference/API_ListSecretVersionIds.html
pub struct ListSecretVersionIdsHandler;

pub struct ListSecretVersionIdsRequest {
    pub include_deprecated: bool,
    pub max_results: i32,
    pub next_token: PaginationToken,
    pub secret_id: SecretId,
}

pub struct ListSecretVersionIdsResponse {
    pub arn: String,
    pub name: String,
    pub next_token: Option<String>,
    pub versions: Vec<SecretVersionsListEntry>,
}

/// One version of a listing. The service knows no KMS keys, so the entry
/// names none.
pub struct SecretVersionsListEntry {
    pub created_date: Timestamp,
    pub last_accessed_date: Option<Timestamp>,
    pub version_id: String,
    pub version_stages: Vec<String>,
}

/// The number of versions a page holds when the request names none.
pub fn default_max_results() -> (r: i32)
    ensures
        r == 100,
{
    100
}

/// The first page, of 100 versions, when the request names none.
pub fn default_next_token() -> (t: PaginationToken)
    ensures
        t.page_size == 100,
        t.page_index == 0,
{
    PaginationToken { page_size: 100, page_index: 0 }
}

impl ListSecretVersionIdsRequest {
    /// 1 to 100 results per page and a valid secret id.
    pub open spec fn spec_valid(&self) -> bool {
        1 <= self.max_results <= 100 && self.secret_id.spec_valid()
    }

    pub fn validate(&self) -> (r: bool)
        ensures
            r == self.spec_valid(),
    {
        1 <= self.max_results && self.max_results <= 100 && self.secret_id.validate()
    }
}

/// The listing entry of a stored version.
pub open spec fn entry_of(v: SecretVersion) -> SecretVersionsListEntry {
    SecretVersionsListEntry {
        created_date: v.created_at,
        last_accessed_date: v.last_accessed_at,
        version_id: v.version_id,
        version_stages: v.version_stages,
    }
}

/// The listing entries of the stored versions, in their order.
pub fn version_entries(versions: Vec<SecretVersion>) -> (entries: Vec<SecretVersionsListEntry>)
    ensures
        entries@ == versions@.map_values(|v: SecretVersion| entry_of(v)),
        entries@.len() == versions@.len(),
        forall|i: int|
            #![trigger entries@[i]]
            0 <= i < versions@.len() ==> {
                &&& entries@[i].created_date == versions@[i].created_at
                &&& entries@[i].last_accessed_date == versions@[i].last_accessed_at
                &&& entries@[i].version_id == versions@[i].version_id
                &&& entries@[i].version_stages == versions@[i].version_stages
            },
{
    let ghost all = versions@;
    let mut rest = versions;
    let mut entries: Vec<SecretVersionsListEntry> = Vec::new();
    while rest.len() > 0
        invariant
            entries@.len() + rest@.len() == all.len(),
            rest@ == all.skip(entries@.len() as int),
            entries@ == all.take(entries@.len() as int).map_values(|v: SecretVersion| entry_of(v)),
        decreases rest@.len(),
    {
        let ghost k = entries@.len() as int;
        let version = rest.remove(0);
        proof {
            assert(version == all[k]);
            assert(rest@ =~= all.skip(k + 1));
            assert(all.take(k + 1) =~= all.take(k).push(all[k]));
        }
        entries.push(
            SecretVersionsListEntry {
                created_date: version.created_at,
                last_accessed_date: version.last_accessed_at,
                version_id: version.version_id,
                version_stages: version.version_stages,
            },
        );
        proof {
            assert(entries@ =~= all.take(k + 1).map_values(|v: SecretVersion| entry_of(v)));
        }
    }
    proof {
        assert(all.take(all.len() as int) =~= all);
    }
    entries
}

/// Where a ListSecretVersionIds request stands.
pub enum ListSecretVersionIdsState {
    /// Waiting for the lookup of the secret.
    Lookup { include_deprecated: bool, token: PaginationToken },
    /// Waiting for the page of versions.
    Paging { arn: String, name: String, include_deprecated: bool, token: PaginationToken },
    /// Waiting for the number of versions.
    Counting { arn: String, name: String, token: PaginationToken, versions: Vec<SecretVersion> },
}

/// The text of the token of the page after `token`, if there is one.
pub open spec fn next_token_text(token: PaginationToken, count: i64) -> Option<Seq<char>> {
    match spec_next_page(token, count) {
        Some(next) => Some(token_text(next.page_size as int, next.page_index as int)),
        None => None,
    }
}

/// What `ListSecretVersionIdsHandler::resume` gives from a state and the store's reply to its call.
pub open spec fn list_resume_post(state: ListSecretVersionIdsState, reply: DbReply, r: Step<ListSecretVersionIdsState, ListSecretVersionIdsResponse>) -> bool {
    match state {
        ListSecretVersionIdsState::Lookup { include_deprecated, token } => match spec_found_secret(reply) {
            Ok(s) => match token.page_size.checked_mul(token.page_index) {
                Some(offset) => r == Step::<ListSecretVersionIdsState, ListSecretVersionIdsResponse>::Run(
                    ListSecretVersionIdsState::Paging { arn: s.arn, name: s.name, include_deprecated, token },
                    DbCall::Query(DbQuery::VersionsPage {
                        secret_arn: s.arn,
                        limit: token.page_size,
                        offset,
                        include_deprecated,
                    }),
                ),
                // Requested page exceeds the i64 bounds
                None => r == Step::<ListSecretVersionIdsState, ListSecretVersionIdsResponse>::Finish(
                    Err(AwsErrorKind::InvalidRequestException),
                ),
            },
            Err(e) => r == Step::<ListSecretVersionIdsState, ListSecretVersionIdsResponse>::Finish(Err(e)),
        },
        ListSecretVersionIdsState::Paging { arn, name, include_deprecated, token } => match reply {
            DbReply::Versions(versions) => r == Step::<ListSecretVersionIdsState, ListSecretVersionIdsResponse>::Run(
                ListSecretVersionIdsState::Counting { arn, name, token, versions },
                DbCall::Query(DbQuery::VersionsCount { secret_arn: arn, include_deprecated }),
            ),
            _ => r == Step::<ListSecretVersionIdsState, ListSecretVersionIdsResponse>::Finish(
                Err(AwsErrorKind::InternalServiceError),
            ),
        },
        ListSecretVersionIdsState::Counting { arn, name, token, versions } => match reply {
            DbReply::Count(count) => r matches Step::Finish(Ok(resp)) && {
                &&& resp.arn == arn
                &&& resp.name == name
                &&& resp.versions@ == versions@.map_values(|v: SecretVersion| entry_of(v))
                &&& match resp.next_token {
                    Some(t) => next_token_text(token, count) == Some(t@),
                    None => next_token_text(token, count) is None,
                }
            },
            _ => r == Step::<ListSecretVersionIdsState, ListSecretVersionIdsResponse>::Finish(
                Err(AwsErrorKind::InternalServiceError),
            ),
        },
    }
}

impl ListSecretVersionIdsHandler {
    /// An invalid request is refused; a valid one starts with the lookup of the
    /// secret it names, for the page of its token resized to its maximum
    /// number of results.
    pub fn start(request: ListSecretVersionIdsRequest) -> (r: Step<ListSecretVersionIdsState, ListSecretVersionIdsResponse>)
        ensures
            request.spec_valid() ==> r == Step::<ListSecretVersionIdsState, ListSecretVersionIdsResponse>::Run(
                ListSecretVersionIdsState::Lookup {
                    include_deprecated: request.include_deprecated,
                    token: PaginationToken {
                        page_size: request.max_results as i64,
                        page_index: request.next_token.page_index,
                    },
                },
                DbCall::Query(DbQuery::LatestVersion { secret_id: request.secret_id.0 }),
            ),
            !request.spec_valid() ==> r == Step::<ListSecretVersionIdsState, ListSecretVersionIdsResponse>::Finish(
                Err(AwsErrorKind::InvalidParameterException),
            ),
    {
        if !request.validate() {
            return Step::Finish(Err(AwsErrorKind::InvalidParameterException));
        }
        // Update the pagination page size to match the max results
        let token = request.next_token.page_size(request.max_results as i64);
        Step::Run(
            ListSecretVersionIdsState::Lookup { include_deprecated: request.include_deprecated, token },
            DbCall::Query(DbQuery::LatestVersion { secret_id: request.secret_id.into_inner() }),
        )
    }

    /// The page of the token holds `page_size` versions from offset
    /// `page_size * page_index`; an offset beyond an `i64` is
    /// `InvalidRequestException`. The answer carries the token of the next page
    /// when more versions follow and that page's offset fits an `i64`.
    pub fn resume(state: ListSecretVersionIdsState, reply: DbReply) -> (r: Step<
        ListSecretVersionIdsState,
        ListSecretVersionIdsResponse,
    >)
        ensures
            list_resume_post(state, reply, r),
    {
        match state {
            ListSecretVersionIdsState::Lookup { include_deprecated, token } => match found_secret(reply) {
                Ok(s) => match token.as_query_parts() {
                    Some((limit, offset)) => {
                        let secret_arn = s.arn.clone();
                        Step::Run(
                            ListSecretVersionIdsState::Paging { arn: s.arn, name: s.name, include_deprecated, token },
                            DbCall::Query(DbQuery::VersionsPage { secret_arn, limit, offset, include_deprecated }),
                        )
                    },
                    None => Step::Finish(Err(AwsErrorKind::InvalidRequestException)),
                },
                Err(e) => Step::Finish(Err(e)),
            },
            ListSecretVersionIdsState::Paging { arn, name, include_deprecated, token } => match reply {
                DbReply::Versions(versions) => {
                    let secret_arn = arn.clone();
                    Step::Run(
                        ListSecretVersionIdsState::Counting { arn, name, token, versions },
                        DbCall::Query(DbQuery::VersionsCount { secret_arn, include_deprecated }),
                    )
                },
                _ => Step::Finish(Err(AwsErrorKind::InternalServiceError)),
            },
            ListSecretVersionIdsState::Counting { arn, name, token, versions } => match reply {
                DbReply::Count(count) => {
                    let next_token = match token.get_next_page(count) {
                        Some(next) => Some(next.to_string()),
                        None => None,
                    };
                    let versions = version_entries(versions);
                    Step::Finish(Ok(ListSecretVersionIdsResponse { arn, name, next_token, versions }))
                },
                _ => Step::Finish(Err(AwsErrorKind::InternalServiceError)),
            },
        }
    }
}

/// A listing shows each stored version of its page as it is stored, in the
/// store's order: one entry per version, with the version's creation date, the
/// date it was last read (none when it never was), its id and its stages.
pub proof fn lemma_listed_versions_follow_store(
    state: ListSecretVersionIdsState,
    reply: DbReply,
    r: Step<ListSecretVersionIdsState, ListSecretVersionIdsResponse>,
)
    requires
        list_resume_post(state, reply, r),
    ensures
        state matches ListSecretVersionIdsState::Counting { arn, name, token: _, versions } ==> (reply is Count ==> (r
            matches Step::Finish(Ok(resp)) && {
            &&& resp.arn == arn
            &&& resp.name == name
            &&& resp.versions@.len() == versions@.len()
            &&& forall|i: int|
                #![trigger resp.versions@[i]]
                0 <= i < versions@.len() ==> {
                    &&& resp.versions@[i].created_date == versions@[i].created_at
                    &&& resp.versions@[i].last_accessed_date == versions@[i].last_accessed_at
                    &&& resp.versions@[i].version_id == versions@[i].version_id
                    &&& resp.versions@[i].version_stages == versions@[i].version_stages
                }
        })),
{
}

} // verus!
