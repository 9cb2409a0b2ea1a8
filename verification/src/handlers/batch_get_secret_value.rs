use vstd::prelude::*;

use crate::database::secrets::{DbCall, DbQuery, DbReply, DbWrite, Step, StoredSecret, Timestamp};
use crate::handlers::error::AwsErrorKind;
use crate::handlers::list_secret_version_ids::next_token_text;
use crate::handlers::models::{clone_filters, same_filters, spec_parse_token, APIErrorType, Filter, PaginationToken};
use crate::handlers::{is_done, succeeded};
use crate::utils::text::owned;

verus! {

// https://docs.aws.amazon.com/secretsmanager/latest/apireference/API_BatchGetSecretValue.html
pub struct BatchGetSecretValueHandler;

pub struct BatchGetSecretValueRequest {
    pub filters: Option<Vec<Filter>>,
    pub max_results: Option<i32>,
    pub next_token: Option<String>,
    pub secret_id_list: Option<Vec<String>>,
}

pub struct BatchGetSecretValueResponse {
    pub errors: Vec<APIErrorType>,
    pub next_token: Option<String>,
    pub secret_values: Vec<SecretValueEntry>,
}

/// The current value of one secret.
pub struct SecretValueEntry {
    pub arn: String,
    pub created_date: Timestamp,
    pub name: String,
    pub secret_string: Option<String>,
    pub secret_binary: Option<String>,
    pub version_id: String,
    pub version_stages: Vec<String>,
}

/// The entry shows the secret's current version as it is stored: its ARN,
/// creation date, name, text and binary values, version id and stages.
pub open spec fn holds_value_of(e: SecretValueEntry, s: StoredSecret) -> bool {
    &&& e.arn == s.arn
    &&& e.created_date == s.created_at
    &&& e.name == s.name
    &&& e.secret_string == s.secret_string
    &&& e.secret_binary == s.secret_binary
    &&& e.version_id == s.version_id
    &&& e.version_stages == s.version_stages
}

/// `after` is `before` with one more entry at its end, which shows `s`.
pub open spec fn gains_value_of(after: Seq<SecretValueEntry>, before: Seq<SecretValueEntry>, s: StoredSecret) -> bool {
    &&& after.len() == before.len() + 1
    &&& after.take(before.len() as int) == before
    &&& holds_value_of(after.last(), s)
}

/// The entry of a found secret.
pub open spec fn value_entry(s: StoredSecret) -> SecretValueEntry {
    SecretValueEntry {
        arn: s.arn,
        created_date: s.created_at,
        name: s.name,
        secret_string: s.secret_string,
        secret_binary: s.secret_binary,
        version_id: s.version_id,
        version_stages: s.version_stages,
    }
}

fn value_entry_exec(s: StoredSecret) -> (e: SecretValueEntry)
    ensures
        e == value_entry(s),
{
    SecretValueEntry {
        arn: s.arn,
        created_date: s.created_at,
        name: s.name,
        secret_string: s.secret_string,
        secret_binary: s.secret_binary,
        version_id: s.version_id,
        version_stages: s.version_stages,
    }
}

/// The entries of the found secrets, in their order.
pub fn value_entries(secrets: Vec<StoredSecret>) -> (entries: Vec<SecretValueEntry>)
    ensures
        entries@ == secrets@.map_values(|s: StoredSecret| value_entry(s)),
        entries@.len() == secrets@.len(),
        forall|i: int| #![trigger entries@[i]] 0 <= i < secrets@.len() ==> holds_value_of(entries@[i], secrets@[i]),
{
    let ghost all = secrets@;
    let mut rest = secrets;
    let mut entries: Vec<SecretValueEntry> = Vec::new();
    while rest.len() > 0
        invariant
            entries@.len() + rest@.len() == all.len(),
            rest@ == all.skip(entries@.len() as int),
            entries@ == all.take(entries@.len() as int).map_values(|s: StoredSecret| value_entry(s)),
        decreases rest@.len(),
    {
        let ghost k = entries@.len() as int;
        let secret = rest.remove(0);
        proof {
            assert(secret == all[k]);
            assert(rest@ =~= all.skip(k + 1));
            assert(all.take(k + 1) =~= all.take(k).push(all[k]));
        }
        entries.push(value_entry_exec(secret));
        proof {
            assert(entries@ =~= all.take(k + 1).map_values(|s: StoredSecret| value_entry(s)));
        }
    }
    proof {
        assert(all.take(all.len() as int) =~= all);
    }
    entries
}

/// The error entry for a secret id that names no secret.
pub open spec fn is_not_found_error(e: APIErrorType, secret_id: String) -> bool {
    &&& e.error_code matches Some(c) && c@ == AwsErrorKind::ResourceNotFoundException.spec_error_type()
    &&& e.message matches Some(m) && m@ == AwsErrorKind::ResourceNotFoundException.spec_message()
    &&& e.secret_id == Some(secret_id)
}

fn not_found_error(secret_id: String) -> (e: APIErrorType)
    ensures
        is_not_found_error(e, secret_id),
{
    let kind = AwsErrorKind::ResourceNotFoundException;
    APIErrorType {
        error_code: Some(owned(kind.error_type())),
        message: Some(owned(kind.message())),
        secret_id: Some(secret_id),
    }
}

/// Where a BatchGetSecretValue request stands.
pub enum BatchGetSecretValueState {
    /// Waiting for the page of secrets that match the filters.
    Paging { filters: Vec<Filter>, token: PaginationToken },
    /// Waiting for the number of secrets that match the filters.
    Counting { token: PaginationToken, secrets: Vec<StoredSecret> },
    /// Waiting for the lookup of the secret id at `index`.
    Looking { ids: Vec<String>, index: usize, errors: Vec<APIErrorType>, values: Vec<SecretValueEntry> },
    /// Waiting for the found secret's version to be marked as read.
    Touching {
        ids: Vec<String>,
        index: usize,
        errors: Vec<APIErrorType>,
        values: Vec<SecretValueEntry>,
        secret: StoredSecret,
    },
}

/// After the ids before `index` are answered with `errors` and `values`:
/// look up the next id, or answer.
pub open spec fn is_look_from(
    r: Step<BatchGetSecretValueState, BatchGetSecretValueResponse>,
    ids: Vec<String>,
    index: int,
    errors: Seq<APIErrorType>,
    values: Seq<SecretValueEntry>,
) -> bool {
    if 0 <= index < ids@.len() {
        r matches Step::Run(
            BatchGetSecretValueState::Looking { ids: i2, index: n2, errors: e2, values: v2 },
            DbCall::Query(DbQuery::LatestVersion { secret_id }),
        ) && i2 == ids && n2 == index && e2@ == errors && v2@ == values && secret_id == ids@[index]
    } else {
        r matches Step::Finish(Ok(resp)) && resp.errors@ == errors && resp.next_token is None
            && resp.secret_values@ == values
    }
}

fn look_from_exec(
    ids: Vec<String>,
    index: usize,
    errors: Vec<APIErrorType>,
    values: Vec<SecretValueEntry>,
) -> (r: Step<BatchGetSecretValueState, BatchGetSecretValueResponse>)
    ensures
        is_look_from(r, ids, index as int, errors@, values@),
{
    if index < ids.len() {
        let secret_id = ids[index].clone();
        Step::Run(
            BatchGetSecretValueState::Looking { ids, index, errors, values },
            DbCall::Query(DbQuery::LatestVersion { secret_id }),
        )
    } else {
        Step::Finish(Ok(BatchGetSecretValueResponse { errors, next_token: None, secret_values: values }))
    }
}

/// The page a request with filters asks for: its token (the first page when
/// it gives none) resized to its maximum number of results, 20 by default;
/// `None` when the token it gives is not valid.
pub open spec fn requested_page(request: BatchGetSecretValueRequest) -> Option<PaginationToken> {
    let size = match request.max_results {
        Some(m) => m as i64,
        None => 20i64,
    };
    match request.next_token {
        None => Some(PaginationToken { page_size: size, page_index: 0 }),
        Some(t) => match spec_parse_token(t@) {
            Some((_, index)) => Some(PaginationToken { page_size: size, page_index: index as i64 }),
            None => None,
        },
    }
}

impl BatchGetSecretValueState {
    /// The id being looked up is one of the request's.
    pub open spec fn spec_valid(&self) -> bool {
        match self {
            BatchGetSecretValueState::Looking { ids, index, .. } => *index < ids@.len(),
            BatchGetSecretValueState::Touching { ids, index, .. } => *index < ids@.len(),
            _ => true,
        }
    }
}

/// What `BatchGetSecretValueHandler::resume` gives from a state and the store's reply to its call.
pub open spec fn batch_resume_post(state: BatchGetSecretValueState, reply: DbReply, r: Step<BatchGetSecretValueState, BatchGetSecretValueResponse>) -> bool {
    match state {
        BatchGetSecretValueState::Paging { filters, token } => match reply {
            DbReply::SecretValues(secrets) => r == Step::<BatchGetSecretValueState, BatchGetSecretValueResponse>::Run(
                BatchGetSecretValueState::Counting { token, secrets },
                DbCall::Query(DbQuery::SecretsCountByFilter { filters, include_planned_deletion: false }),
            ),
            _ => r == Step::<BatchGetSecretValueState, BatchGetSecretValueResponse>::Finish(
                Err(AwsErrorKind::InternalServiceError),
            ),
        },
        BatchGetSecretValueState::Counting { token, secrets } => match reply {
            DbReply::Count(count) => r matches Step::Finish(Ok(resp)) && {
                &&& resp.errors@.len() == 0
                &&& resp.secret_values@ == secrets@.map_values(|s: StoredSecret| value_entry(s))
                &&& match resp.next_token {
                    Some(t) => next_token_text(token, count) == Some(t@),
                    None => next_token_text(token, count) is None,
                }
            },
            _ => r == Step::<BatchGetSecretValueState, BatchGetSecretValueResponse>::Finish(
                Err(AwsErrorKind::InternalServiceError),
            ),
        },
        BatchGetSecretValueState::Looking { ids, index, errors, values } => match reply {
            DbReply::Secret(None) => exists|e: APIErrorType|
                is_not_found_error(e, ids@[index as int]) && #[trigger] is_look_from(
                    r,
                    ids,
                    index + 1,
                    errors@.push(e),
                    values@,
                ),
            DbReply::Secret(Some(s)) => r == Step::<BatchGetSecretValueState, BatchGetSecretValueResponse>::Run(
                BatchGetSecretValueState::Touching { ids, index, errors, values, secret: s },
                DbCall::Write(DbWrite::UpdateLastAccessed { secret_arn: s.arn, version_id: s.version_id }),
            ),
            _ => r == Step::<BatchGetSecretValueState, BatchGetSecretValueResponse>::Finish(
                Err(AwsErrorKind::InternalServiceError),
            ),
        },
        BatchGetSecretValueState::Touching { ids, index, errors, values, secret } => if is_done(reply) {
            is_look_from(r, ids, index + 1, errors@, values@.push(value_entry(secret)))
        } else {
            r == Step::<BatchGetSecretValueState, BatchGetSecretValueResponse>::Finish(
                Err(AwsErrorKind::InternalServiceError),
            )
        },
    }
}

impl BatchGetSecretValueHandler {
    /// A request must give either filters or a list of secret ids, not both
    /// and not neither; otherwise, or when its token is not valid or its page's
    /// offset does not fit an `i64`, it is `InvalidRequestException`. With
    /// filters it starts with the page of the current values of the matching
    /// secrets, oldest first; with ids, with the lookup of the first id.
    pub fn start(request: BatchGetSecretValueRequest) -> (r: Step<BatchGetSecretValueState, BatchGetSecretValueResponse>)
        ensures
            r matches Step::Run(next, _) ==> next.spec_valid(),
            match (request.filters, request.secret_id_list) {
                (Some(filters), None) => match requested_page(request) {
                    Some(token) => match token.page_size.checked_mul(token.page_index) {
                        Some(offset) => r matches Step::Run(
                            BatchGetSecretValueState::Paging { filters: f, token: t },
                            DbCall::Query(DbQuery::SecretValuesByFilter { filters: qf, limit, offset: o, asc }),
                        ) && f == filters && same_filters(qf@, filters@) && t == token && limit == token.page_size
                            && o == offset && !asc,
                        None => r == Step::<BatchGetSecretValueState, BatchGetSecretValueResponse>::Finish(
                            Err(AwsErrorKind::InvalidRequestException),
                        ),
                    },
                    None => r == Step::<BatchGetSecretValueState, BatchGetSecretValueResponse>::Finish(
                        Err(AwsErrorKind::InvalidRequestException),
                    ),
                },
                (None, Some(ids)) => is_look_from(r, ids, 0, Seq::empty(), Seq::empty()),
                _ => r == Step::<BatchGetSecretValueState, BatchGetSecretValueResponse>::Finish(
                    Err(AwsErrorKind::InvalidRequestException),
                ),
            },
    {
        match (request.filters, request.secret_id_list) {
            // Find secret values based on filters
            (Some(filters), None) => {
                let max_results = match request.max_results {
                    Some(m) => m,
                    None => 20,
                };
                let token = match request.next_token {
                    Some(t) => match PaginationToken::from_str(t.as_str()) {
                        Ok(token) => token,
                        // Invalid pagination token
                        Err(_) => return Step::Finish(Err(AwsErrorKind::InvalidRequestException)),
                    },
                    // Default pagination for the first page
                    None => PaginationToken { page_size: max_results as i64, page_index: 0 },
                };
                // Update the pagination page size to match the max results
                let token = token.page_size(max_results as i64);
                match token.as_query_parts() {
                    Some((limit, offset)) => {
                        let query_filters = clone_filters(&filters);
                        Step::Run(
                            BatchGetSecretValueState::Paging { filters, token },
                            DbCall::Query(DbQuery::SecretValuesByFilter { filters: query_filters, limit, offset, asc: false }),
                        )
                    },
                    // Requested page exceeds the i64 bounds
                    None => Step::Finish(Err(AwsErrorKind::InvalidRequestException)),
                }
            },
            // Finding secrets from a list of ARNs / names
            (None, Some(ids)) => look_from_exec(ids, 0, Vec::new(), Vec::new()),
            // Must only specify one or the other and not both
            // and cannot pick neither
            _ => Step::Finish(Err(AwsErrorKind::InvalidRequestException)),
        }
    }

    /// With filters, the answer holds the current value of each secret of the
    /// page and the token of the next page when more secrets follow. With ids,
    /// each id in turn is looked up: an unknown one adds a
    /// `ResourceNotFoundException` entry to the errors, a known one is marked
    /// as read and adds its current value. A failed call is an internal error.
    pub fn resume(state: BatchGetSecretValueState, reply: DbReply) -> (r: Step<
        BatchGetSecretValueState,
        BatchGetSecretValueResponse,
    >)
        requires
            state.spec_valid(),
        ensures
            r matches Step::Run(next, _) ==> next.spec_valid(),
            batch_resume_post(state, reply, r),
    {
        match state {
            BatchGetSecretValueState::Paging { filters, token } => match reply {
                DbReply::SecretValues(secrets) => Step::Run(
                    BatchGetSecretValueState::Counting { token, secrets },
                    DbCall::Query(DbQuery::SecretsCountByFilter { filters, include_planned_deletion: false }),
                ),
                _ => Step::Finish(Err(AwsErrorKind::InternalServiceError)),
            },
            BatchGetSecretValueState::Counting { token, secrets } => match reply {
                DbReply::Count(count) => {
                    let next_token = match token.get_next_page(count) {
                        Some(next) => Some(next.to_string()),
                        None => None,
                    };
                    let secret_values = value_entries(secrets);
                    Step::Finish(Ok(BatchGetSecretValueResponse { errors: Vec::new(), next_token, secret_values }))
                },
                _ => Step::Finish(Err(AwsErrorKind::InternalServiceError)),
            },
            BatchGetSecretValueState::Looking { ids, index, errors, values } => match reply {
                DbReply::Secret(None) => {
                    let _count = ids.len();
                    let mut errors = errors;
                    let error = not_found_error(ids[index].clone());
                    errors.push(error);
                    look_from_exec(ids, index + 1, errors, values)
                },
                DbReply::Secret(Some(s)) => {
                    let secret_arn = s.arn.clone();
                    let version_id = s.version_id.clone();
                    Step::Run(
                        BatchGetSecretValueState::Touching { ids, index, errors, values, secret: s },
                        DbCall::Write(DbWrite::UpdateLastAccessed { secret_arn, version_id }),
                    )
                },
                _ => Step::Finish(Err(AwsErrorKind::InternalServiceError)),
            },
            BatchGetSecretValueState::Touching { ids, index, errors, values, secret } => {
                if !succeeded(&reply) {
                    return Step::Finish(Err(AwsErrorKind::InternalServiceError));
                }
                let _count = ids.len();
                let mut values = values;
                values.push(value_entry_exec(secret));
                look_from_exec(ids, index + 1, errors, values)
            },
        }
    }
}

/// BatchGetSecretValue answers with the stored values. With filters, each
/// secret of the page gives one entry, in the store's order, that shows its
/// current version as stored. With ids, a found secret, once marked as read,
/// adds one entry at the end of those gathered so far, showing it as stored;
/// the entries gathered before stay as they were.
pub proof fn lemma_batch_values_follow_store(
    state: BatchGetSecretValueState,
    reply: DbReply,
    r: Step<BatchGetSecretValueState, BatchGetSecretValueResponse>,
)
    requires
        batch_resume_post(state, reply, r),
    ensures
        state matches BatchGetSecretValueState::Counting { token: _, secrets } ==> (reply is Count ==> (r matches Step::Finish(
            Ok(resp),
        ) && {
            &&& resp.secret_values@.len() == secrets@.len()
            &&& forall|i: int|
                #![trigger resp.secret_values@[i]]
                0 <= i < secrets@.len() ==> holds_value_of(resp.secret_values@[i], secrets@[i])
        })),
        state matches BatchGetSecretValueState::Touching { ids: _, index: _, errors: _, values, secret } ==> (is_done(reply)
            ==> match r {
            Step::Run(BatchGetSecretValueState::Looking { ids: _, index: _, errors: _, values: after }, _) => gains_value_of(
                after@,
                values@,
                secret,
            ),
            Step::Finish(Ok(resp)) => gains_value_of(resp.secret_values@, values@, secret),
            _ => false,
        }),
{
    match state {
        BatchGetSecretValueState::Touching { ids, index, errors, values, secret } => {
            if is_done(reply) {
                let after = values@.push(value_entry(secret));
                assert(after.take(values@.len() as int) =~= values@);
            }
        },
        _ => {},
    }
}

} // verus!
