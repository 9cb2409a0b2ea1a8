pub mod error;
pub mod get_random_password;
pub mod models;
pub mod batch_get_secret_value;
pub mod create_secret;
pub mod delete_secret;
pub mod describe_secret;
pub mod get_secret_value;
pub mod list_secret_version_ids;
pub mod list_secrets;
pub mod put_secret_value;
pub mod restore_secret;
pub mod tag_resource;
pub mod untag_resource;
pub mod update_secret;
pub mod update_secret_version_stage;

pub use models::{
    ClientRequestToken, Filter, InvalidPaginationToken, PaginationToken, SecretBinary, SecretId, SecretName, SecretString, Tag,
    VersionId,
};

use vstd::prelude::*;

use crate::database::secrets::{DbReply, StoredSecret};
use crate::handlers::error::AwsErrorKind;
use crate::utils::text::{owned, str_eq};

verus! {

/// What the reply to a lookup of the secret a request names means: the secret,
/// `ResourceNotFoundException` when there is none, and `InternalServiceError`
/// when the lookup failed.
pub open spec fn spec_found_secret(reply: DbReply) -> Result<StoredSecret, AwsErrorKind> {
    match reply {
        DbReply::Secret(Some(s)) => Ok(s),
        DbReply::Secret(None) => Err(AwsErrorKind::ResourceNotFoundException),
        _ => Err(AwsErrorKind::InternalServiceError),
    }
}

pub fn found_secret(reply: DbReply) -> (r: Result<StoredSecret, AwsErrorKind>)
    ensures
        r == spec_found_secret(reply),
{
    match reply {
        DbReply::Secret(Some(s)) => Ok(s),
        DbReply::Secret(None) => Err(AwsErrorKind::ResourceNotFoundException),
        _ => Err(AwsErrorKind::InternalServiceError),
    }
}

/// Whether a write or a transaction step succeeded.
pub open spec fn is_done(reply: DbReply) -> bool {
    reply is Done || reply is Rows
}

pub fn succeeded(reply: &DbReply) -> (r: bool)
    ensures
        r == is_done(*reply),
{
    match reply {
        DbReply::Done => true,
        DbReply::Rows(_) => true,
        _ => false,
    }
}

/// The operations the server answers, one per handler.
#[derive(PartialEq, Eq, Structural, Clone, Copy, Debug)]
pub enum Operation {
    CreateSecret,
    DeleteSecret,
    DescribeSecret,
    GetSecretValue,
    ListSecrets,
    PutSecretValue,
    UpdateSecret,
    RestoreSecret,
    TagResource,
    UntagResource,
    GetRandomPassword,
    ListSecretVersionIds,
    UpdateSecretVersionStage,
    BatchGetSecretValue,
}

/// The operation each `x-amz-target` names.
pub open spec fn target_operation(target: Seq<char>) -> Option<Operation> {
    if target == "secretsmanager.CreateSecret"@ {
        Some(Operation::CreateSecret)
    } else if target == "secretsmanager.DeleteSecret"@ {
        Some(Operation::DeleteSecret)
    } else if target == "secretsmanager.DescribeSecret"@ {
        Some(Operation::DescribeSecret)
    } else if target == "secretsmanager.GetSecretValue"@ {
        Some(Operation::GetSecretValue)
    } else if target == "secretsmanager.ListSecrets"@ {
        Some(Operation::ListSecrets)
    } else if target == "secretsmanager.PutSecretValue"@ {
        Some(Operation::PutSecretValue)
    } else if target == "secretsmanager.UpdateSecret"@ {
        Some(Operation::UpdateSecret)
    } else if target == "secretsmanager.RestoreSecret"@ {
        Some(Operation::RestoreSecret)
    } else if target == "secretsmanager.TagResource"@ {
        Some(Operation::TagResource)
    } else if target == "secretsmanager.UntagResource"@ {
        Some(Operation::UntagResource)
    } else if target == "secretsmanager.GetRandomPassword"@ {
        Some(Operation::GetRandomPassword)
    } else if target == "secretsmanager.ListSecretVersionIds"@ {
        Some(Operation::ListSecretVersionIds)
    } else if target == "secretsmanager.UpdateSecretVersionStage"@ {
        Some(Operation::UpdateSecretVersionStage)
    } else if target == "secretsmanager.BatchGetSecretValue"@ {
        Some(Operation::BatchGetSecretValue)
    } else {
        None
    }
}

/// The handlers by the `x-amz-target` they answer. A target added again
/// replaces the handler it had.
pub struct HandlerRouter {
    handlers: Vec<(String, Operation)>,
}

/// The operation of the last entry for `target`.
pub open spec fn last_handler(handlers: Seq<(String, Operation)>, target: Seq<char>) -> Option<Operation>
    decreases handlers.len(),
{
    if handlers.len() == 0 {
        None
    } else if handlers.last().0@ == target {
        Some(handlers.last().1)
    } else {
        last_handler(handlers.drop_last(), target)
    }
}

impl HandlerRouter {
    /// The handler for `target`, if any.
    pub closed spec fn spec_get(&self, target: Seq<char>) -> Option<Operation> {
        last_handler(self.handlers@, target)
    }

    /// A router without handlers.
    pub fn new() -> (r: Self)
        ensures
            forall|t: Seq<char>| r.spec_get(t) is None,
    {
        HandlerRouter { handlers: Vec::new() }
    }

    /// The router with `handler` answering `target`.
    pub fn add_handler(self, target: &str, handler: Operation) -> (r: Self)
        ensures
            forall|t: Seq<char>| #[trigger] r.spec_get(t) == if t == target@ { Some(handler) } else { self.spec_get(t) },
    {
        let mut handlers = self.handlers;
        handlers.push((owned(target), handler));
        proof {
            assert forall|t: Seq<char>| #[trigger] last_handler(handlers@, t) == if t == target@ {
                Some(handler)
            } else {
                last_handler(self.handlers@, t)
            } by {
                assert(handlers@.drop_last() =~= self.handlers@);
            }
        }
        HandlerRouter { handlers }
    }

    /// The handler for `target`, if any.
    pub fn get_handler(&self, target: &str) -> (r: Option<Operation>)
        ensures
            r == self.spec_get(target@),
    {
        let mut i: usize = self.handlers.len();
        proof {
            assert(self.handlers@.take(i as int) =~= self.handlers@);
        }
        while i > 0
            invariant
                i <= self.handlers@.len(),
                last_handler(self.handlers@, target@) == last_handler(self.handlers@.take(i as int), target@),
            decreases i,
        {
            let ghost prefix = self.handlers@.take(i as int);
            proof {
                assert(prefix.drop_last() =~= self.handlers@.take(i - 1));
                assert(prefix.last() == self.handlers@[i - 1]);
            }
            if str_eq(self.handlers[i - 1].0.as_str(), target) {
                return Some(self.handlers[i - 1].1);
            }
            i = i - 1;
        }
        None
    }
}

/// The router of every operation of the service, each by its
/// `secretsmanager.` target.
pub fn create_handlers() -> (r: HandlerRouter)
    ensures
        forall|t: Seq<char>| #[trigger] r.spec_get(t) == target_operation(t),
{
    let r0 = HandlerRouter::new();
    let r1 = r0.add_handler("secretsmanager.CreateSecret", Operation::CreateSecret);
    let r2 = r1.add_handler("secretsmanager.DeleteSecret", Operation::DeleteSecret);
    let r3 = r2.add_handler("secretsmanager.DescribeSecret", Operation::DescribeSecret);
    let r4 = r3.add_handler("secretsmanager.GetSecretValue", Operation::GetSecretValue);
    let r5 = r4.add_handler("secretsmanager.ListSecrets", Operation::ListSecrets);
    let r6 = r5.add_handler("secretsmanager.PutSecretValue", Operation::PutSecretValue);
    let r7 = r6.add_handler("secretsmanager.UpdateSecret", Operation::UpdateSecret);
    let r8 = r7.add_handler("secretsmanager.RestoreSecret", Operation::RestoreSecret);
    let r9 = r8.add_handler("secretsmanager.TagResource", Operation::TagResource);
    let r10 = r9.add_handler("secretsmanager.UntagResource", Operation::UntagResource);
    let r11 = r10.add_handler("secretsmanager.GetRandomPassword", Operation::GetRandomPassword);
    let r12 = r11.add_handler("secretsmanager.ListSecretVersionIds", Operation::ListSecretVersionIds);
    let r13 = r12.add_handler("secretsmanager.UpdateSecretVersionStage", Operation::UpdateSecretVersionStage);
    let r14 = r13.add_handler("secretsmanager.BatchGetSecretValue", Operation::BatchGetSecretValue);
    proof {
        reveal_strlit("secretsmanager.CreateSecret");
        reveal_strlit("secretsmanager.DeleteSecret");
        reveal_strlit("secretsmanager.DescribeSecret");
        reveal_strlit("secretsmanager.GetSecretValue");
        reveal_strlit("secretsmanager.ListSecrets");
        reveal_strlit("secretsmanager.PutSecretValue");
        reveal_strlit("secretsmanager.UpdateSecret");
        reveal_strlit("secretsmanager.RestoreSecret");
        reveal_strlit("secretsmanager.TagResource");
        reveal_strlit("secretsmanager.UntagResource");
        reveal_strlit("secretsmanager.GetRandomPassword");
        reveal_strlit("secretsmanager.ListSecretVersionIds");
        reveal_strlit("secretsmanager.UpdateSecretVersionStage");
        reveal_strlit("secretsmanager.BatchGetSecretValue");
        assert("secretsmanager.CreateSecret"@.len() == 27 && "secretsmanager.CreateSecret"@[15] == 'C');
        assert("secretsmanager.DeleteSecret"@.len() == 27 && "secretsmanager.DeleteSecret"@[15] == 'D');
        assert("secretsmanager.DescribeSecret"@.len() == 29 && "secretsmanager.DescribeSecret"@[15] == 'D');
        assert("secretsmanager.GetSecretValue"@.len() == 29 && "secretsmanager.GetSecretValue"@[15] == 'G');
        assert("secretsmanager.ListSecrets"@.len() == 26 && "secretsmanager.ListSecrets"@[15] == 'L');
        assert("secretsmanager.PutSecretValue"@.len() == 29 && "secretsmanager.PutSecretValue"@[15] == 'P');
        assert("secretsmanager.UpdateSecret"@.len() == 27 && "secretsmanager.UpdateSecret"@[15] == 'U');
        assert("secretsmanager.RestoreSecret"@.len() == 28 && "secretsmanager.RestoreSecret"@[15] == 'R');
        assert("secretsmanager.TagResource"@.len() == 26 && "secretsmanager.TagResource"@[15] == 'T');
        assert("secretsmanager.UntagResource"@.len() == 28 && "secretsmanager.UntagResource"@[15] == 'U');
        assert("secretsmanager.GetRandomPassword"@.len() == 32 && "secretsmanager.GetRandomPassword"@[15] == 'G');
        assert("secretsmanager.ListSecretVersionIds"@.len() == 35 && "secretsmanager.ListSecretVersionIds"@[15] == 'L');
        assert("secretsmanager.UpdateSecretVersionStage"@.len() == 39 && "secretsmanager.UpdateSecretVersionStage"@[15] == 'U');
        assert("secretsmanager.BatchGetSecretValue"@.len() == 34 && "secretsmanager.BatchGetSecretValue"@[15] == 'B');
        assert forall|t: Seq<char>| #[trigger] r14.spec_get(t) == target_operation(t) by {
            assert(r14.spec_get(t) == if t == "secretsmanager.BatchGetSecretValue"@ { Some(Operation::BatchGetSecretValue) } else { r13.spec_get(t) });
            assert(r13.spec_get(t) == if t == "secretsmanager.UpdateSecretVersionStage"@ { Some(Operation::UpdateSecretVersionStage) } else { r12.spec_get(t) });
            assert(r12.spec_get(t) == if t == "secretsmanager.ListSecretVersionIds"@ { Some(Operation::ListSecretVersionIds) } else { r11.spec_get(t) });
            assert(r11.spec_get(t) == if t == "secretsmanager.GetRandomPassword"@ { Some(Operation::GetRandomPassword) } else { r10.spec_get(t) });
            assert(r10.spec_get(t) == if t == "secretsmanager.UntagResource"@ { Some(Operation::UntagResource) } else { r9.spec_get(t) });
            assert(r9.spec_get(t) == if t == "secretsmanager.TagResource"@ { Some(Operation::TagResource) } else { r8.spec_get(t) });
            assert(r8.spec_get(t) == if t == "secretsmanager.RestoreSecret"@ { Some(Operation::RestoreSecret) } else { r7.spec_get(t) });
            assert(r7.spec_get(t) == if t == "secretsmanager.UpdateSecret"@ { Some(Operation::UpdateSecret) } else { r6.spec_get(t) });
            assert(r6.spec_get(t) == if t == "secretsmanager.PutSecretValue"@ { Some(Operation::PutSecretValue) } else { r5.spec_get(t) });
            assert(r5.spec_get(t) == if t == "secretsmanager.ListSecrets"@ { Some(Operation::ListSecrets) } else { r4.spec_get(t) });
            assert(r4.spec_get(t) == if t == "secretsmanager.GetSecretValue"@ { Some(Operation::GetSecretValue) } else { r3.spec_get(t) });
            assert(r3.spec_get(t) == if t == "secretsmanager.DescribeSecret"@ { Some(Operation::DescribeSecret) } else { r2.spec_get(t) });
            assert(r2.spec_get(t) == if t == "secretsmanager.DeleteSecret"@ { Some(Operation::DeleteSecret) } else { r1.spec_get(t) });
            assert(r1.spec_get(t) == if t == "secretsmanager.CreateSecret"@ { Some(Operation::CreateSecret) } else { r0.spec_get(t) });
        }
    }
    r14
}

/// Which handler answers a request: one without an `x-amz-target` header is
/// `InvalidRequestException`, one whose target no handler answers is
/// `NotImplemented`.
pub fn route(router: &HandlerRouter, target: Option<&str>) -> (r: Result<Operation, AwsErrorKind>)
    ensures
        match target {
            None => r == Err::<Operation, AwsErrorKind>(AwsErrorKind::InvalidRequestException),
            Some(t) => match router.spec_get(t@) {
                Some(op) => r == Ok::<Operation, AwsErrorKind>(op),
                None => r == Err::<Operation, AwsErrorKind>(AwsErrorKind::NotImplemented),
            },
        },
{
    match target {
        None => Err(AwsErrorKind::InvalidRequestException),
        Some(t) => match router.get_handler(t) {
            Some(op) => Ok(op),
            None => Err(AwsErrorKind::NotImplemented),
        },
    }
}

} // verus!
