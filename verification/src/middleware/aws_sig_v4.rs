use std::sync::Arc;

use vstd::prelude::*;

use crate::handlers::error::AwsErrorKind;
use crate::utils::aws_sig_v4::{
    aws_sig_v4, create_canonical_request, is_canonical_request, spec_signature, RequestHead,
};
use crate::utils::filter::strings_view;
use crate::utils::split::{split_by, split_chars, split_once, split_once_chars};
use crate::utils::text::{chars_of, string_from_chars, str_eq};

verus! {

broadcast use vstd::seq_lib::group_seq_properties;

/// The access key that requests must be signed with.
pub struct AwsCredential {
    pub access_key_id: String,
    pub access_key_secret: String,
}

/// Middleware provider layer
pub struct AwsSigV4AuthLayer {
    pub credentials: Arc<AwsCredential>,
}

impl AwsSigV4AuthLayer {
    pub fn new(credentials: AwsCredential) -> (r: Self)
        ensures
            *r.credentials == credentials,
    {
        Self { credentials: Arc::new(credentials) }
    }

    /// Wraps `inner` in the middleware that checks signatures with these credentials.
    pub fn layer<S>(&self, inner: S) -> (r: AwsSigV4AuthMiddleware<S>)
        ensures
            r.inner == inner,
            *r.credentials == *self.credentials,
    {
        AwsSigV4AuthMiddleware { inner, credentials: self.credentials.clone() }
    }
}

/// Middleware structure
pub struct AwsSigV4AuthMiddleware<S> {
    pub inner: S,
    pub credentials: Arc<AwsCredential>,
}

/// Parsed AWS SigV4 header
pub struct AwsSigV4Auth {
    pub credential: String,
    pub signed_headers: Vec<String>,
    pub signature: String,
}

/// Why an `Authorization` header could not be read.
#[derive(PartialEq, Eq, Structural, Clone, Copy, Debug)]
pub enum AuthHeaderError {
    InvalidHeader,
    UnsupportedAlgorithm,
    InvalidKeyValue,
    MissingCredential,
    MissingSignedHeaders,
    MissingSignature,
}

/// The value of the last `key=value` item named `key`, if any.
pub open spec fn last_value(items: Seq<Seq<char>>, key: Seq<char>) -> Option<Seq<char>>
    decreases items.len(),
{
    if items.len() == 0 {
        None
    } else {
        let (k, v) = split_once(items.last(), '=');
        if k == key && v is Some {
            v
        } else {
            last_value(items.drop_last(), key)
        }
    }
}

proof fn lemma_last_value_step(items: Seq<Seq<char>>, i: int, key: Seq<char>)
    requires
        0 <= i < items.len(),
    ensures
        last_value(items.take(i + 1), key) == (if split_once(items[i], '=').0 == key && split_once(
            items[i],
            '=',
        ).1 is Some {
            split_once(items[i], '=').1
        } else {
            last_value(items.take(i), key)
        }),
{
    let t = items.take(i + 1);
    assert(t.drop_last() =~= items.take(i));
    assert(t.last() == items[i]);
}

/// Some item of the list has no `=`.
pub open spec fn has_item_without_value(items: Seq<Seq<char>>) -> bool {
    exists|i: int| 0 <= i < items.len() && (#[trigger] split_once(items[i], '=')).1 is None
}

/// What an `Authorization` header parses to: `AWS4-HMAC-SHA256`, a space, then
/// `key=value` items separated by `, ` that give the `Credential`, the
/// `SignedHeaders` (separated by `;`) and the `Signature`; a later item
/// replaces an earlier one of the same name and unknown names are ignored.
pub open spec fn spec_parse_auth_header(header: Seq<char>) -> Result<
    (Seq<char>, Seq<Seq<char>>, Seq<char>),
    AuthHeaderError,
> {
    let (algorithm, rest) = split_once(header, ' ');
    if algorithm != "AWS4-HMAC-SHA256"@ {
        Err(AuthHeaderError::UnsupportedAlgorithm)
    } else {
        match rest {
            None => Err(AuthHeaderError::InvalidHeader),
            Some(rest) => {
                let items = split_by(rest, seq![',', ' ']);
                if has_item_without_value(items) {
                    Err(AuthHeaderError::InvalidKeyValue)
                } else {
                    match (
                        last_value(items, "Credential"@),
                        last_value(items, "SignedHeaders"@),
                        last_value(items, "Signature"@),
                    ) {
                        (None, _, _) => Err(AuthHeaderError::MissingCredential),
                        (Some(_), None, _) => Err(AuthHeaderError::MissingSignedHeaders),
                        (Some(_), Some(_), None) => Err(AuthHeaderError::MissingSignature),
                        (Some(c), Some(h), Some(s)) => Ok((c, split_by(h, seq![';']), s)),
                    }
                }
            },
        }
    }
}

/// The parsed parts of an `AwsSigV4Auth`.
pub open spec fn auth_view(a: AwsSigV4Auth) -> (Seq<char>, Seq<Seq<char>>, Seq<char>) {
    (a.credential@, strings_view(a.signed_headers@), a.signature@)
}

fn strings_of(pieces: Vec<Vec<char>>) -> (r: Vec<String>)
    ensures
        strings_view(r@) == pieces@.map_values(|p: Vec<char>| p@),
{
    let mut r: Vec<String> = Vec::new();
    let mut i: usize = 0;
    while i < pieces.len()
        invariant
            i <= pieces@.len(),
            strings_view(r@) == pieces@.take(i as int).map_values(|p: Vec<char>| p@),
        decreases pieces@.len() - i,
    {
        let s = string_from_chars(pieces[i].as_slice());
        let ghost before = strings_view(r@);
        r.push(s);
        proof {
            assert(strings_view(r@) =~= before.push(s@));
            assert(pieces@.take(i + 1).map_values(|p: Vec<char>| p@) =~= pieces@.take(
                i as int,
            ).map_values(|p: Vec<char>| p@).push(pieces@[i as int]@));
        }
        i = i + 1;
    }
    proof {
        assert(pieces@.take(pieces@.len() as int) =~= pieces@);
    }
    r
}

/// Reads the parts of an `Authorization` header.
#[verifier::rlimit(40)]
pub fn parse_auth_header(header: &str) -> (r: Result<AwsSigV4Auth, AuthHeaderError>)
    ensures
        match r {
            Ok(a) => spec_parse_auth_header(header@) == Ok::<_, AuthHeaderError>(auth_view(a)),
            Err(e) => spec_parse_auth_header(header@) == Err::<(Seq<char>, Seq<Seq<char>>, Seq<char>), _>(e),
        },
{
    let cs = chars_of(header);
    let (algorithm, rest) = split_once_chars(cs.as_slice(), ' ');
    let algorithm_text = string_from_chars(algorithm.as_slice());
    if !str_eq(algorithm_text.as_str(), "AWS4-HMAC-SHA256") {
        return Err(AuthHeaderError::UnsupportedAlgorithm);
    }
    let rest = match rest {
        Some(rest) => rest,
        None => {
            return Err(AuthHeaderError::InvalidHeader);
        },
    };
    let sep: Vec<char> = vec![',', ' '];
    let items = split_chars(rest.as_slice(), sep.as_slice());
    let ghost iv = items@.map_values(|p: Vec<char>| p@);
    proof {
        assert(sep@ =~= seq![',', ' ']);
    }
    let mut credential: Option<Vec<char>> = None;
    let mut signed_headers: Option<Vec<char>> = None;
    let mut signature: Option<Vec<char>> = None;
    let mut i: usize = 0;
    while i < items.len()
        invariant
            i <= items@.len(),
            iv == items@.map_values(|p: Vec<char>| p@),
            iv == split_by(rest@, seq![',', ' ']),
            split_once(header@, ' ').0 == "AWS4-HMAC-SHA256"@,
            split_once(header@, ' ').1 == Some(rest@),
            forall|j: int| 0 <= j < i ==> (#[trigger] split_once(iv[j], '=')).1 is Some,
            match credential {
                Some(v) => last_value(iv.take(i as int), "Credential"@) == Some(v@),
                None => last_value(iv.take(i as int), "Credential"@) is None,
            },
            match signed_headers {
                Some(v) => last_value(iv.take(i as int), "SignedHeaders"@) == Some(v@),
                None => last_value(iv.take(i as int), "SignedHeaders"@) is None,
            },
            match signature {
                Some(v) => last_value(iv.take(i as int), "Signature"@) == Some(v@),
                None => last_value(iv.take(i as int), "Signature"@) is None,
            },
        decreases items@.len() - i,
    {
        let (key, value) = split_once_chars(items[i].as_slice(), '=');
        proof {
            reveal_strlit("Credential");
            reveal_strlit("SignedHeaders");
            reveal_strlit("Signature");
            assert("Credential"@.len() == 10);
            assert("SignedHeaders"@.len() == 13);
            assert("Signature"@.len() == 9);
            assert("Credential"@ != "SignedHeaders"@);
            assert("Credential"@ != "Signature"@);
            assert("SignedHeaders"@ != "Signature"@);
            assert(iv[i as int] == items@[i as int]@);
            lemma_last_value_step(iv, i as int, "Credential"@);
            lemma_last_value_step(iv, i as int, "SignedHeaders"@);
            lemma_last_value_step(iv, i as int, "Signature"@);
        }
        let value = match value {
            Some(v) => v,
            None => {
                proof {
                    assert(has_item_without_value(iv));
                    assert(spec_parse_auth_header(header@) == Err::<(Seq<char>, Seq<Seq<char>>, Seq<char>), _>(AuthHeaderError::InvalidKeyValue));
                }
                return Err(AuthHeaderError::InvalidKeyValue);
            },
        };
        let key_text = string_from_chars(key.as_slice());
        if str_eq(key_text.as_str(), "Credential") {
            credential = Some(value);
        } else if str_eq(key_text.as_str(), "SignedHeaders") {
            signed_headers = Some(value);
        } else if str_eq(key_text.as_str(), "Signature") {
            signature = Some(value);
        }
        i = i + 1;
    }
    proof {
        assert(iv.take(iv.len() as int) =~= iv);
        assert(!has_item_without_value(iv));
    }
    let credential = match credential {
        Some(v) => v,
        None => {
            return Err(AuthHeaderError::MissingCredential);
        },
    };
    let signed_headers = match signed_headers {
        Some(v) => v,
        None => {
            return Err(AuthHeaderError::MissingSignedHeaders);
        },
    };
    let signature = match signature {
        Some(v) => v,
        None => {
            return Err(AuthHeaderError::MissingSignature);
        },
    };
    let semicolon: Vec<char> = vec![';'];
    proof {
        assert(semicolon@ =~= seq![';']);
    }
    let header_names = split_chars(signed_headers.as_slice(), semicolon.as_slice());
    Ok(
        AwsSigV4Auth {
            credential: string_from_chars(credential.as_slice()),
            signed_headers: strings_of(header_names),
            signature: string_from_chars(signature.as_slice()),
        },
    )
}

/// What the server learns from the request head before it reads the body:
/// the parsed header and the parts of the credential scope.
pub struct PendingSignature {
    pub auth: AwsSigV4Auth,
    pub amz_date: String,
    pub date_yyyymmdd: String,
    pub region: String,
    pub service: String,
}

/// The parts of a credential: access key, date, region, service and the
/// terminator `aws4_request`, separated by `/`; anything after them is ignored.
pub open spec fn credential_scope_ok(parts: Seq<Seq<char>>) -> bool {
    parts.len() >= 5 && parts[4] == "aws4_request"@
}

/// The answer to a request head: which error, if any, it gets before its body
/// is read. A missing `Authorization` header is a missing token; a header that
/// is not text, and a missing or non-text `x-amz-date`, are invalid requests;
/// a header that does not parse, or a credential without its five parts, is an
/// incomplete signature; an unknown access key is an invalid client token.
pub open spec fn spec_check_head(
    access_key_id: Seq<char>,
    authorization: Option<Option<Seq<char>>>,
    amz_date: Option<Option<Seq<char>>>,
) -> Result<(Seq<char>, Seq<Seq<char>>, Seq<char>), AwsErrorKind> {
    match authorization {
        None => Err(AwsErrorKind::MissingAuthenticationToken),
        Some(None) => Err(AwsErrorKind::InvalidRequestException),
        Some(Some(header)) => match amz_date {
            Some(Some(_)) => match spec_parse_auth_header(header) {
                Err(_) => Err(AwsErrorKind::IncompleteSignature),
                Ok(parsed) => {
                    let parts = split_by(parsed.0, seq!['/']);
                    if !credential_scope_ok(parts) {
                        Err(AwsErrorKind::IncompleteSignature)
                    } else if parts[0] != access_key_id {
                        Err(AwsErrorKind::InvalidClientTokenId)
                    } else {
                        Ok(parsed)
                    }
                },
            },
            _ => Err(AwsErrorKind::InvalidRequestException),
        },
    }
}

/// The text of an optional header value.
pub open spec fn header_view(h: Option<Option<String>>) -> Option<Option<Seq<char>>> {
    match h {
        None => None,
        Some(None) => Some(None),
        Some(Some(v)) => Some(Some(v@)),
    }
}

impl<S> AwsSigV4AuthMiddleware<S> {
    /// Checks the signing headers of a request. `authorization` and `amz_date`
    /// are absent when the header is missing and `Some(None)` when its value is
    /// not visible ASCII text.
    pub fn check_head(
        &self,
        authorization: &Option<Option<String>>,
        amz_date: &Option<Option<String>>,
    ) -> (r: Result<PendingSignature, AwsErrorKind>)
        ensures
            match r {
                Ok(p) => {
                    &&& spec_check_head(
                        self.credentials.access_key_id@,
                        header_view(*authorization),
                        header_view(*amz_date),
                    ) == Ok::<_, AwsErrorKind>(auth_view(p.auth))
                    &&& amz_date == Some(Some(p.amz_date))
                    &&& {
                        let parts = split_by(p.auth.credential@, seq!['/']);
                        &&& p.date_yyyymmdd@ == parts[1]
                        &&& p.region@ == parts[2]
                        &&& p.service@ == parts[3]
                    }
                },
                Err(e) => spec_check_head(
                    self.credentials.access_key_id@,
                    header_view(*authorization),
                    header_view(*amz_date),
                ) == Err::<(Seq<char>, Seq<Seq<char>>, Seq<char>), _>(e),
            },
    {
        let authorization = match authorization {
            Some(Some(value)) => value,
            Some(None) => {
                return Err(AwsErrorKind::InvalidRequestException);
            },
            None => {
                return Err(AwsErrorKind::MissingAuthenticationToken);
            },
        };
        let amz_date = match amz_date {
            Some(Some(value)) => value,
            _ => {
                return Err(AwsErrorKind::InvalidRequestException);
            },
        };
        let auth = match parse_auth_header(authorization.as_str()) {
            Ok(value) => value,
            Err(_) => {
                return Err(AwsErrorKind::IncompleteSignature);
            },
        };
        let credential_chars = chars_of(auth.credential.as_str());
        let slash: Vec<char> = vec!['/'];
        proof {
            assert(slash@ =~= seq!['/']);
        }
        let parts = split_chars(credential_chars.as_slice(), slash.as_slice());
        let ghost pv = parts@.map_values(|p: Vec<char>| p@);
        if parts.len() < 5 {
            return Err(AwsErrorKind::IncompleteSignature);
        }
        let terminator = string_from_chars(parts[4].as_slice());
        proof {
            assert(pv[4] == parts@[4]@);
        }
        if !str_eq(terminator.as_str(), "aws4_request") {
            return Err(AwsErrorKind::IncompleteSignature);
        }
        let access_key_id = string_from_chars(parts[0].as_slice());
        proof {
            assert(pv[0] == parts@[0]@);
            assert(pv[1] == parts@[1]@);
            assert(pv[2] == parts@[2]@);
            assert(pv[3] == parts@[3]@);
        }
        if !str_eq(access_key_id.as_str(), self.credentials.access_key_id.as_str()) {
            return Err(AwsErrorKind::InvalidClientTokenId);
        }
        Ok(
            PendingSignature {
                date_yyyymmdd: string_from_chars(parts[1].as_slice()),
                region: string_from_chars(parts[2].as_slice()),
                service: string_from_chars(parts[3].as_slice()),
                amz_date: amz_date.clone(),
                auth,
            },
        )
    }

    /// Checks the signature once the body has been read: the request passes
    /// exactly when the signature it carries is the one computed from the
    /// canonical request and the secret key.
    pub fn check_signature(&self, pending: &PendingSignature, head: &RequestHead, body: &[u8]) -> (r: Result<(), AwsErrorKind>)
        ensures
            exists|canonical: Seq<char>|
                {
                    &&& is_canonical_request(strings_view(pending.auth.signed_headers@), *head, body@, canonical)
                    &&& (r is Ok <==> pending.auth.signature@ == spec_signature(
                        pending.date_yyyymmdd@,
                        pending.amz_date@,
                        pending.region@,
                        pending.service@,
                        canonical,
                        self.credentials.access_key_secret@,
                    ))
                },
            r matches Err(e) ==> e == AwsErrorKind::SignatureDoesNotMatch,
    {
        let canonical_request = create_canonical_request(pending.auth.signed_headers.as_slice(), head, body);
        let signature = aws_sig_v4(
            pending.date_yyyymmdd.as_str(),
            pending.amz_date.as_str(),
            pending.region.as_str(),
            pending.service.as_str(),
            canonical_request.as_str(),
            self.credentials.access_key_secret.as_str(),
        );
        if !str_eq(signature.as_str(), pending.auth.signature.as_str()) {
            return Err(AwsErrorKind::SignatureDoesNotMatch);
        }
        Ok(())
    }
}

} // verus!
