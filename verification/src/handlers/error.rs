use vstd::prelude::*;

verus! {

/// The kinds of error responses that the server answers with.
#[derive(PartialEq, Eq, Structural, Clone, Copy, Debug)]
pub enum AwsErrorKind {
    InvalidClientTokenId,
    SignatureDoesNotMatch,
    MissingAuthenticationToken,
    IncompleteSignature,
    InvalidRequestException,
    InvalidParameterException,
    ResourceNotFoundException,
    ResourceExistsException,
    NotImplemented,
    InternalServiceError,
}

impl AwsErrorKind {
    /// The HTTP status: 403 for credential and signature errors, 400 otherwise.
    pub open spec fn spec_status_code(self) -> u16 {
        match self {
            AwsErrorKind::InvalidClientTokenId => 403,
            AwsErrorKind::SignatureDoesNotMatch => 403,
            _ => 400,
        }
    }

    /// The `__type` / `x-amzn-errortype` value.
    pub open spec fn spec_error_type(self) -> Seq<char> {
        match self {
            AwsErrorKind::InvalidClientTokenId => "InvalidClientTokenId"@,
            AwsErrorKind::SignatureDoesNotMatch => "SignatureDoesNotMatch"@,
            AwsErrorKind::MissingAuthenticationToken => "MissingAuthenticationToken"@,
            AwsErrorKind::IncompleteSignature => "IncompleteSignature"@,
            AwsErrorKind::InvalidRequestException => "InvalidRequestException"@,
            AwsErrorKind::InvalidParameterException => "InvalidParameterException"@,
            AwsErrorKind::ResourceNotFoundException => "ResourceNotFoundException"@,
            AwsErrorKind::ResourceExistsException => "ResourceExistsException"@,
            AwsErrorKind::NotImplemented => "ResourceExistsException"@,
            AwsErrorKind::InternalServiceError => "InternalServiceError"@,
        }
    }

    /// The human readable message of the error.
    pub open spec fn spec_message(self) -> Seq<char> {
        match self {
            AwsErrorKind::InvalidClientTokenId => "The X.509 certificate or AWS access key ID provided does not exist in our records."@,
            AwsErrorKind::SignatureDoesNotMatch => "The request signature we calculated does not match the signature you provided. Check your AWS Secret Access Key and signing method. Consult the service documentation for details."@,
            AwsErrorKind::MissingAuthenticationToken => "Missing Authentication Token"@,
            AwsErrorKind::IncompleteSignature => "The request signature does not conform to AWS standards."@,
            AwsErrorKind::InvalidRequestException => "A parameter value is not valid for the current state of the resource."@,
            AwsErrorKind::InvalidParameterException => "The parameter name or value is invalid."@,
            AwsErrorKind::ResourceNotFoundException => "Secrets Manager can't find the resource that you asked for."@,
            AwsErrorKind::ResourceExistsException => "A resource with the ID you requested already exists."@,
            AwsErrorKind::NotImplemented => "This operation is not implemented in this server"@,
            AwsErrorKind::InternalServiceError => "An error occurred on the server side."@,
        }
    }

    pub fn status_code(&self) -> (r: u16)
        ensures
            r == self.spec_status_code(),
    {
        match self {
            AwsErrorKind::InvalidClientTokenId => 403,
            AwsErrorKind::SignatureDoesNotMatch => 403,
            _ => 400,
        }
    }

    pub fn error_type(&self) -> (r: &'static str)
        ensures
            r@ == self.spec_error_type(),
    {
        match self {
            AwsErrorKind::InvalidClientTokenId => "InvalidClientTokenId",
            AwsErrorKind::SignatureDoesNotMatch => "SignatureDoesNotMatch",
            AwsErrorKind::MissingAuthenticationToken => "MissingAuthenticationToken",
            AwsErrorKind::IncompleteSignature => "IncompleteSignature",
            AwsErrorKind::InvalidRequestException => "InvalidRequestException",
            AwsErrorKind::InvalidParameterException => "InvalidParameterException",
            AwsErrorKind::ResourceNotFoundException => "ResourceNotFoundException",
            AwsErrorKind::ResourceExistsException => "ResourceExistsException",
            AwsErrorKind::NotImplemented => "ResourceExistsException",
            AwsErrorKind::InternalServiceError => "InternalServiceError",
        }
    }

    pub fn message(&self) -> (r: &'static str)
        ensures
            r@ == self.spec_message(),
    {
        match self {
            AwsErrorKind::InvalidClientTokenId => "The X.509 certificate or AWS access key ID provided does not exist in our records.",
            AwsErrorKind::SignatureDoesNotMatch => "The request signature we calculated does not match the signature you provided. Check your AWS Secret Access Key and signing method. Consult the service documentation for details.",
            AwsErrorKind::MissingAuthenticationToken => "Missing Authentication Token",
            AwsErrorKind::IncompleteSignature => "The request signature does not conform to AWS standards.",
            AwsErrorKind::InvalidRequestException => "A parameter value is not valid for the current state of the resource.",
            AwsErrorKind::InvalidParameterException => "The parameter name or value is invalid.",
            AwsErrorKind::ResourceNotFoundException => "Secrets Manager can't find the resource that you asked for.",
            AwsErrorKind::ResourceExistsException => "A resource with the ID you requested already exists.",
            AwsErrorKind::NotImplemented => "This operation is not implemented in this server",
            AwsErrorKind::InternalServiceError => "An error occurred on the server side.",
        }
    }
}

/// An error that the server answers with, identified by its kind.
pub trait AwsError {
    fn kind(&self) -> AwsErrorKind;
}

pub struct InvalidClientTokenId;

pub struct SignatureDoesNotMatch;

pub struct MissingAuthenticationToken;

pub struct IncompleteSignature;

pub struct InvalidRequestException;

pub struct InvalidParameterException;

pub struct ResourceNotFoundException;

pub struct ResourceExistsException;

pub struct NotImplemented;

pub struct InternalServiceError;

impl AwsError for InvalidClientTokenId {
    fn kind(&self) -> (k: AwsErrorKind)
        ensures
            k == AwsErrorKind::InvalidClientTokenId,
    {
        AwsErrorKind::InvalidClientTokenId
    }
}

impl AwsError for SignatureDoesNotMatch {
    fn kind(&self) -> (k: AwsErrorKind)
        ensures
            k == AwsErrorKind::SignatureDoesNotMatch,
    {
        AwsErrorKind::SignatureDoesNotMatch
    }
}

impl AwsError for MissingAuthenticationToken {
    fn kind(&self) -> (k: AwsErrorKind)
        ensures
            k == AwsErrorKind::MissingAuthenticationToken,
    {
        AwsErrorKind::MissingAuthenticationToken
    }
}

impl AwsError for IncompleteSignature {
    fn kind(&self) -> (k: AwsErrorKind)
        ensures
            k == AwsErrorKind::IncompleteSignature,
    {
        AwsErrorKind::IncompleteSignature
    }
}

impl AwsError for InvalidRequestException {
    fn kind(&self) -> (k: AwsErrorKind)
        ensures
            k == AwsErrorKind::InvalidRequestException,
    {
        AwsErrorKind::InvalidRequestException
    }
}

impl AwsError for InvalidParameterException {
    fn kind(&self) -> (k: AwsErrorKind)
        ensures
            k == AwsErrorKind::InvalidParameterException,
    {
        AwsErrorKind::InvalidParameterException
    }
}

impl AwsError for ResourceNotFoundException {
    fn kind(&self) -> (k: AwsErrorKind)
        ensures
            k == AwsErrorKind::ResourceNotFoundException,
    {
        AwsErrorKind::ResourceNotFoundException
    }
}

impl AwsError for ResourceExistsException {
    fn kind(&self) -> (k: AwsErrorKind)
        ensures
            k == AwsErrorKind::ResourceExistsException,
    {
        AwsErrorKind::ResourceExistsException
    }
}

impl AwsError for NotImplemented {
    fn kind(&self) -> (k: AwsErrorKind)
        ensures
            k == AwsErrorKind::NotImplemented,
    {
        AwsErrorKind::NotImplemented
    }
}

impl AwsError for InternalServiceError {
    fn kind(&self) -> (k: AwsErrorKind)
        ensures
            k == AwsErrorKind::InternalServiceError,
    {
        AwsErrorKind::InternalServiceError
    }
}

} // verus!
