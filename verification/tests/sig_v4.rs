use loker::handlers::error::AwsErrorKind;
use loker::middleware::aws_sig_v4::{parse_auth_header, AuthHeaderError, AwsCredential, AwsSigV4AuthLayer};
use loker::utils::aws_sig_v4::{aws_sig_v4, canonicalize_query, create_canonical_request, hash_hex, RequestHead};
use loker::utils::encoding::{aws_uri_encode, hex_encode};

fn iam_list_users_head() -> RequestHead {
    RequestHead {
        method: "GET".to_string(),
        path: "/".to_string(),
        query: Some("Version=2010-05-08&Action=ListUsers".to_string()),
        headers: vec![
            ("Host".to_string(), Some("iam.amazonaws.com".to_string())),
            (
                "Content-Type".to_string(),
                Some("application/x-www-form-urlencoded; charset=utf-8".to_string()),
            ),
            ("X-Amz-Date".to_string(), Some("20150830T123600Z".to_string())),
        ],
    }
}

const IAM_CANONICAL_REQUEST: &str = "GET\n/\nAction=ListUsers&Version=2010-05-08\ncontent-type:application/x-www-form-urlencoded; charset=utf-8\nhost:iam.amazonaws.com\nx-amz-date:20150830T123600Z\n\ncontent-type;host;x-amz-date\ne3b0c44298fc1c149afbf4c8996fb92427ae41e4649b934ca495991b7852b855";

#[test]
fn test_hash_hex_of_empty_payload() {
    assert_eq!(
        hash_hex(b""),
        "e3b0c44298fc1c149afbf4c8996fb92427ae41e4649b934ca495991b7852b855"
    );
    assert_eq!(
        hash_hex(b"abc"),
        "ba7816bf8f01cfea414140de5dae2223b00361a396177a9cb410ff61f20015ad"
    );
}

#[test]
fn test_hex_encode_is_lowercase_pairs() {
    assert_eq!(hex_encode(&[0x00, 0x0f, 0xa0, 0xff]), "000fa0ff");
    assert_eq!(hex_encode(&[]), "");
}

#[test]
fn test_uri_encode() {
    assert_eq!(aws_uri_encode("AZaz09-._~", true), "AZaz09-._~");
    assert_eq!(aws_uri_encode("a b/c", false), "a%20b/c");
    assert_eq!(aws_uri_encode("a b/c", true), "a%20b%2Fc");
    assert_eq!(aws_uri_encode("é", true), "%C3%A9");
    assert_eq!(aws_uri_encode("=&+", true), "%3D%26%2B");
}

#[test]
fn test_canonicalize_query_sorts_and_encodes() {
    assert_eq!(canonicalize_query("b=2&a=1"), "a=1&b=2");
    assert_eq!(canonicalize_query("a=2&b=x y&a=1"), "a=2&a=1&b=x%20y");
    assert_eq!(canonicalize_query("flag"), "flag=");
    assert_eq!(canonicalize_query(""), "=");
}

#[test]
fn test_create_canonical_request() {
    let signed = vec!["content-type".to_string(), "host".to_string(), "x-amz-date".to_string()];
    let canonical = create_canonical_request(&signed, &iam_list_users_head(), b"");
    assert_eq!(canonical, IAM_CANONICAL_REQUEST);
}

#[test]
fn test_aws_sig_v4_reference_signature() {
    let signature = aws_sig_v4(
        "20150830",
        "20150830T123600Z",
        "us-east-1",
        "iam",
        IAM_CANONICAL_REQUEST,
        "wJalrXUtnFEMI/K7MDENG+bPxRfiCYEXAMPLEKEY",
    );
    assert_eq!(signature, "5d672d79c15b13162d9279b0855cfba6789a8edb4c82c400e06b5924a6f2b5d7");
}

#[test]
fn test_parse_auth_header() {
    let auth = parse_auth_header(
        "AWS4-HMAC-SHA256 Credential=AKIDEXAMPLE/20150830/us-east-1/iam/aws4_request, SignedHeaders=content-type;host;x-amz-date, Signature=5d672d79c15b13162d9279b0855cfba6789a8edb4c82c400e06b5924a6f2b5d7",
    )
    .ok()
    .unwrap();
    assert_eq!(auth.credential, "AKIDEXAMPLE/20150830/us-east-1/iam/aws4_request");
    assert_eq!(auth.signed_headers, vec!["content-type", "host", "x-amz-date"]);
    assert_eq!(auth.signature, "5d672d79c15b13162d9279b0855cfba6789a8edb4c82c400e06b5924a6f2b5d7");
}

#[test]
fn test_parse_auth_header_errors() {
    assert_eq!(
        parse_auth_header("AWS4-HMAC-SHA1 Credential=a").err(),
        Some(AuthHeaderError::UnsupportedAlgorithm)
    );
    assert_eq!(parse_auth_header("AWS4-HMAC-SHA256").err(), Some(AuthHeaderError::InvalidHeader));
    assert_eq!(
        parse_auth_header("AWS4-HMAC-SHA256 Credential").err(),
        Some(AuthHeaderError::InvalidKeyValue)
    );
    assert_eq!(
        parse_auth_header("AWS4-HMAC-SHA256 SignedHeaders=host, Signature=abc").err(),
        Some(AuthHeaderError::MissingCredential)
    );
    assert_eq!(
        parse_auth_header("AWS4-HMAC-SHA256 Credential=a, Signature=abc").err(),
        Some(AuthHeaderError::MissingSignedHeaders)
    );
    assert_eq!(
        parse_auth_header("AWS4-HMAC-SHA256 Credential=a, SignedHeaders=host").err(),
        Some(AuthHeaderError::MissingSignature)
    );
}

fn example_middleware() -> loker::middleware::aws_sig_v4::AwsSigV4AuthMiddleware<()> {
    let layer = AwsSigV4AuthLayer::new(AwsCredential {
        access_key_id: "AKIDEXAMPLE".to_string(),
        access_key_secret: "wJalrXUtnFEMI/K7MDENG+bPxRfiCYEXAMPLEKEY".to_string(),
    });
    layer.layer(())
}

const IAM_AUTHORIZATION: &str = "AWS4-HMAC-SHA256 Credential=AKIDEXAMPLE/20150830/us-east-1/iam/aws4_request, SignedHeaders=content-type;host;x-amz-date, Signature=5d672d79c15b13162d9279b0855cfba6789a8edb4c82c400e06b5924a6f2b5d7";

#[test]
fn test_signed_request_is_accepted() {
    let middleware = example_middleware();
    let pending = middleware
        .check_head(
            &Some(Some(IAM_AUTHORIZATION.to_string())),
            &Some(Some("20150830T123600Z".to_string())),
        )
        .ok()
        .unwrap();
    assert_eq!(pending.date_yyyymmdd, "20150830");
    assert_eq!(pending.region, "us-east-1");
    assert_eq!(pending.service, "iam");
    assert_eq!(middleware.check_signature(&pending, &iam_list_users_head(), b""), Ok(()));
}

#[test]
fn test_tampered_request_is_refused() {
    let middleware = example_middleware();
    let pending = middleware
        .check_head(
            &Some(Some(IAM_AUTHORIZATION.to_string())),
            &Some(Some("20150830T123600Z".to_string())),
        )
        .ok()
        .unwrap();
    let mut head = iam_list_users_head();
    head.query = Some("Action=DeleteUser&Version=2010-05-08".to_string());
    assert_eq!(
        middleware.check_signature(&pending, &head, b""),
        Err(AwsErrorKind::SignatureDoesNotMatch)
    );
    assert_eq!(
        middleware.check_signature(&pending, &iam_list_users_head(), b"body"),
        Err(AwsErrorKind::SignatureDoesNotMatch)
    );
}

#[test]
fn test_check_head_errors() {
    let middleware = example_middleware();
    let date = Some(Some("20150830T123600Z".to_string()));
    assert_eq!(
        middleware.check_head(&None, &date).err(),
        Some(AwsErrorKind::MissingAuthenticationToken)
    );
    assert_eq!(
        middleware.check_head(&Some(None), &date).err(),
        Some(AwsErrorKind::InvalidRequestException)
    );
    assert_eq!(
        middleware
            .check_head(&Some(Some(IAM_AUTHORIZATION.to_string())), &None)
            .err(),
        Some(AwsErrorKind::InvalidRequestException)
    );
    assert_eq!(
        middleware
            .check_head(&Some(Some("Basic abc".to_string())), &date)
            .err(),
        Some(AwsErrorKind::IncompleteSignature)
    );
    assert_eq!(
        middleware
            .check_head(
                &Some(Some(
                    "AWS4-HMAC-SHA256 Credential=AKIDEXAMPLE/20150830/us-east-1, SignedHeaders=host, Signature=abc"
                        .to_string()
                )),
                &date
            )
            .err(),
        Some(AwsErrorKind::IncompleteSignature)
    );
    assert_eq!(
        middleware
            .check_head(
                &Some(Some(
                    "AWS4-HMAC-SHA256 Credential=OTHER/20150830/us-east-1/iam/aws4_request, SignedHeaders=host, Signature=abc"
                        .to_string()
                )),
                &date
            )
            .err(),
        Some(AwsErrorKind::InvalidClientTokenId)
    );
}
