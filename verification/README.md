# Loker

A self-hosted server compatible with the AWS Secrets Manager API, for
integration and end-to-end tests. Secrets live in an encrypted SQLite
database; every request must carry an AWS SigV4 signature.

## Layout

- `src/` is the verified library (Verus):
  - `utils/` — AWS SigV4 canonical requests and signatures, AWS URI encoding,
    query canonicalisation with a stable sort, search term splitting, decimal
    text and joining.
  - `middleware/` — the checks of the signing headers and of the signature.
  - `handlers/` — request validation, the routing of `x-amz-target`, and one
    state machine per API operation: from a request and the replies of the
    database to the database calls to make and the final answer.
  - `database/` — the calls the handlers make and the replies they get.
  - `background/` — the scheduler of the hourly purges.
- `app/` is the server around it: HTTP (axum), the SQL of the store (sqlx),
  JSON (serde), the clock and the background loop.
- `tests/` runs the library on concrete values.

## Environment Variables

| Name                      | Required                                           | Description                                            |
| ------------------------- | -------------------------------------------------- | ------------------------------------------------------ |
| SM_ENCRYPTION_KEY         | Yes                                                | Encryption key to encrypt the database with            |
| SM_DATABASE_PATH          | No (Default: secrets.db)                           | Path to the file where the database should be stored   |
| SM_ACCESS_KEY_ID          | Yes                                                | Access key ID to use the server for AWS SigV4          |
| SM_ACCESS_KEY_SECRET      | Yes                                                | Access key secret to use the server for AWS SigV4      |
| SM_SERVER_ADDRESS         | No (Default: HTTP=0.0.0.0:8080 HTTPS=0.0.0.0:8443) | Socket address to bind the server to                   |
| SM_USE_HTTPS              | No (Default: false)                                | Whether to use HTTPS instead of HTTP                   |
| SM_HTTPS_CERTIFICATE_PATH | No (Default: sm.cert.pem)                          | Path to the certificate in PEM format to use for HTTPS |
| SM_HTTPS_PRIVATE_KEY_PATH | No (Default: sm.key.pem)                           | Path to the private key in PEM format to use for HTTPS |
