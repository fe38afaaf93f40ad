# openstack_services

Local emulations of seven AWS services (SQS, SNS, S3, Route 53, Redshift,
SES and Secrets Manager), written in Verus. Each service's request
handling is proved against a specification of what it answers and how it
changes its store.

## Layout

- `src/`: the verified library.
  - `http.rs`, `strmap.rs`, `text.rs`, `query.rs`, `json.rs`, `seqs.rs`,
    `order.rs`: requests and responses, an insertion-ordered string map,
    text and XML escaping, query and form parameters, JSON output.
  - `deps.rs`: the calls into outside crates (clock, UUIDs, digests, hex,
    JSON parsing), each with the contract it is trusted to meet.
  - One store module and one request module per service: `sqs`/`sqs_api`,
    `sns`/`sns_api`, `ses`/`ses_api`, `redshift`/`redshift_api`,
    `route53`/`route53_api`, `secretsmanager`/`secretsmanager_api`.
  - S3: `s3` (the store), `s3_api` and `s3_rest` (paths, keys, responses),
    `s3_buckets`, `s3_objects`, `s3_listing`, `s3_notify`, `s3_paths`, and
    `s3_dispatch`, which routes a request and hands back the file work it
    needs.
  - `laws.rs`: properties across requests (what a read gives back after a
    write, what a delete leaves, invariants every request keeps).
- `tests/`: tests that run the library on concrete requests.
- `app/`: the runtime around it: per-account stores behind locks, object
  files on disk, and delivery of S3 bucket notifications.

Each request module has a `dispatch_at` that takes the request id, the
fresh ids and the time as arguments and has an exact contract, and a
`dispatch` that draws them from the clock and the UUID generator.
