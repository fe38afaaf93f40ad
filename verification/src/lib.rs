//! Verified data models and request handling for a set of emulated cloud
//! services: queues, notification topics, object storage, DNS zones and
//! more.
use vstd::prelude::*;

pub mod deps;
pub mod http;
pub mod json;
pub mod laws;
pub mod order;
pub mod query;
pub mod redshift;
pub mod redshift_api;
pub mod route53;
pub mod route53_api;
pub mod s3;
pub mod s3_api;
pub mod s3_buckets;
pub mod s3_dispatch;
pub mod s3_listing;
pub mod s3_notify;
pub mod s3_paths;
pub mod s3_objects;
pub mod s3_rest;
pub mod secretsmanager;
pub mod secretsmanager_api;
pub mod seqs;
pub mod ses;
pub mod ses_api;
pub mod sns;
pub mod sns_api;
pub mod sqs;
pub mod sqs_api;
pub mod strmap;
pub mod text;

verus! {
} // verus!
