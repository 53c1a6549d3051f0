//! Time-limited links: for how long a signed link to a stored object stays
//! valid, and the request that is handed to the signer.

use vstd::prelude::*;
use crate::text::{chars_of, string_of};

verus! {

/// Longest lifetime of a signed link, in hours: seven days.
pub const MAX_EXPIRY_HOURS: u64 = 168;

/// Lifetime of a link where none is asked for: the longest there is.
pub const DEFAULT_EXPIRY_HOURS: u64 = 168;

/// Number of seconds in an hour.
pub const SECONDS_PER_HOUR: u64 = 3600;

/// Longest lifetime that the signer accepts, in seconds: one week.
pub const SIGNER_LIMIT_SECS: u64 = 604800;

/// The signer's configuration of aws-sdk-s3, which is carried through as it is.
#[verifier::external_type_specification]
#[verifier::external_body]
pub struct ExPresigningConfig(aws_sdk_s3::presigning::PresigningConfig);

/// The error with which aws-sdk-s3 refuses a lifetime.
#[verifier::external_type_specification]
#[verifier::external_body]
pub struct ExPresigningConfigError(aws_sdk_s3::presigning::PresigningConfigError);

/// The lifetime granted for a requested one, in hours: the request itself,
/// capped at [`MAX_EXPIRY_HOURS`]. A request above the cap is not refused.
pub open spec fn clamped_hours(requested: u64) -> u64 {
    if requested > MAX_EXPIRY_HOURS {
        MAX_EXPIRY_HOURS
    } else {
        requested
    }
}

/// The lifetime granted for a requested one, in seconds.
pub open spec fn expiry_secs(requested_hours: u64) -> nat {
    (clamped_hours(requested_hours) * SECONDS_PER_HOUR) as nat
}

/// Caps a requested lifetime at [`MAX_EXPIRY_HOURS`].
pub fn clamp_expiry_hours(requested: u64) -> (hours: u64)
    ensures
        hours == clamped_hours(requested),
        hours <= MAX_EXPIRY_HOURS,
{
    if requested > MAX_EXPIRY_HOURS {
        MAX_EXPIRY_HOURS
    } else {
        requested
    }
}

/// The lifetime in seconds that is granted for `requested_hours`.
pub fn expiry_seconds(requested_hours: u64) -> (secs: u64)
    ensures
        secs == expiry_secs(requested_hours),
        secs <= SIGNER_LIMIT_SECS,
{
    clamp_expiry_hours(requested_hours) * SECONDS_PER_HOUR
}

/// `PresigningConfig::expires_in` of aws-sdk-s3, given a duration of `secs`
/// whole seconds. It fails exactly where the duration is longer than one
/// week. The configuration it returns also holds the time of the call, so
/// nothing more is said of it.
#[verifier::external_body]
fn presigning_config(secs: u64) -> (result: Result<
    aws_sdk_s3::presigning::PresigningConfig,
    aws_sdk_s3::presigning::PresigningConfigError,
>)
    ensures
        result is Ok <==> secs <= SIGNER_LIMIT_SECS,
{
    aws_sdk_s3::presigning::PresigningConfig::expires_in(std::time::Duration::from_secs(secs))
}

/// What is handed to the signer for one link.
pub struct PresignRequest {
    pub bucket: String,
    pub key: String,
    /// Lifetime of the link in seconds.
    pub expires_in_secs: u64,
    /// The signer's configuration, made for `expires_in_secs` seconds.
    pub config: aws_sdk_s3::presigning::PresigningConfig,
}

/// The request for a link to `key` in `bucket` that stays valid for
/// `expiry_hours` hours, or for [`MAX_EXPIRY_HOURS`] where more is asked.
/// Every lifetime is served: none makes the signer's configuration fail.
pub fn presign_request(bucket: &str, key: &str, expiry_hours: u64) -> (request: PresignRequest)
    ensures
        request.bucket@ == bucket@,
        request.key@ == key@,
        request.expires_in_secs == expiry_secs(expiry_hours),
{
    let secs = expiry_seconds(expiry_hours);
    let config = presigning_config(secs).unwrap();
    PresignRequest {
        bucket: string_of(&chars_of(bucket)),
        key: string_of(&chars_of(key)),
        expires_in_secs: secs,
        config,
    }
}

/// The request for a link of the default lifetime.
pub fn default_presign_request(bucket: &str, key: &str) -> (request: PresignRequest)
    ensures
        request.bucket@ == bucket@,
        request.key@ == key@,
        request.expires_in_secs == MAX_EXPIRY_HOURS * SECONDS_PER_HOUR,
{
    presign_request(bucket, key, DEFAULT_EXPIRY_HOURS)
}

/// No link outlives seven days, and a lifetime within that limit is granted
/// as asked.
pub proof fn lemma_expiry_is_capped(requested_hours: u64)
    ensures
        expiry_secs(requested_hours) <= SIGNER_LIMIT_SECS,
        requested_hours <= MAX_EXPIRY_HOURS ==> expiry_secs(requested_hours) == requested_hours
            * SECONDS_PER_HOUR,
        requested_hours >= MAX_EXPIRY_HOURS ==> expiry_secs(requested_hours) == SIGNER_LIMIT_SECS,
{
}

} // verus!
