//! Configuration of rate limiters.

use vstd::prelude::*;

use crate::rate_limiter::{RateLimiter, TokenBucket};

verus! {

/// Configuration of a bucket of tokens.
#[derive(Debug, Clone, Copy, PartialEq, Eq, Structural)]
pub struct TokenBucketConfig {
    /// The most tokens that the bucket holds.
    pub size: u64,
    /// Extra tokens to start with.
    pub one_time_burst: Option<u64>,
    /// How long it takes to fill the bucket, in milliseconds.
    pub refill_time: u64,
}

/// Configuration of a rate limiter.
#[derive(Debug, Clone, Copy, PartialEq, Eq, Structural)]
pub struct RateLimiterConfig {
    /// Limit on bytes.
    pub bandwidth: Option<TokenBucketConfig>,
    /// Limit on operations.
    pub ops: Option<TokenBucketConfig>,
}

/// The bucket that a configuration describes. One without capacity or without refill time limits
/// nothing.
pub open spec fn bucket_of(config: Option<TokenBucketConfig>) -> Option<TokenBucket> {
    match config {
        None => None,
        Some(c) => if c.size == 0 || c.refill_time == 0 {
            None
        } else {
            let burst = match c.one_time_burst {
                Some(burst) => burst,
                None => 0,
            };
            Some(
                TokenBucket {
                    size: c.size,
                    one_time_burst: burst,
                    budget: c.size,
                    initial_one_time_burst: burst,
                    refill_time: c.refill_time,
                },
            )
        },
    }
}

/// The configuration that describes a bucket.
pub open spec fn config_of(bucket: Option<TokenBucket>) -> Option<TokenBucketConfig> {
    match bucket {
        None => None,
        Some(b) => Some(
            TokenBucketConfig {
                size: b.size,
                one_time_burst: if b.initial_one_time_burst == 0 {
                    None
                } else {
                    Some(b.initial_one_time_burst)
                },
                refill_time: b.refill_time,
            },
        ),
    }
}

/// The limiter that an optional configuration describes.
pub open spec fn limiter_of(config: Option<RateLimiterConfig>) -> RateLimiter {
    match config {
        Some(c) => RateLimiter {
            bandwidth: bucket_of(c.bandwidth),
            ops: bucket_of(c.ops),
            timer_active: false,
        },
        None => RateLimiter { bandwidth: None, ops: None, timer_active: false },
    }
}

/// The configuration of a limiter, if it limits anything.
pub open spec fn limiter_config(limiter: RateLimiter) -> Option<RateLimiterConfig> {
    if limiter.bandwidth is None && limiter.ops is None {
        None
    } else {
        Some(
            RateLimiterConfig {
                bandwidth: config_of(limiter.bandwidth),
                ops: config_of(limiter.ops),
            },
        )
    }
}

/// The bucket that a configuration describes.
pub fn build_bucket(config: Option<TokenBucketConfig>) -> (r: Option<TokenBucket>)
    ensures
        r == bucket_of(config),
{
    match config {
        None => None,
        Some(c) => {
            if c.size == 0 || c.refill_time == 0 {
                return None;
            }
            let burst: u64 = match c.one_time_burst {
                Some(burst) => burst,
                None => 0,
            };
            Some(
                TokenBucket {
                    size: c.size,
                    one_time_burst: burst,
                    budget: c.size,
                    initial_one_time_burst: burst,
                    refill_time: c.refill_time,
                },
            )
        },
    }
}

/// Builds the limiter that an optional configuration describes.
pub fn build_limiter(config: Option<RateLimiterConfig>) -> (r: RateLimiter)
    ensures
        r == limiter_of(config),
{
    match config {
        Some(c) => RateLimiter {
            bandwidth: build_bucket(c.bandwidth),
            ops: build_bucket(c.ops),
            timer_active: false,
        },
        None => RateLimiter::unlimited(),
    }
}

fn describe_bucket(bucket: Option<TokenBucket>) -> (r: Option<TokenBucketConfig>)
    ensures
        r == config_of(bucket),
{
    match bucket {
        None => None,
        Some(b) => Some(
            TokenBucketConfig {
                size: b.size,
                one_time_burst: if b.initial_one_time_burst == 0 {
                    None
                } else {
                    Some(b.initial_one_time_burst)
                },
                refill_time: b.refill_time,
            },
        ),
    }
}

/// Describes a limiter, if it limits anything.
pub fn describe_limiter(limiter: &RateLimiter) -> (r: Option<RateLimiterConfig>)
    ensures
        r == limiter_config(*limiter),
{
    if limiter.bandwidth.is_none() && limiter.ops.is_none() {
        return None;
    }
    Some(
        RateLimiterConfig {
            bandwidth: describe_bucket(limiter.bandwidth),
            ops: describe_bucket(limiter.ops),
        },
    )
}

/// The description of a limiter that was just built builds the same limiter.
pub proof fn law_limiter_round_trip(config: Option<RateLimiterConfig>)
    ensures
        limiter_of(limiter_config(limiter_of(config))) == limiter_of(config),
{
}

/// A bucket limits something only if its size and its refill time are not zero. It starts full, with
/// its burst on top, and the two buckets of a limiter are those that were asked for.
pub proof fn law_buckets_start_full(config: RateLimiterConfig)
    ensures
        ({
            let limiter = limiter_of(Some(config));
            &&& !limiter.timer_active
            &&& limiter.bandwidth is Some <==> config.bandwidth is Some && config.bandwidth->0.size
                != 0 && config.bandwidth->0.refill_time != 0
            &&& limiter.ops is Some <==> config.ops is Some && config.ops->0.size != 0
                && config.ops->0.refill_time != 0
            &&& limiter.bandwidth matches Some(b) ==> is_full(b, config.bandwidth->0)
            &&& limiter.ops matches Some(b) ==> is_full(b, config.ops->0)
        }),
        limiter_of(None).bandwidth is None,
        limiter_of(None).ops is None,
{
}

/// Whether a bucket is full and as it was asked for.
pub open spec fn is_full(b: TokenBucket, c: TokenBucketConfig) -> bool {
    &&& b.size == c.size
    &&& b.budget == c.size
    &&& b.refill_time == c.refill_time
    &&& c.one_time_burst is None ==> b.one_time_burst == 0
    &&& c.one_time_burst matches Some(burst) ==> b.one_time_burst == burst
    &&& b.initial_one_time_burst == b.one_time_burst
}

} // verus!
