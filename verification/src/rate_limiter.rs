//! Budgets of operations and of bytes that a device may spend.
//!
//! A limiter holds the budgets as of the last refill. The passage of time is not modelled here:
//! whoever owns the timer refills the buckets and unblocks the limiter.

use vstd::prelude::*;

verus! {

/// What a token pays for.
#[derive(Debug, Clone, Copy, PartialEq, Eq, Structural)]
pub enum TokenType {
    /// Bytes moved.
    Bytes,
    /// Operations performed.
    Ops,
}

/// Outcome of a request for tokens.
#[derive(Debug, Clone, Copy, PartialEq, Eq, Structural)]
pub enum BucketReduction {
    /// There are not enough tokens.
    Failure,
    /// More tokens than the bucket ever holds were asked for; the bucket was emptied.
    OverConsumption,
    /// The tokens were taken.
    Success,
}

/// Why an event of a limiter is not handled.
#[derive(Debug, Clone, Copy, PartialEq, Eq, Structural)]
pub enum RateLimiterError {
    /// The timer has not expired.
    SpuriousRateLimiterEvent,
}

/// A bucket of tokens.
#[derive(Debug, Clone, Copy, PartialEq, Eq, Structural)]
pub struct TokenBucket {
    /// The most tokens that the bucket holds.
    pub size: u64,
    /// Extra tokens that are spent first and never refilled.
    pub one_time_burst: u64,
    /// Tokens at hand.
    pub budget: u64,
    /// The burst that the bucket was made with.
    pub initial_one_time_burst: u64,
    /// How long it takes to fill the bucket, in milliseconds.
    pub refill_time: u64,
}

/// A bucket after `tokens` were asked of it, and the outcome.
pub open spec fn reduced(bucket: TokenBucket, tokens: u64) -> (TokenBucket, BucketReduction) {
    if bucket.one_time_burst >= tokens && bucket.one_time_burst > 0 {
        (
            TokenBucket {
                one_time_burst: (bucket.one_time_burst - tokens) as u64,
                ..bucket
            },
            BucketReduction::Success,
        )
    } else {
        let spent = TokenBucket { one_time_burst: 0, ..bucket };
        let rest = (tokens - bucket.one_time_burst) as u64;
        if rest <= bucket.budget {
            (
                TokenBucket { budget: (bucket.budget - rest) as u64, ..spent },
                BucketReduction::Success,
            )
        } else if rest > bucket.size {
            (TokenBucket { budget: 0, ..spent }, BucketReduction::OverConsumption)
        } else {
            (spent, BucketReduction::Failure)
        }
    }
}

/// A bucket after `tokens` were put back: into the burst while there is one, else into the
/// budget, which never grows past the size.
pub open spec fn replenished(bucket: TokenBucket, tokens: u64) -> TokenBucket {
    if bucket.one_time_burst > 0 {
        TokenBucket {
            one_time_burst: if bucket.one_time_burst + tokens <= u64::MAX {
                (bucket.one_time_burst + tokens) as u64
            } else {
                u64::MAX
            },
            ..bucket
        }
    } else {
        TokenBucket {
            budget: if bucket.budget + tokens <= bucket.size {
                (bucket.budget + tokens) as u64
            } else {
                bucket.size
            },
            ..bucket
        }
    }
}

impl TokenBucket {
    /// Takes `tokens` out of the bucket if it can.
    pub fn reduce(&mut self, tokens: u64) -> (r: BucketReduction)
        ensures
            *final(self) == reduced(*old(self), tokens).0,
            r == reduced(*old(self), tokens).1,
    {
        let mut tokens: u64 = tokens;
        if self.one_time_burst > 0 {
            if self.one_time_burst >= tokens {
                self.one_time_burst = self.one_time_burst - tokens;
                return BucketReduction::Success;
            }
            tokens = tokens - self.one_time_burst;
            self.one_time_burst = 0;
        }
        if tokens > self.budget {
            if tokens > self.size {
                self.budget = 0;
                return BucketReduction::OverConsumption;
            }
            return BucketReduction::Failure;
        }
        self.budget = self.budget - tokens;
        BucketReduction::Success
    }

    /// Puts `tokens` back.
    pub fn force_replenish(&mut self, tokens: u64)
        ensures
            *final(self) == replenished(*old(self), tokens),
    {
        if self.one_time_burst > 0 {
            self.one_time_burst = self.one_time_burst.saturating_add(tokens);
            return;
        }
        let sum: u64 = self.budget.saturating_add(tokens);
        self.budget = if sum < self.size {
            sum
        } else {
            self.size
        };
    }
}

/// A new content of a bucket.
#[derive(Debug, Clone, Copy, PartialEq, Eq, Structural)]
pub enum BucketUpdate {
    /// The bucket stays as it is.
    Unchanged,
    /// The limit is lifted.
    Disabled,
    /// The bucket is replaced.
    Update(TokenBucket),
}

/// A limit on operations and on bytes. A kind of token without a bucket is not limited.
#[derive(Debug, Clone, Copy, PartialEq, Eq, Structural)]
pub struct RateLimiter {
    /// Bucket of bytes.
    pub bandwidth: Option<TokenBucket>,
    /// Bucket of operations.
    pub ops: Option<TokenBucket>,
    /// Whether the refill timer is armed, so that no token can be taken.
    pub timer_active: bool,
}

/// Whether a limiter grants `tokens`.
pub open spec fn grants(limiter: RateLimiter, tokens: u64, token_type: TokenType) -> bool {
    !limiter.timer_active && match limiter.bucket(token_type) {
        Some(bucket) => reduced(bucket, tokens).1 != BucketReduction::Failure,
        None => true,
    }
}

/// A limiter after `tokens` were asked of it.
pub open spec fn consumed(limiter: RateLimiter, tokens: u64, token_type: TokenType) -> RateLimiter {
    if limiter.timer_active {
        limiter
    } else {
        match limiter.bucket(token_type) {
            Some(bucket) => RateLimiter {
                timer_active: reduced(bucket, tokens).1 != BucketReduction::Success,
                ..limiter.with_bucket(token_type, reduced(bucket, tokens).0)
            },
            None => limiter,
        }
    }
}

/// A limiter after `tokens` were put back by hand.
pub open spec fn restored(limiter: RateLimiter, tokens: u64, token_type: TokenType) -> RateLimiter {
    match limiter.bucket(token_type) {
        Some(bucket) => limiter.with_bucket(token_type, replenished(bucket, tokens)),
        None => limiter,
    }
}

/// Whether a limiter grants one operation together with `bytes`.
pub open spec fn grants_op(limiter: RateLimiter, bytes: u64) -> bool {
    grants(limiter, 1, TokenType::Ops) && grants(
        consumed(limiter, 1, TokenType::Ops),
        bytes,
        TokenType::Bytes,
    )
}

/// A limiter after one operation together with `bytes` was asked of it: where the bytes are
/// refused, the operation is put back.
pub open spec fn consumed_op(limiter: RateLimiter, bytes: u64) -> RateLimiter {
    let one = consumed(limiter, 1, TokenType::Ops);
    if !grants(limiter, 1, TokenType::Ops) {
        one
    } else {
        let both = consumed(one, bytes, TokenType::Bytes);
        if grants(one, bytes, TokenType::Bytes) {
            both
        } else {
            restored(both, 1, TokenType::Ops)
        }
    }
}

/// A limiter after one operation together with `bytes` was put back.
pub open spec fn restored_op(limiter: RateLimiter, bytes: u64) -> RateLimiter {
    restored(restored(limiter, 1, TokenType::Ops), bytes, TokenType::Bytes)
}

impl RateLimiter {
    /// The bucket of one kind of token.
    pub open spec fn bucket(self, token_type: TokenType) -> Option<TokenBucket> {
        match token_type {
            TokenType::Bytes => self.bandwidth,
            TokenType::Ops => self.ops,
        }
    }

    /// The limiter with another bucket of one kind.
    pub open spec fn with_bucket(self, token_type: TokenType, bucket: TokenBucket) -> RateLimiter {
        match token_type {
            TokenType::Bytes => RateLimiter { bandwidth: Some(bucket), ..self },
            TokenType::Ops => RateLimiter { ops: Some(bucket), ..self },
        }
    }

    /// A limiter that limits nothing.
    pub fn unlimited() -> (r: RateLimiter)
        ensures
            r.bandwidth is None,
            r.ops is None,
            !r.timer_active,
    {
        RateLimiter { bandwidth: None, ops: None, timer_active: false }
    }

    /// Takes tokens if there are enough. A refusal, or a request for more than the bucket ever
    /// holds, arms the refill timer.
    pub fn consume(&mut self, tokens: u64, token_type: TokenType) -> (r: bool)
        ensures
            r == grants(*old(self), tokens, token_type),
            *final(self) == consumed(*old(self), tokens, token_type),
    {
        if self.timer_active {
            return false;
        }
        let bucket = match token_type {
            TokenType::Bytes => self.bandwidth,
            TokenType::Ops => self.ops,
        };
        match bucket {
            None => true,
            Some(mut bucket) => {
                let outcome = bucket.reduce(tokens);
                match token_type {
                    TokenType::Bytes => {
                        self.bandwidth = Some(bucket);
                    },
                    TokenType::Ops => {
                        self.ops = Some(bucket);
                    },
                }
                self.timer_active = outcome != BucketReduction::Success;
                outcome != BucketReduction::Failure
            },
        }
    }

    /// Puts tokens back.
    pub fn manual_replenish(&mut self, tokens: u64, token_type: TokenType)
        ensures
            *final(self) == restored(*old(self), tokens, token_type),
    {
        match token_type {
            TokenType::Bytes => {
                if let Some(mut bucket) = self.bandwidth {
                    bucket.force_replenish(tokens);
                    self.bandwidth = Some(bucket);
                }
            },
            TokenType::Ops => {
                if let Some(mut bucket) = self.ops {
                    bucket.force_replenish(tokens);
                    self.ops = Some(bucket);
                }
            },
        }
    }

    /// Unblocks the limiter when its timer has expired. An event without an expiration is spurious.
    pub fn event_handler(&mut self, expirations: u64) -> (r: Result<(), RateLimiterError>)
        ensures
            r == (if expirations == 0 {
                Err(RateLimiterError::SpuriousRateLimiterEvent)
            } else {
                Ok(())
            }),
            *final(self) == (if expirations == 0 {
                *old(self)
            } else {
                RateLimiter { timer_active: false, ..*old(self) }
            }),
    {
        if expirations == 0 {
            return Err(RateLimiterError::SpuriousRateLimiterEvent);
        }
        self.timer_active = false;
        Ok(())
    }

    /// Whether the refill timer is armed.
    pub fn is_blocked(&self) -> (r: bool)
        ensures
            r == self.timer_active,
    {
        self.timer_active
    }

    /// Replaces the buckets that an update speaks of.
    pub fn update_buckets(&mut self, bytes: BucketUpdate, ops: BucketUpdate)
        ensures
            final(self).timer_active == old(self).timer_active,
            final(self).bandwidth == updated_bucket(old(self).bandwidth, bytes),
            final(self).ops == updated_bucket(old(self).ops, ops),
    {
        match bytes {
            BucketUpdate::Unchanged => {},
            BucketUpdate::Disabled => {
                self.bandwidth = None;
            },
            BucketUpdate::Update(bucket) => {
                self.bandwidth = Some(bucket);
            },
        }
        match ops {
            BucketUpdate::Unchanged => {},
            BucketUpdate::Disabled => {
                self.ops = None;
            },
            BucketUpdate::Update(bucket) => {
                self.ops = Some(bucket);
            },
        }
    }

    /// Takes one operation together with `bytes`, or neither.
    pub fn consume_op(&mut self, bytes: u64) -> (r: bool)
        ensures
            r == grants_op(*old(self), bytes),
            *final(self) == consumed_op(*old(self), bytes),
    {
        if !self.consume(1, TokenType::Ops) {
            return false;
        }
        if !self.consume(bytes, TokenType::Bytes) {
            self.manual_replenish(1, TokenType::Ops);
            return false;
        }
        true
    }

    /// Puts one operation together with `bytes` back.
    pub fn replenish_op(&mut self, bytes: u64)
        ensures
            *final(self) == restored_op(*old(self), bytes),
    {
        self.manual_replenish(1, TokenType::Ops);
        self.manual_replenish(bytes, TokenType::Bytes);
    }
}

/// A bucket after an update.
pub open spec fn updated_bucket(bucket: Option<TokenBucket>, update: BucketUpdate) -> Option<
    TokenBucket,
> {
    match update {
        BucketUpdate::Unchanged => bucket,
        BucketUpdate::Disabled => None,
        BucketUpdate::Update(new) => Some(new),
    }
}

/// A request whose bytes are refused costs no operation, as long as the bucket of operations
/// holds no more than its size and its burst is used up or outlasts the request.
pub proof fn law_refused_bytes_cost_no_operation(limiter: RateLimiter, bytes: u64)
    requires
        grants(limiter, 1, TokenType::Ops),
        !grants_op(limiter, bytes),
        !consumed(limiter, 1, TokenType::Ops).timer_active,
        limiter.ops matches Some(bucket) ==> bucket.budget <= bucket.size && bucket.one_time_burst
            != 1,
    ensures
        consumed_op(limiter, bytes).ops == limiter.ops,
{
}

/// Tokens that are put back into a bucket that was just charged with them are all there again,
/// as long as the bucket holds no more than its size and its burst plays no part.
pub proof fn law_replenish_undoes_reduce(bucket: TokenBucket, tokens: u64)
    requires
        bucket.one_time_burst == 0,
        tokens <= bucket.budget <= bucket.size,
    ensures
        reduced(bucket, tokens).1 == BucketReduction::Success,
        replenished(reduced(bucket, tokens).0, tokens) == bucket,
{
}

/// All tokens that a bucket holds.
pub open spec fn tokens_held(bucket: TokenBucket) -> int {
    bucket.one_time_burst + bucket.budget
}

/// Tokens come from the burst first, then from the budget. A request for as many as the bucket
/// holds, or fewer, gets them, and exactly so many are gone. One for more gets none, but uses the
/// burst up. It counts as too large, and empties the bucket, where the budget could never cover
/// what is left of it. The size of the bucket stays.
pub proof fn law_tokens_are_spent_once(bucket: TokenBucket, tokens: u64)
    ensures
        ({
            let (after, outcome) = reduced(bucket, tokens);
            let from_budget = tokens - bucket.one_time_burst;
            &&& after.size == bucket.size
            &&& after.refill_time == bucket.refill_time
            &&& after.initial_one_time_burst == bucket.initial_one_time_burst
            &&& outcome == BucketReduction::Success <==> tokens <= tokens_held(bucket)
            &&& outcome == BucketReduction::Success ==> tokens_held(after) == tokens_held(bucket)
                - tokens
            &&& tokens <= bucket.one_time_burst ==> after.budget == bucket.budget
            &&& tokens > bucket.one_time_burst ==> after.one_time_burst == 0
            &&& outcome == BucketReduction::OverConsumption <==> tokens > tokens_held(bucket)
                && from_budget > bucket.size
            &&& outcome == BucketReduction::OverConsumption ==> tokens_held(after) == 0
            &&& outcome == BucketReduction::Failure ==> after.budget == bucket.budget
        }),
{
}

/// Tokens go back to the burst if any of it is left, else to the budget up to the size.
pub proof fn law_tokens_are_given_back(bucket: TokenBucket, tokens: u64)
    requires
        bucket.budget <= bucket.size,
    ensures
        ({
            let after = replenished(bucket, tokens);
            let room = if bucket.one_time_burst > 0 {
                u64::MAX - bucket.one_time_burst
            } else {
                bucket.size - bucket.budget
            };
            &&& tokens_held(after) == tokens_held(bucket) + (if tokens <= room {
                tokens as int
            } else {
                room
            })
            &&& bucket.one_time_burst > 0 ==> after.budget == bucket.budget
            &&& bucket.one_time_burst == 0 ==> after.one_time_burst == 0
            &&& after.size == bucket.size
            &&& after.refill_time == bucket.refill_time
            &&& after.initial_one_time_burst == bucket.initial_one_time_burst
        }),
{
}

/// Bytes are held against the bandwidth alone and operations against the operations alone. Without
/// a bucket everything is granted, a blocked limiter grants nothing and stays as it is, and a
/// limiter is blocked from the moment on at which a bucket does not hold enough.
pub proof fn law_limits_are_separate(limiter: RateLimiter, tokens: u64, token_type: TokenType)
    ensures
        ({
            let after = consumed(limiter, tokens, token_type);
            let granted = grants(limiter, tokens, token_type);
            let bucket = if token_type == TokenType::Bytes {
                limiter.bandwidth
            } else {
                limiter.ops
            };
            &&& token_type == TokenType::Bytes ==> after.ops == limiter.ops
            &&& token_type == TokenType::Ops ==> after.bandwidth == limiter.bandwidth
            &&& limiter.timer_active ==> !granted && after == limiter
            &&& !limiter.timer_active && bucket is None ==> granted && after == limiter
            &&& !limiter.timer_active && bucket is Some ==> {
                let b = bucket->0;
                let left = if token_type == TokenType::Bytes {
                    after.bandwidth
                } else {
                    after.ops
                };
                &&& tokens <= tokens_held(b) ==> granted && !after.timer_active && left is Some
                    && tokens_held(left->0) == tokens_held(b) - tokens
                &&& tokens > tokens_held(b) ==> after.timer_active
                &&& tokens > tokens_held(b) && tokens - b.one_time_burst <= b.size ==> !granted
            }
        }),
{
    match limiter.bucket(token_type) {
        Some(b) => law_tokens_are_spent_once(b, tokens),
        None => {},
    }
}

/// A limiter that is not blocked and holds a token for an operation and enough for its bytes grants
/// the operation, for exactly these tokens.
pub proof fn law_an_operation_costs_one_token_and_its_bytes(limiter: RateLimiter, bytes: u64)
    requires
        !limiter.timer_active,
        limiter.ops matches Some(b) ==> tokens_held(b) >= 1,
        limiter.bandwidth matches Some(b) ==> tokens_held(b) >= bytes,
    ensures
        grants_op(limiter, bytes),
        !consumed_op(limiter, bytes).timer_active,
        limiter.ops is None ==> consumed_op(limiter, bytes).ops is None,
        limiter.ops matches Some(b) ==> consumed_op(limiter, bytes).ops is Some && tokens_held(
            consumed_op(limiter, bytes).ops->0,
        ) == tokens_held(b) - 1,
        limiter.bandwidth is None ==> consumed_op(limiter, bytes).bandwidth is None,
        limiter.bandwidth matches Some(b) ==> consumed_op(limiter, bytes).bandwidth is Some
            && tokens_held(consumed_op(limiter, bytes).bandwidth->0) == tokens_held(b) - bytes,
{
    law_limits_are_separate(limiter, 1, TokenType::Ops);
    law_limits_are_separate(consumed(limiter, 1, TokenType::Ops), bytes, TokenType::Bytes);
}

/// An operation that a limiter without a burst granted can be given back: the limiter holds what it
/// held before.
pub proof fn law_an_operation_is_given_back(limiter: RateLimiter, bytes: u64)
    requires
        !limiter.timer_active,
        limiter.ops matches Some(b) ==> b.one_time_burst == 0 && 1 <= b.budget <= b.size,
        limiter.bandwidth matches Some(b) ==> b.one_time_burst == 0 && bytes <= b.budget <= b.size,
    ensures
        restored_op(consumed_op(limiter, bytes), bytes) == limiter,
{
}

/// Saved state of a rate limiter.
#[derive(Debug, Clone, Copy, PartialEq, Eq, Structural)]
pub struct RateLimiterState {
    /// Bucket of operations.
    pub ops: Option<TokenBucket>,
    /// Bucket of bytes.
    pub bandwidth: Option<TokenBucket>,
}

impl RateLimiter {
    /// The state to save.
    pub fn save(&self) -> (r: RateLimiterState)
        ensures
            r == (RateLimiterState { ops: self.ops, bandwidth: self.bandwidth }),
    {
        RateLimiterState { ops: self.ops, bandwidth: self.bandwidth }
    }

    /// The limiter that a saved state describes. The refill timer starts unarmed.
    pub fn restore(state: &RateLimiterState) -> (r: RateLimiter)
        ensures
            r == (RateLimiter {
                ops: state.ops,
                bandwidth: state.bandwidth,
                timer_active: false,
            }),
    {
        RateLimiter { ops: state.ops, bandwidth: state.bandwidth, timer_active: false }
    }
}

/// A limit changes as asked: to another one, to none, or not at all.
pub proof fn law_limits_change_as_asked(
    bucket: Option<TokenBucket>,
    other: Option<TokenBucket>,
    new: TokenBucket,
    update: BucketUpdate,
)
    ensures
        update != BucketUpdate::Unchanged ==> updated_bucket(bucket, update) == updated_bucket(
            other,
            update,
        ),
        updated_bucket(bucket, BucketUpdate::Unchanged) == bucket,
        updated_bucket(bucket, BucketUpdate::Disabled) is None,
        updated_bucket(bucket, BucketUpdate::Update(new)) == Some(new),
{
}

} // verus!
