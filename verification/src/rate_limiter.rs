//! Per-connection rate limiting by fixed-window counting.
//!
//! The limiter is configured with a maximum message count and a window
//! duration. It keeps the window's start time and the count seen since that
//! start; when a message arrives past the window's end, the window restarts
//! at the message's time with a count of zero. The counted message is
//! rejected when the count exceeds the maximum. The window is approximate: a
//! burst straddling a window boundary can momentarily pass close to twice the
//! maximum, an accepted trade-off for constant state per connection.

use vstd::prelude::*;

verus! {

/// Fixed-window rate limiter state. Times are milliseconds on whatever clock
/// the caller reads; only differences of its values matter.
#[derive(Debug, Clone, Copy, PartialEq, Eq, Structural)]
pub struct RateLimiter {
    pub max_messages: u32,
    pub window_ms: u64,
    pub window_start_ms: u64,
    pub count: u32,
}

/// `now` lies past the end of the limiter's current window.
pub open spec fn past_window(s: RateLimiter, now_ms: u64) -> bool {
    now_ms > s.window_start_ms + s.window_ms
}

/// One observed message at time `now`: the state after counting it, and
/// whether it is admitted. The count saturates instead of wrapping; at the
/// saturation point the limiter stops rejecting, which a limit below
/// `u32::MAX` never reaches within one window.
pub open spec fn limiter_step(s: RateLimiter, now_ms: u64) -> (RateLimiter, bool) {
    let fresh = if past_window(s, now_ms) {
        RateLimiter { window_start_ms: now_ms, count: 0, ..s }
    } else {
        s
    };
    let counted = RateLimiter {
        count: if fresh.count < u32::MAX {
            (fresh.count + 1) as u32
        } else {
            u32::MAX
        },
        ..fresh
    };
    (counted, counted.count <= counted.max_messages)
}

impl RateLimiter {
    /// A limiter admitting at most `max_messages` per `window_ms`, its first
    /// window starting at `now_ms`.
    pub fn new(max_messages: u32, window_ms: u64, now_ms: u64) -> (r: Self)
        ensures
            r == (RateLimiter { max_messages, window_ms, window_start_ms: now_ms, count: 0 }),
    {
        RateLimiter { max_messages, window_ms, window_start_ms: now_ms, count: 0 }
    }

    /// Counts one message arriving at `now_ms` and says whether it is
    /// admitted; a rejected message is dropped by the caller and answered
    /// with an error frame, the connection stays open.
    pub fn check_message(&mut self, now_ms: u64) -> (allowed: bool)
        ensures
            (*final(self), allowed) == limiter_step(*old(self), now_ms),
    {
        if now_ms > self.window_start_ms && now_ms - self.window_start_ms > self.window_ms {
            self.window_start_ms = now_ms;
            self.count = 0;
        }
        if self.count < u32::MAX {
            self.count = self.count + 1;
        }
        self.count <= self.max_messages
    }
}

/// The admissions of a sequence of messages at the given times, first time
/// first, starting from state `s`.
pub open spec fn limiter_run(s: RateLimiter, times: Seq<u64>) -> Seq<bool>
    decreases times.len(),
{
    if times.len() == 0 {
        Seq::empty()
    } else {
        let (next, allowed) = limiter_step(s, times[0]);
        seq![allowed] + limiter_run(next, times.drop_first())
    }
}

/// The limiter state after a sequence of messages at the given times.
pub open spec fn limiter_after(s: RateLimiter, times: Seq<u64>) -> RateLimiter
    decreases times.len(),
{
    if times.len() == 0 {
        s
    } else {
        limiter_after(limiter_step(s, times[0]).0, times.drop_first())
    }
}

/// Running the limiter within one window from a fresh state counts messages
/// one by one: after `k` of them the count is `old count + k`, and each is
/// admitted exactly while the count stays within the maximum.
proof fn lemma_limiter_run_in_window(s: RateLimiter, times: Seq<u64>)
    requires
        s.count as int + times.len() <= u32::MAX,
        forall|i: int|
            0 <= i < times.len() ==> s.window_start_ms <= #[trigger] times[i]
                <= s.window_start_ms + s.window_ms,
    ensures
        limiter_run(s, times).len() == times.len(),
        forall|i: int|
            0 <= i < times.len() ==> #[trigger] limiter_run(s, times)[i] == (s.count + i + 1
                <= s.max_messages),
        limiter_after(s, times) == (RateLimiter {
            count: (s.count + times.len()) as u32,
            ..s
        }),
    decreases times.len(),
{
    if times.len() > 0 {
        let (next, allowed) = limiter_step(s, times[0]);
        assert(!past_window(s, times[0]));
        assert(next.count == s.count + 1);
        assert(next.window_start_ms == s.window_start_ms);
        lemma_limiter_run_in_window(next, times.drop_first());
        assert forall|i: int| 0 <= i < times.len() implies #[trigger] limiter_run(s, times)[i] == (
        s.count + i + 1 <= s.max_messages) by {
            if i > 0 {
                assert(limiter_run(s, times)[i] == limiter_run(next, times.drop_first())[i - 1]);
            }
        }
    }
}

/// The fixed window bounds a burst exactly: of `max + 1` messages arriving
/// within one window of a fresh limiter, the first `max` are admitted and
/// precisely the last is rejected; and once time passes the window's end,
/// the counter resets and a new message is admitted again.
pub proof fn lemma_rate_limit_window(s: RateLimiter, times: Seq<u64>, later_ms: u64)
    requires
        s.count == 0,
        s.max_messages < u32::MAX,
        times.len() == s.max_messages + 1,
        forall|i: int|
            0 <= i < times.len() ==> s.window_start_ms <= #[trigger] times[i]
                <= s.window_start_ms + s.window_ms,
        later_ms > s.window_start_ms + s.window_ms,
        s.max_messages >= 1,
    ensures
        forall|i: int|
            0 <= i < times.len() ==> #[trigger] limiter_run(s, times)[i] == (i
                < s.max_messages as int),
        limiter_step(limiter_after(s, times), later_ms).1,
{
    lemma_limiter_run_in_window(s, times);
}

} // verus!
