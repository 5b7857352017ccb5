//! The decisions of the client's middleware: how long a server that answers
//! 429 is left alone, and how many requests may be in flight at once. The
//! types here hold state and decide; they neither wait nor send.
use crate::clock::NANOS_PER_SECOND;
use vstd::prelude::*;

verus! {

/// The status with which a server asks for a pause: 429 Too Many Requests.
pub const TOO_MANY_REQUESTS: u16 = 429;

/// The longest pause, in seconds, that a server is granted.
pub const MAX_RETRY_AFTER_SECONDS: u64 = 60;

/// Whether `b` is an ASCII digit, `0` to `9`.
pub open spec fn is_digit(b: u8) -> bool {
    48 <= b <= 57
}

/// The number that the decimal digits `digits` write.
pub open spec fn digits_value(digits: Seq<u8>) -> nat
    decreases digits.len(),
{
    if digits.len() == 0 {
        0
    } else {
        digits_value(digits.drop_last()) * 10 + (digits.last() - 48) as nat
    }
}

/// What is left of `value` without a leading `+` (the byte 43).
pub open spec fn unsigned(value: Seq<u8>) -> Seq<u8> {
    if value.len() > 0 && value[0] == 43 {
        value.subrange(1, value.len() as int)
    } else {
        value
    }
}

/// The number of seconds that a `Retry-After` value states: the value is an
/// optional `+` and then decimal digits, at least one, and nothing else.
/// `None` for every other value, so for one with a byte that is not ASCII.
pub open spec fn retry_after_seconds(value: Seq<u8>) -> Option<nat> {
    let digits = unsigned(value);
    if digits.len() > 0 && (forall|i: int| 0 <= i < digits.len() ==> is_digit(#[trigger] digits[i])) {
        Some(digits_value(digits))
    } else {
        None
    }
}

/// The pause, in nanoseconds, that a `Retry-After` header asks for: the
/// seconds it states, but no more than 60 of them; `default` where the header
/// is absent or states no number of seconds.
pub open spec fn pause_nanos(header: Option<Seq<u8>>, default: u128) -> int {
    match header {
        Some(value) => match retry_after_seconds(value) {
            Some(seconds) => if seconds > MAX_RETRY_AFTER_SECONDS {
                MAX_RETRY_AFTER_SECONDS * NANOS_PER_SECOND
            } else {
                seconds * NANOS_PER_SECOND
            },
            None => default as int,
        },
        None => default as int,
    }
}

/// The instant `pause` nanoseconds after `now`, or the last instant that the
/// clock can tell where that lies beyond it.
pub open spec fn instant_after(now: u128, pause: int) -> u128 {
    if now + pause > u128::MAX {
        u128::MAX
    } else {
        (now + pause) as u128
    }
}

/// What a request has to do before it is sent.
#[derive(Debug, Clone, Copy, PartialEq, Eq, Structural)]
pub enum Gate {
    /// No pause is in force: send.
    Pass,
    /// A pause is in force: sleep for this many nanoseconds, then send.
    Wait(u128),
    /// The pause that ended at this instant is over: clear it, then send.
    Expired(u128),
}

/// The state of a [`RetryTooManyRequestsMiddleware`].
pub struct SlowdownView {
    /// The instant before which no request is to be sent, if a pause is in
    /// force.
    pub retry_after: Option<u128>,
    /// The pause, in nanoseconds, for a server that asks for one without
    /// saying how long.
    pub default_retry_after: u128,
}

impl SlowdownView {
    /// What a request has to do before it is sent at `now`.
    pub open spec fn gate(self, now: u128) -> Gate {
        match self.retry_after {
            Some(until) => if until > now {
                Gate::Wait((until - now) as u128)
            } else {
                Gate::Expired(until)
            },
            None => Gate::Pass,
        }
    }

    /// The state after the pause that ended at `observed` is cleared: nothing
    /// changes where another pause has taken its place meanwhile.
    pub open spec fn cleared(self, observed: u128) -> SlowdownView {
        if self.retry_after == Some(observed) {
            SlowdownView { retry_after: None, ..self }
        } else {
            self
        }
    }

    /// The state after a response with `status` and, if it had one, the
    /// `Retry-After` header `header` has come in at `now`. The latest request
    /// for a pause replaces what was in force.
    pub open spec fn after_response(
        self,
        status: u16,
        header: Option<Seq<u8>>,
        now: u128,
    ) -> SlowdownView {
        if status == TOO_MANY_REQUESTS {
            SlowdownView {
                retry_after: Some(
                    instant_after(now, pause_nanos(header, self.default_retry_after)),
                ),
                ..self
            }
        } else {
            self
        }
    }
}

/// A request that is about to be sent before the end of the pause that a
/// server asked for is told to wait until that very end. The pause is the one
/// asked for with the latest 429 response: it came in at `response_time` with a
/// `Retry-After` of `seconds`.
pub proof fn lemma_slowdown_honored(
    state: SlowdownView,
    value: Seq<u8>,
    seconds: nat,
    response_time: u128,
    now: u128,
)
    requires
        retry_after_seconds(value) == Some(seconds),
        response_time + 60 * NANOS_PER_SECOND <= u128::MAX,
        now < response_time + (if seconds > 60 {
            60
        } else {
            seconds
        }) * NANOS_PER_SECOND,
    ensures
        state.after_response(TOO_MANY_REQUESTS, Some(value), response_time).gate(now) == Gate::Wait(
            (response_time + (if seconds > 60 {
                60
            } else {
                seconds
            }) * NANOS_PER_SECOND - now) as u128,
        ),
{
}

/// No server is granted a pause of more than 60 seconds: a pause is longer
/// only where it is the default one, and that was set so.
pub proof fn lemma_pause_is_bounded(header: Option<Seq<u8>>, default: u128)
    ensures
        0 <= pause_nanos(header, default),
        pause_nanos(header, default) <= MAX_RETRY_AFTER_SECONDS * NANOS_PER_SECOND || pause_nanos(
            header,
            default,
        ) == default,
{
}

/// A pause that is over stays in place until it is cleared: every request that
/// comes after its end is told to clear it, and once that is done requests
/// pass.
pub proof fn lemma_expired_pause_is_cleared(state: SlowdownView, until: u128, now: u128, later: u128)
    requires
        state.retry_after == Some(until),
        until <= now,
    ensures
        state.gate(now) == Gate::Expired(until),
        state.cleared(until).gate(later) == Gate::Pass,
{
}

/// The number of seconds that `value` states, or 61 where it states more than
/// 60; `None` where it states none.
fn capped_seconds(value: &[u8]) -> (r: Option<u64>)
    ensures
        match r {
            Some(seconds) => retry_after_seconds(value@) matches Some(stated) && seconds == (
            if stated > 60 {
                61
            } else {
                stated
            }),
            None => retry_after_seconds(value@) is None,
        },
{
    let start: usize = if value.len() > 0 && value[0] == 43 {
        1
    } else {
        0
    };
    let ghost digits = unsigned(value@);
    if start == value.len() {
        return None;
    }
    let mut seconds: u64 = 0;
    let mut i: usize = start;
    while i < value.len()
        invariant
            start <= i <= value.len(),
            digits == unsigned(value@),
            digits == value@.subrange(start as int, value.len() as int),
            forall|k: int| 0 <= k < i - start ==> is_digit(#[trigger] digits[k]),
            seconds <= 61,
            seconds == (if digits_value(digits.take(i - start)) > 60 {
                61
            } else {
                digits_value(digits.take(i - start))
            }),
        decreases value.len() - i,
    {
        let b: u8 = value[i];
        if b < 48 || b > 57 {
            assert(digits[i - start] == b);
            return None;
        }
        assert(digits.take(i - start + 1).drop_last() =~= digits.take(i - start));
        seconds = seconds * 10 + (b - 48) as u64;
        if seconds > 60 {
            seconds = 61;
        }
        i += 1;
    }
    assert(digits.take(i - start) =~= digits);
    Some(seconds)
}

/// A middleware that delays the next request if a `Retry-After` header is
/// received. It holds the pause that is in force and decides; it neither
/// sleeps nor sends, and it does not retry.
pub struct RetryTooManyRequestsMiddleware {
    retry_after: Option<u128>,
    default_retry_after: u128,
}

impl View for RetryTooManyRequestsMiddleware {
    type V = SlowdownView;

    closed spec fn view(&self) -> SlowdownView {
        SlowdownView {
            retry_after: self.retry_after,
            default_retry_after: self.default_retry_after,
        }
    }
}

impl RetryTooManyRequestsMiddleware {
    /// A middleware with no pause in force. `default_retry_after` is the
    /// pause, in nanoseconds, for a server that asks for one without saying
    /// how long.
    pub fn new(default_retry_after: u128) -> (middleware: Self)
        ensures
            middleware@ == (SlowdownView { retry_after: None, default_retry_after }),
    {
        Self { retry_after: None, default_retry_after }
    }

    /// Whether a response with `status` asks for a pause.
    pub fn asks_for_pause(status: u16) -> (b: bool)
        ensures
            b == (status == TOO_MANY_REQUESTS),
    {
        status == TOO_MANY_REQUESTS
    }

    /// The pause, in nanoseconds, that a `Retry-After` header asks for.
    pub fn pause(&self, header: Option<&[u8]>) -> (nanos: u128)
        ensures
            nanos == pause_nanos(
                match header {
                    Some(value) => Some(value@),
                    None => None,
                },
                self@.default_retry_after,
            ),
    {
        let stated = match header {
            Some(value) => capped_seconds(value),
            None => None,
        };
        match stated {
            Some(seconds) => {
                let capped: u64 = if seconds > MAX_RETRY_AFTER_SECONDS {
                    MAX_RETRY_AFTER_SECONDS
                } else {
                    seconds
                };
                (capped as u128) * NANOS_PER_SECOND
            },
            None => self.default_retry_after,
        }
    }

    /// What a request has to do before it is sent at the instant `now`, in
    /// nanoseconds on a clock of the caller's choosing.
    pub fn before_request(&self, now: u128) -> (gate: Gate)
        ensures
            gate == self@.gate(now),
    {
        match self.retry_after {
            Some(until) => if until > now {
                Gate::Wait(until - now)
            } else {
                Gate::Expired(until)
            },
            None => Gate::Pass,
        }
    }

    /// Clears the pause that ended at `observed`, unless another has taken its
    /// place meanwhile.
    pub fn clear_expired(&mut self, observed: u128)
        ensures
            final(self)@ == old(self)@.cleared(observed),
    {
        let stale = match self.retry_after {
            Some(until) => until == observed,
            None => false,
        };
        if stale {
            self.retry_after = None;
        }
    }

    /// Takes note of a response that has come in at the instant `now`: with
    /// the status 429 it puts a pause in force, from `now` on and as long as
    /// the `Retry-After` header `header` asks for; with any other status it
    /// changes nothing.
    pub fn after_response(&mut self, status: u16, header: Option<&[u8]>, now: u128)
        ensures
            final(self)@ == old(self)@.after_response(
                status,
                match header {
                    Some(value) => Some(value@),
                    None => None,
                },
                now,
            ),
    {
        if Self::asks_for_pause(status) {
            let pause: u128 = self.pause(header);
            let until: u128 = match now.checked_add(pause) {
                Some(instant) => instant,
                None => u128::MAX,
            };
            self.retry_after = Some(until);
        }
    }
}

/// A limit that lets no request through.
#[derive(Debug)]
pub struct NoPermits;

/// A limit on the number of requests that the client has in flight at once.
pub struct MaxConcurrentMiddleware {
    max_concurrent: usize,
}

impl View for MaxConcurrentMiddleware {
    type V = usize;

    closed spec fn view(&self) -> usize {
        self.max_concurrent
    }
}

impl MaxConcurrentMiddleware {
    #[verifier::type_invariant]
    spec fn lets_through(self) -> bool {
        self.max_concurrent >= 1
    }

    /// A limit of `max_concurrent` requests at once. A limit of none is
    /// refused: no request could ever be sent.
    pub fn new(max_concurrent: usize) -> (r: Result<Self, NoPermits>)
        ensures
            match r {
                Ok(limit) => max_concurrent >= 1 && limit@ == max_concurrent,
                Err(_) => max_concurrent == 0,
            },
    {
        if max_concurrent == 0 {
            Err(NoPermits)
        } else {
            Ok(Self { max_concurrent })
        }
    }

    /// The number of permits to hand out.
    pub fn permits(&self) -> (n: usize)
        ensures
            n == self@,
            n >= 1,
    {
        proof {
            use_type_invariant(self);
        }
        self.max_concurrent
    }
}

} // verus!
