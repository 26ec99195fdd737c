//! Connection lifecycle: a single persistent link and its reconnect policy.
//!
//! The state machine decides every transition; the surrounding program
//! performs the actual I/O and reports what happened. Sends are admitted
//! only while the link is up, and a re-establishing link refuses them
//! fast with a retryable error instead of blocking.

use vstd::prelude::*;

use crate::errors::{ConnError, SendError};

verus! {

/// Lifecycle of the link to the broker.
#[derive(Debug, Clone, Copy, PartialEq, Eq, Structural)]
pub enum ConnState {
    Disconnected,
    Connecting,
    Connected,
    Reconnecting,
    Closed,
}

/// Reconnect policy and frame limit, fixed by configuration.
#[derive(Debug, Clone, Copy, PartialEq, Eq, Structural)]
pub struct ReconnectPolicy {
    /// Attempts allowed after a drop before the connection closes.
    pub max_retries: u32,
    /// First retry delay of the exponential backoff.
    pub base_delay_ms: u64,
    /// Cap on any retry delay.
    pub max_delay_ms: u64,
    /// Largest admissible outbound payload, in characters.
    pub max_payload: usize,
}

/// The delay before retry `n`: the base delay doubled `n` times, capped.
pub open spec fn spec_backoff(base: u64, cap: u64, n: nat) -> u64
    decreases n,
{
    if n == 0 {
        if base > cap {
            cap
        } else {
            base
        }
    } else {
        let p = spec_backoff(base, cap, (n - 1) as nat);
        if 2 * (p as int) > cap {
            cap
        } else {
            (2 * p) as u64
        }
    }
}

/// A delay spread by entropy: at least half of and at most the full
/// backoff delay, so synchronized clients do not retry in step.
pub open spec fn spec_jitter(delay: u64, entropy: u64) -> u64 {
    (delay - (entropy as int) % (delay / 2 + 1)) as u64
}

/// One connection: its lifecycle state, retry counter, last failure, and
/// the policy it was configured with.
#[derive(Debug, Clone, Copy, PartialEq, Eq, Structural)]
pub struct Connection {
    pub state: ConnState,
    pub retries: u32,
    pub last_error: Option<ConnError>,
    pub policy: ReconnectPolicy,
}

impl Connection {
    /// A fresh, disconnected connection under this policy.
    pub fn new(policy: ReconnectPolicy) -> (r: Connection)
        ensures
            r.state == ConnState::Disconnected,
            r.retries == 0,
            r.last_error is None,
            r.policy == policy,
    {
        Connection { state: ConnState::Disconnected, retries: 0, last_error: None, policy }
    }

    /// Start a connect attempt. Legal only before the first attempt or
    /// after a failed one; any other state is refused unchanged.
    pub fn begin_connect(&mut self) -> (r: Result<(), ConnError>)
        ensures
            r is Ok <==> old(self).state == ConnState::Disconnected,
            r is Ok ==> *final(self) == (Connection {
                state: ConnState::Connecting,
                ..*old(self)
            }),
            r is Err ==> *final(self) == *old(self) && r->Err_0 == ConnError::InvalidState,
    {
        if self.state == ConnState::Disconnected {
            self.state = ConnState::Connecting;
            Ok(())
        } else {
            Err(ConnError::InvalidState)
        }
    }

    /// The handshake completed: the link is up and the retry counter
    /// starts over. Reported out of turn, nothing changes.
    pub fn handshake_ok(&mut self) -> (applied: bool)
        ensures
            applied == (old(self).state == ConnState::Connecting),
            applied ==> *final(self) == (Connection {
                state: ConnState::Connected,
                retries: 0,
                last_error: None,
                ..*old(self)
            }),
            !applied ==> *final(self) == *old(self),
    {
        if self.state == ConnState::Connecting {
            self.state = ConnState::Connected;
            self.retries = 0;
            self.last_error = None;
            true
        } else {
            false
        }
    }

    /// The handshake failed: the attempt is over and the connection is
    /// back where a caller may try again. The failure is recorded.
    pub fn handshake_failed(&mut self, err: ConnError) -> (applied: bool)
        ensures
            applied == (old(self).state == ConnState::Connecting),
            applied ==> *final(self) == (Connection {
                state: ConnState::Disconnected,
                last_error: Some(err),
                ..*old(self)
            }),
            !applied ==> *final(self) == *old(self),
    {
        if self.state == ConnState::Connecting {
            self.state = ConnState::Disconnected;
            self.last_error = Some(err);
            true
        } else {
            false
        }
    }

    /// The established link dropped: re-establishing starts, with the
    /// retry counter at zero and the failure recorded.
    pub fn transport_error(&mut self, err: ConnError) -> (applied: bool)
        ensures
            applied == (old(self).state == ConnState::Connected),
            applied ==> *final(self) == (Connection {
                state: ConnState::Reconnecting,
                retries: 0,
                last_error: Some(err),
                ..*old(self)
            }),
            !applied ==> *final(self) == *old(self),
    {
        if self.state == ConnState::Connected {
            self.state = ConnState::Reconnecting;
            self.retries = 0;
            self.last_error = Some(err);
            true
        } else {
            false
        }
    }

    /// A retry succeeded: the link is up again.
    pub fn retry_ok(&mut self) -> (applied: bool)
        ensures
            applied == (old(self).state == ConnState::Reconnecting),
            applied ==> *final(self) == (Connection {
                state: ConnState::Connected,
                retries: 0,
                last_error: None,
                ..*old(self)
            }),
            !applied ==> *final(self) == *old(self),
    {
        if self.state == ConnState::Reconnecting {
            self.state = ConnState::Connected;
            self.retries = 0;
            self.last_error = None;
            true
        } else {
            false
        }
    }

    /// A retry failed: either another attempt is allowed and the counter
    /// advances, or the attempts are spent and the connection closes.
    pub fn retry_failed(&mut self, err: ConnError) -> (applied: bool)
        ensures
            applied == (old(self).state == ConnState::Reconnecting),
            applied && old(self).retries < old(self).policy.max_retries
                ==> *final(self) == (Connection {
                    retries: (old(self).retries + 1) as u32,
                    last_error: Some(err),
                    ..*old(self)
                }),
            applied && old(self).retries >= old(self).policy.max_retries
                ==> *final(self) == (Connection {
                    state: ConnState::Closed,
                    last_error: Some(err),
                    ..*old(self)
                }),
            !applied ==> *final(self) == *old(self),
    {
        if self.state == ConnState::Reconnecting {
            if self.retries < self.policy.max_retries {
                self.retries = self.retries + 1;
            } else {
                self.state = ConnState::Closed;
            }
            self.last_error = Some(err);
            true
        } else {
            false
        }
    }

    /// Tear the connection down for good: every state goes to closed.
    pub fn close(&mut self)
        ensures
            *final(self) == (Connection { state: ConnState::Closed, ..*old(self) }),
    {
        self.state = ConnState::Closed;
    }

    /// The error an inadmissible send gets: a re-establishing link
    /// refuses fast with the retryable error, any other link that is not
    /// up is simply down, and an oversized payload on a live link is
    /// refused outright.
    pub open spec fn send_refusal(self, payload_len: int) -> SendError {
        if self.state == ConnState::Reconnecting {
            SendError::Reconnecting
        } else if self.state != ConnState::Connected {
            SendError::NotConnected
        } else {
            SendError::PayloadTooLarge
        }
    }

    /// Whether a send of this payload size is admitted right now, and if
    /// not, exactly why: up and within the frame limit is admitted; an
    /// oversized payload is refused outright; a re-establishing link
    /// refuses fast with the retryable error; anything else is down.
    pub fn send_check(&self, payload_len: usize) -> (r: Result<(), SendError>)
        ensures
            r is Ok <==> self.state == ConnState::Connected
                && payload_len <= self.policy.max_payload,
            r is Err ==> r->Err_0 == self.send_refusal(payload_len as int),
            self.state == ConnState::Connected && payload_len > self.policy.max_payload
                ==> r == Result::<(), SendError>::Err(SendError::PayloadTooLarge),
            self.state == ConnState::Reconnecting
                ==> r == Result::<(), SendError>::Err(SendError::Reconnecting),
            self.state != ConnState::Connected && self.state != ConnState::Reconnecting
                ==> r == Result::<(), SendError>::Err(SendError::NotConnected),
    {
        if self.state == ConnState::Connected {
            if payload_len <= self.policy.max_payload {
                Ok(())
            } else {
                Err(SendError::PayloadTooLarge)
            }
        } else if self.state == ConnState::Reconnecting {
            Err(SendError::Reconnecting)
        } else {
            Err(SendError::NotConnected)
        }
    }

    /// The backoff delay before the next retry: the base delay doubled
    /// once per failed retry so far, capped by the policy.
    pub fn backoff_delay(&self) -> (r: u64)
        ensures
            r == spec_backoff(
                self.policy.base_delay_ms,
                self.policy.max_delay_ms,
                self.retries as nat,
            ),
    {
        let base = self.policy.base_delay_ms;
        let cap = self.policy.max_delay_ms;
        let mut d = if base > cap {
            cap
        } else {
            base
        };
        let mut k: u32 = 0;
        while k < self.retries
            invariant
                k <= self.retries,
                d == spec_backoff(base, cap, k as nat),
            decreases self.retries - k,
        {
            d = if d > cap / 2 {
                cap
            } else {
                d * 2
            };
            k = k + 1;
        }
        d
    }
}

/// Spread a delay by entropy drawn outside: the result keeps at least
/// half the delay and never exceeds it.
pub fn jittered_delay(delay: u64, entropy: u64) -> (r: u64)
    ensures
        r == spec_jitter(delay, entropy),
        delay / 2 <= r <= delay,
{
    let spread = delay / 2 + 1;
    delay - entropy % spread
}

} // verus!
