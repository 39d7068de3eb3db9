//! The decisions of the reconnecting consumer of a market stream.
//!
//! The consumer connects, reads the stream and hands every event downstream.
//! When the stream ends or fails for good it sleeps and connects again. It gives
//! up only when the very first connection cannot be made. Connecting, reading
//! and sleeping are the caller's work: it performs each [`Action`] and reports
//! what came of it as a [`StreamEvent`].

use crate::error::DataError;
use vstd::prelude::*;

verus! {

/// The delay before the first reconnection, in milliseconds. The delay doubles
/// with every connection attempt and falls back to this value once a connection
/// is made.
pub const STARTING_RECONNECT_BACKOFF_MS: u64 = 125;

/// What the consumer is waiting for.
#[derive(Clone, Copy, Debug, PartialEq, Eq, Structural)]
pub enum Phase {
    /// A connection attempt is under way.
    Connecting,
    /// The stream is open and being read.
    Streaming,
    /// The stream is gone and the delay before the next attempt is running.
    Sleeping,
    /// The first connection failed and its error was returned.
    Stopped,
}

/// What happened to the last action.
#[derive(Debug)]
pub enum StreamEvent<T> {
    /// The connection was made.
    Connected,
    /// The connection could not be made.
    ConnectFailed(DataError),
    /// The stream yielded an event or an error.
    Item(Result<T, DataError>),
    /// The stream ended.
    Ended,
    /// The delay has passed.
    Woke,
}

/// What the caller is to do next.
#[derive(Debug)]
pub enum Action<T> {
    /// Open the stream.
    Connect,
    /// Read the next item of the stream.
    Pull,
    /// Hand the event downstream, then read the next item. A receiver that has
    /// gone away is no reason to stop.
    Forward(T),
    /// Wait for so many milliseconds.
    Sleep(u64),
    /// Give up and return the error.
    Return(DataError),
}

/// The state of one consumer between two actions.
#[derive(Clone, Copy, Debug, PartialEq, Eq, Structural)]
pub struct ConsumerLoop {
    pub phase: Phase,
    /// Connection attempts since the last connection was made, this one counted.
    pub attempt: u32,
    /// The delay after the stream is lost next, in milliseconds.
    pub backoff_ms: u64,
    /// No connection has been made yet.
    pub cold: bool,
}

/// Twice the delay, or the longest delay there is.
pub open spec fn doubled(ms: u64) -> u64 {
    if ms > u64::MAX / 2 {
        u64::MAX
    } else {
        (ms * 2) as u64
    }
}

/// One attempt more, as far as the counter goes.
pub open spec fn counted(attempt: u32) -> u32 {
    if attempt == u32::MAX {
        attempt
    } else {
        (attempt + 1) as u32
    }
}

impl ConsumerLoop {
    /// The state in which the next connection attempt is under way.
    pub open spec fn retrying(self) -> ConsumerLoop {
        ConsumerLoop {
            phase: Phase::Connecting,
            attempt: counted(self.attempt),
            backoff_ms: doubled(self.backoff_ms),
            cold: self.cold,
        }
    }

    /// The state with the stream open: the count of attempts and the delay start
    /// afresh.
    pub open spec fn connected(self) -> ConsumerLoop {
        ConsumerLoop {
            phase: Phase::Streaming,
            attempt: 0,
            backoff_ms: STARTING_RECONNECT_BACKOFF_MS,
            cold: false,
        }
    }

    /// The state that follows `event` and the action it asks for, or `None`
    /// where the event is none that the phase waits for.
    pub open spec fn next<T>(self, event: StreamEvent<T>) -> Option<(ConsumerLoop, Action<T>)> {
        match (self.phase, event) {
            (Phase::Connecting, StreamEvent::Connected) => Some((self.connected(), Action::Pull)),
            (Phase::Connecting, StreamEvent::ConnectFailed(error)) => if self.cold && self.attempt
                == 1 {
                Some((ConsumerLoop { phase: Phase::Stopped, ..self }, Action::Return(error)))
            } else {
                Some((self.retrying(), Action::Connect))
            },
            (Phase::Streaming, StreamEvent::Item(Ok(event))) => Some((self, Action::Forward(event))),
            (Phase::Streaming, StreamEvent::Item(Err(error))) => if error.terminal() {
                Some((ConsumerLoop { phase: Phase::Sleeping, ..self }, Action::Sleep(self.backoff_ms)))
            } else {
                Some((self, Action::Pull))
            },
            (Phase::Streaming, StreamEvent::Ended) => Some(
                (ConsumerLoop { phase: Phase::Sleeping, ..self }, Action::Sleep(self.backoff_ms)),
            ),
            (Phase::Sleeping, StreamEvent::Woke) => Some((self.retrying(), Action::Connect)),
            _ => None,
        }
    }

    /// A consumer whose first connection attempt is under way: the caller's first
    /// action is to connect.
    pub fn new() -> (r: Self)
        ensures
            r == (ConsumerLoop {
                phase: Phase::Connecting,
                attempt: 1,
                backoff_ms: 250,
                cold: true,
            }),
    {
        let mut r = ConsumerLoop {
            phase: Phase::Sleeping,
            attempt: 0,
            backoff_ms: STARTING_RECONNECT_BACKOFF_MS,
            cold: true,
        };
        r.retry();
        r
    }

    /// Counts one more attempt and doubles the delay.
    fn retry(&mut self)
        ensures
            *final(self) == old(self).retrying(),
    {
        self.phase = Phase::Connecting;
        if self.attempt < u32::MAX {
            self.attempt = self.attempt + 1;
        }
        if self.backoff_ms > u64::MAX / 2 {
            self.backoff_ms = u64::MAX;
        } else {
            self.backoff_ms = self.backoff_ms * 2;
        }
    }

    /// Takes in what happened to the last action and says what to do next.
    /// Returns `None`, and changes nothing, where the event is none that the
    /// consumer waits for in its phase.
    pub fn step<T>(&mut self, event: StreamEvent<T>) -> (r: Option<Action<T>>)
        ensures
            match old(self).next(event) {
                Some((state, action)) => *final(self) == state && r == Some(action),
                None => *final(self) == *old(self) && r is None,
            },
    {
        match self.phase {
            Phase::Connecting => match event {
                StreamEvent::Connected => {
                    self.phase = Phase::Streaming;
                    self.attempt = 0;
                    self.backoff_ms = STARTING_RECONNECT_BACKOFF_MS;
                    self.cold = false;
                    Some(Action::Pull)
                },
                StreamEvent::ConnectFailed(error) => {
                    if self.cold && self.attempt == 1 {
                        self.phase = Phase::Stopped;
                        Some(Action::Return(error))
                    } else {
                        self.retry();
                        Some(Action::Connect)
                    }
                },
                _ => None,
            },
            Phase::Streaming => match event {
                StreamEvent::Item(Ok(event)) => Some(Action::Forward(event)),
                StreamEvent::Item(Err(error)) => {
                    if error.is_terminal() {
                        self.phase = Phase::Sleeping;
                        Some(Action::Sleep(self.backoff_ms))
                    } else {
                        Some(Action::Pull)
                    }
                },
                StreamEvent::Ended => {
                    self.phase = Phase::Sleeping;
                    Some(Action::Sleep(self.backoff_ms))
                },
                _ => None,
            },
            Phase::Sleeping => match event {
                StreamEvent::Woke => {
                    self.retry();
                    Some(Action::Connect)
                },
                _ => None,
            },
            Phase::Stopped => None,
        }
    }
}

/// The first connection failing ends the consumer: the error goes back to the
/// caller, no further attempt is asked for, and nothing moves the consumer on.
pub proof fn lemma_cold_start_failure_is_returned<T>(error: DataError, later: StreamEvent<T>)
    ensures
        (ConsumerLoop { phase: Phase::Connecting, attempt: 1, backoff_ms: 250, cold: true }).next(
            StreamEvent::<T>::ConnectFailed(error),
        ) == Some(
            (
                ConsumerLoop { phase: Phase::Stopped, attempt: 1, backoff_ms: 250, cold: true },
                Action::<T>::Return(error),
            ),
        ),
        (ConsumerLoop { phase: Phase::Stopped, attempt: 1, backoff_ms: 250, cold: true }).next(
            later,
        ) is None,
{
}

/// Only the failure of the very first connection attempt is returned to the
/// caller.
pub proof fn lemma_only_cold_start_returns<T>(state: ConsumerLoop, event: StreamEvent<T>)
    requires
        state.next(event) matches Some((_, Action::Return(_))),
    ensures
        state.cold,
        state.attempt == 1,
        state.phase == Phase::Connecting,
        event is ConnectFailed,
{
}

/// Once a connection has been made the consumer never stops: whatever happens,
/// it stays warm, keeps out of the stopped phase and returns no error.
pub proof fn lemma_warm_consumer_never_stops<T>(state: ConsumerLoop, event: StreamEvent<T>)
    requires
        !state.cold,
        state.phase != Phase::Stopped,
    ensures
        state.next(event) matches Some((after, action)) ==> !after.cold && after.phase
            != Phase::Stopped && !(action is Return),
{
}

/// A connection that is made puts the consumer back to its first delay and
/// makes it warm, whatever went before.
pub proof fn lemma_connection_resets_backoff<T>(state: ConsumerLoop)
    requires
        state.phase == Phase::Connecting,
    ensures
        state.next(StreamEvent::<T>::Connected) == Some(
            (
                ConsumerLoop {
                    phase: Phase::Streaming,
                    attempt: 0,
                    backoff_ms: STARTING_RECONNECT_BACKOFF_MS,
                    cold: false,
                },
                Action::<T>::Pull,
            ),
        ),
{
}

/// A warm consumer whose reconnection fails tries again at once, and forwards
/// the events of the stream as soon as a later attempt succeeds.
pub proof fn lemma_failed_reconnect_is_retried<T>(
    state: ConsumerLoop,
    error: DataError,
    event: T,
)
    requires
        !state.cold,
        state.phase == Phase::Connecting,
    ensures
        state.next(StreamEvent::<T>::ConnectFailed(error)) == Some(
            (state.retrying(), Action::<T>::Connect),
        ),
        state.retrying().next(StreamEvent::<T>::Connected) == Some(
            (state.retrying().connected(), Action::<T>::Pull),
        ),
        state.retrying().connected().next(StreamEvent::Item(Ok(event))) == Some(
            (state.retrying().connected(), Action::Forward(event)),
        ),
{
}

} // verus!
