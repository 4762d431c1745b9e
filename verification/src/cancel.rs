//! Cooperative cancellation, without a runtime.
//!
//! A transport trips the token when the client disconnects or a deadline
//! passes; the run notices and unwinds. The token is a shared flag plus the
//! list of tasks waiting for it, so that it builds for any executor.

use vstd::prelude::*;

use std::sync::atomic::{AtomicBool, Ordering};
use std::sync::{Arc, Mutex};
use std::task::Waker;

verus! {

/// `std::sync::Mutex`, the lock around the waiting tasks.
#[verifier::external_type_specification]
#[verifier::external_body]
#[verifier::reject_recursive_types(T)]
pub struct ExMutex<T: ?Sized>(Mutex<T>);

/// `std::task::Waker`, the handle that wakes a waiting task.
#[verifier::external_type_specification]
#[verifier::external_body]
pub struct ExWaker(Waker);

/// `Mutex::new`: a lock around an empty list of waiting tasks.
#[verifier::external_body]
fn empty_waker_list() -> Mutex<Vec<Waker>> {
    Mutex::new(Vec::new())
}

/// `Mutex::lock` and `std::mem::take`: empties the list under the lock and
/// hands back what it held. A poisoned lock still holds a good list.
#[verifier::external_body]
fn take_wakers(list: &Mutex<Vec<Waker>>) -> Vec<Waker> {
    std::mem::take(&mut *list.lock().unwrap_or_else(|poisoned| poisoned.into_inner()))
}

/// `Mutex::lock` and `Vec::push`: adds a clone of `waker` to the list under
/// the lock.
#[verifier::external_body]
fn add_waker(list: &Mutex<Vec<Waker>>, waker: &Waker) {
    list.lock().unwrap_or_else(|poisoned| poisoned.into_inner()).push(waker.clone());
}

/// `Waker::wake`: wakes the task.
#[verifier::external_body]
fn wake(waker: Waker) {
    waker.wake();
}

/// What every clone of a token shares.
#[derive(Debug)]
struct Shared {
    cancelled: AtomicBool,
    wakers: Mutex<Vec<Waker>>,
}

/// A shared "stop now" flag. Every clone refers to the same flag, so a
/// transport can keep one and hand another to the run.
#[derive(Debug)]
pub struct CancellationToken {
    inner: Arc<Shared>,
}

impl Clone for CancellationToken {
    /// Another handle on the same flag.
    fn clone(&self) -> (copy: Self)
        ensures
            copy == *self,
    {
        CancellationToken { inner: Arc::clone(&self.inner) }
    }
}

impl Default for CancellationToken {
    fn default() -> (token: Self) {
        CancellationToken::new()
    }
}

impl CancellationToken {
    /// A fresh, un-cancelled token.
    pub fn new() -> (token: Self) {
        CancellationToken {
            inner: Arc::new(Shared { cancelled: AtomicBool::new(false), wakers: empty_waker_list() }),
        }
    }

    /// Trips the token and wakes everything waiting on it. Cancelling twice
    /// wakes nothing the second time.
    pub fn cancel(&self) {
        let was_cancelled = self.inner.cancelled.swap(true, Ordering::SeqCst);
        if !was_cancelled {
            let mut waiting = take_wakers(&self.inner.wakers);
            while waiting.len() > 0
                decreases waiting@.len(),
            {
                let waker = waiting.remove(0);
                wake(waker);
            }
        }
    }

    /// Whether the token has been tripped.
    pub fn is_cancelled(&self) -> (cancelled: bool) {
        self.inner.cancelled.load(Ordering::SeqCst)
    }

    /// A handle that resolves once the token is tripped: a wait on this
    /// very token.
    pub fn cancelled(&self) -> (waiter: Cancelled)
        ensures
            waiter.token_spec() == *self,
    {
        Cancelled { token: self.clone() }
    }
}

/// What [`CancellationToken::cancelled`] returns: a wait on the token that
/// owns a clone of it.
#[derive(Clone, Debug)]
pub struct Cancelled {
    token: CancellationToken,
}

impl Cancelled {
    /// The token being waited on.
    pub closed spec fn token_spec(&self) -> CancellationToken {
        self.token
    }

    /// The token being waited on.
    pub fn token(&self) -> (token: &CancellationToken)
        ensures
            *token == self.token_spec(),
    {
        &self.token
    }

    /// One poll of the wait: `true` once the token is tripped. Otherwise
    /// `waker` is registered to be woken by the cancel, and the flag is read
    /// again, so that a cancel between the first read and the registration is
    /// not missed.
    pub fn poll_with(&self, waker: &Waker) -> (ready: bool) {
        if self.token.is_cancelled() {
            return true;
        }
        add_waker(&self.token.inner.wakers, waker);
        self.token.is_cancelled()
    }
}

} // verus!
