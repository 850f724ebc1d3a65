//! Asynchronous loading primitive.
//!
//! A [`Loader`] represents a value being produced by a concurrently executing
//! unit of work.  It offers readiness polling, blocking retrieval with an
//! optional deadline, and a single-consumer `take`; the slot is filled at most
//! once and misuse surfaces as typed errors, never as aborts.

use vstd::prelude::*;

verus! {

/// Errors that `Loader<T>` can return.
#[derive(Debug, PartialEq, Eq)]
pub enum LoaderError {
    /// The wait deadline passed before the background work finished.
    Timeout,
    /// The background work ended without producing a value.
    Disconnected,
    /// The value was already moved out of this loader.
    AlreadyTaken,
}

/// Declares std::sync::mpsc::Receiver, the receiving end of the channel a
/// background worker publishes its value on; the type is opaque here.
#[verifier::external_type_specification]
#[verifier::external_body]
#[verifier::reject_recursive_types(T)]
pub struct ExReceiver<T>(std::sync::mpsc::Receiver<T>);

/// What one bounded receive attempt produced.
enum RecvOutcome<T> {
    Received(T),
    TimedOut,
    Closed,
}

/// Relies on std::sync::mpsc::channel and rayon::spawn: starts `f` on a rayon
/// worker and returns the receiving end of a channel; the worker sends the
/// value `f` returns and then drops the sending end.
#[verifier::external_body]
fn spawn_worker<T: Send + 'static, F: FnOnce() -> T + Send + 'static>(f: F) -> (rx:
    std::sync::mpsc::Receiver<T>)
    requires
        f.requires(()),
{
    let (tx, rx) = std::sync::mpsc::channel();
    rayon::spawn(move || {
        let value = f();
        let _ = tx.send(value);
    });
    rx
}

/// Relies on std::sync::mpsc::Receiver::try_recv: returns a value if one is
/// already waiting on the channel, and nothing otherwise; never blocks.
#[verifier::external_body]
fn poll_worker<T>(rx: &std::sync::mpsc::Receiver<T>) -> (r: Option<T>) {
    rx.try_recv().ok()
}

/// Relies on std::sync::mpsc::Receiver::recv: blocks until the worker sends a
/// value, or returns nothing when the sending end was dropped without one.
#[verifier::external_body]
fn await_worker<T>(rx: &std::sync::mpsc::Receiver<T>) -> (r: Option<T>) {
    rx.recv().ok()
}

/// Relies on std::sync::mpsc::Receiver::recv_timeout: blocks for at most the
/// given number of milliseconds; the three outcomes a receive can have are
/// mapped onto `RecvOutcome`, one variant each.
#[verifier::external_body]
fn await_worker_timeout<T>(rx: &std::sync::mpsc::Receiver<T>, millis: u64) -> (r: RecvOutcome<T>) {
    match rx.recv_timeout(std::time::Duration::from_millis(millis)) {
        Ok(v) => RecvOutcome::Received(v),
        Err(std::sync::mpsc::RecvTimeoutError::Timeout) => RecvOutcome::TimedOut,
        Err(std::sync::mpsc::RecvTimeoutError::Disconnected) => RecvOutcome::Closed,
    }
}

/// A handle to a value produced by a background unit of work.  The owned slot
/// starts empty and is filled at most once, when a poll or a wait observes
/// that the work finished; `take` moves the value out exactly once.
#[verifier::reject_recursive_types(T)]
pub struct Loader<T> {
    rx: Option<std::sync::mpsc::Receiver<T>>,
    slot: Option<T>,
    taken: bool,
}

impl<T> Loader<T> {
    /// Background work may still be running.
    pub closed spec fn is_pending(&self) -> bool {
        self.rx is Some
    }

    /// The value held in the slot, once the loader observed readiness.
    pub closed spec fn value(&self) -> Option<T> {
        self.slot
    }

    /// The value was already moved out by `take`.
    pub closed spec fn is_taken(&self) -> bool {
        self.taken
    }

    /// The slot is filled at most once and never after the value was taken:
    /// a held value excludes both a running worker and a completed take.
    #[verifier::type_invariant]
    spec fn wf(&self) -> bool {
        (self.slot is Some ==> self.rx is None && !self.taken) && (self.taken ==> self.rx is None)
    }

    /// Start `work` on a separate execution context; returns immediately
    /// without blocking the caller.
    pub fn with_closure<F: FnOnce() -> T + Send + 'static>(func: F) -> (l: Self) where
        T: Send + 'static,

        requires
            func.requires(()),
        ensures
            l.is_pending(),
            l.value() is None,
            !l.is_taken(),
    {
        Loader { rx: Some(spawn_worker(func)), slot: None, taken: false }
    }

    /// Wrap a value whose underlying storage is only safe to read once an
    /// external completion signal has fired: a background waiter runs the
    /// signal to completion and then publishes the value.
    pub fn with_signal<F: FnOnce() + Send + 'static>(value: T, completion: F) -> (l: Self) where
        T: Send + 'static,

        requires
            completion.requires(()),
        ensures
            l.is_pending(),
            l.value() is None,
            !l.is_taken(),
    {
        let work = move || -> (out: T)
            ensures
                out == value,
            {
                completion();
                value
            };
        Loader::with_closure(work)
    }

    /// Wrap a value that is usable here and now.
    pub fn with_value(value: T) -> (l: Self)
        ensures
            !l.is_pending(),
            l.value() == Some(value),
            !l.is_taken(),
    {
        Loader { rx: None, slot: Some(value), taken: false }
    }

    /// Non-blocking poll: true exactly when the value is in the slot, which
    /// includes every value observed by an earlier poll or wait.
    pub fn is_ready(&mut self) -> (r: bool)
        ensures
            r == (final(self).value() is Some),
            final(self).is_taken() == old(self).is_taken(),
            old(self).value() is Some ==> final(self).value() == old(self).value(),
            old(self).is_taken() ==> final(self).value() is None,
            !old(self).is_pending() ==> *final(self) == *old(self),
    {
        proof {
            use_type_invariant(&*self);
        }
        let got: Option<T> = match &self.rx {
            Some(rx) => poll_worker(rx),
            None => None,
        };
        if got.is_some() {
            self.rx = None;
            self.slot = got;
        }
        self.slot.is_some()
    }

    /// Block until the background work finishes, or until the optional
    /// deadline (in milliseconds) passes.
    pub fn wait(&mut self, timeout_millis: Option<u64>) -> (r: Result<(), LoaderError>)
        ensures
            final(self).is_taken() == old(self).is_taken(),
            old(self).value() is Some ==> final(self).value() == old(self).value(),
            old(self).is_taken() ==> final(self).value() is None,
            match r {
                Ok(()) => final(self).value() is Some || final(self).is_taken(),
                Err(LoaderError::Timeout) => timeout_millis is Some && *final(self) == *old(self),
                Err(LoaderError::Disconnected) => !final(self).is_pending() && final(self).value()
                    is None && !final(self).is_taken(),
                Err(LoaderError::AlreadyTaken) => false,
            },
    {
        proof {
            use_type_invariant(&*self);
        }
        if self.taken {
            return Ok(());
        }
        if self.slot.is_some() {
            return Ok(());
        }
        if self.rx.is_none() {
            return Err(LoaderError::Disconnected);
        }
        match timeout_millis {
            None => {
                let got = await_worker(self.rx.as_ref().unwrap());
                match got {
                    Some(v) => {
                        self.rx = None;
                        self.slot = Some(v);
                        Ok(())
                    },
                    None => {
                        self.rx = None;
                        Err(LoaderError::Disconnected)
                    },
                }
            },
            Some(ms) => {
                match await_worker_timeout(self.rx.as_ref().unwrap(), ms) {
                    RecvOutcome::Received(v) => {
                        self.rx = None;
                        self.slot = Some(v);
                        Ok(())
                    },
                    RecvOutcome::TimedOut => Err(LoaderError::Timeout),
                    RecvOutcome::Closed => {
                        self.rx = None;
                        Err(LoaderError::Disconnected)
                    },
                }
            },
        }
    }

    /// Blocking borrow of the value; an error when the work ended without a
    /// value or the value was already taken.
    pub fn get_ref(&mut self) -> (r: Result<&T, LoaderError>)
        ensures
            final(self).is_taken() == old(self).is_taken(),
            old(self).value() is Some ==> final(self).value() == old(self).value(),
            old(self).is_taken() ==> (r matches Err(LoaderError::AlreadyTaken)),
            match r {
                Ok(v) => final(self).value() == Some(*v),
                Err(LoaderError::Timeout) => false,
                Err(LoaderError::Disconnected) => !old(self).is_taken() && old(self).value()
                    is None && final(self).value() is None,
                Err(LoaderError::AlreadyTaken) => old(self).is_taken() && *final(self) == *old(
                    self,
                ),
            },
    {
        proof {
            use_type_invariant(&*self);
        }
        if self.taken {
            return Err(LoaderError::AlreadyTaken);
        }
        match self.wait(None) {
            Ok(()) => Ok(self.slot.as_ref().unwrap()),
            Err(e) => Err(e),
        }
    }

    /// Blocking move of the value out of the loader; at most one call ever
    /// returns a value, every later call reports the value as taken.
    pub fn take(&mut self) -> (r: Result<T, LoaderError>)
        ensures
            final(self).value() is None,
            match r {
                Ok(v) => !old(self).is_taken() && final(self).is_taken() && (old(self).value()
                    matches Some(x) ==> v == x),
                Err(LoaderError::Timeout) => false,
                Err(LoaderError::Disconnected) => !old(self).is_taken() && old(self).value()
                    is None && !final(self).is_taken() && !final(self).is_pending(),
                Err(LoaderError::AlreadyTaken) => old(self).is_taken() && final(self).is_taken(),
            },
            old(self).is_taken() ==> (r matches Err(LoaderError::AlreadyTaken)),
    {
        proof {
            use_type_invariant(&*self);
        }
        if self.taken {
            return Err(LoaderError::AlreadyTaken);
        }
        match self.wait(None) {
            Ok(()) => {
                proof {
                    use_type_invariant(&*self);
                }
                let mut v_opt: Option<T> = None;
                std::mem::swap(&mut v_opt, &mut self.slot);
                self.taken = true;
                Ok(v_opt.unwrap())
            },
            Err(e) => Err(e),
        }
    }

    /// Unwrap the value, consuming the loader.
    pub fn unwrap(self) -> (r: Result<T, LoaderError>)
        ensures
            match r {
                Ok(v) => self.value() matches Some(x) ==> v == x,
                Err(LoaderError::Timeout) => false,
                Err(LoaderError::Disconnected) => !self.is_taken() && self.value() is None,
                Err(LoaderError::AlreadyTaken) => self.is_taken(),
            },
    {
        let mut this = self;
        this.take()
    }
}

impl<T: Clone> Loader<T> {
    /// Clone the value out without consuming the loader: a copy when the
    /// value is ready, and nothing otherwise.
    pub fn snapshot(&mut self) -> (r: Option<T>)
        ensures
            r is Some <==> final(self).value() is Some,
            final(self).is_taken() == old(self).is_taken(),
            old(self).value() is Some ==> final(self).value() == old(self).value(),
            old(self).is_taken() ==> r is None,
    {
        let ready = self.is_ready();
        if ready {
            proof {
                use_type_invariant(&*self);
            }
            Some(self.slot.as_ref().unwrap().clone())
        } else {
            None
        }
    }
}

} // verus!
