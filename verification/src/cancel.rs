//! Cancelling a job while it runs.

use std::collections::HashMap;
use std::sync::atomic::{AtomicBool, Ordering};
use std::sync::Arc;
use vstd::prelude::*;
use crate::text::text;

verus! {

broadcast use vstd::std_specs::hash::group_hash_axioms;

/// A flag that asks a job to stop. Its clones share it, and another thread may set it at any
/// time.
#[derive(Debug)]
pub struct CancellationToken {
    flag: Arc<AtomicBool>,
}

impl Clone for CancellationToken {
    /// A clone is the same flag.
    fn clone(&self) -> (r: Self)
        ensures
            r == *self,
    {
        CancellationToken { flag: self.flag.clone() }
    }
}

/// A job was asked to stop.
#[derive(Debug, Clone, Copy, PartialEq, Eq)]
pub struct CancelledError;

impl CancelledError {
    /// The error in words.
    pub fn describe(&self) -> (r: String)
        ensures
            r@ == "cancelled"@,
    {
        text("cancelled")
    }
}

/// What a job does that has read its flag.
pub fn check_flag(cancelled: bool) -> (r: Result<(), CancelledError>)
    ensures
        r is Err == cancelled,
{
    if cancelled {
        Err(CancelledError)
    } else {
        Ok(())
    }
}

impl CancellationToken {
    /// A flag that is not set.
    pub fn new() -> (r: CancellationToken) {
        CancellationToken { flag: Arc::new(AtomicBool::new(false)) }
    }

    /// Sets the flag. It is never taken back.
    pub fn cancel(&self) {
        self.flag.store(true, Ordering::SeqCst);
    }

    /// Reads the flag.
    pub fn is_cancelled(&self) -> bool {
        self.flag.load(Ordering::SeqCst)
    }

    /// Reads the flag, as an error where it is set.
    pub fn check(&self) -> Result<(), CancelledError> {
        check_flag(self.is_cancelled())
    }
}

/// The flags of the jobs that run.
#[derive(Debug)]
pub struct CancellationRegistry {
    tokens: HashMap<u128, CancellationToken>,
}

impl View for CancellationRegistry {
    type V = Map<u128, CancellationToken>;

    closed spec fn view(&self) -> Map<u128, CancellationToken> {
        self.tokens@
    }
}

impl CancellationRegistry {
    /// No job runs.
    pub fn new() -> (r: CancellationRegistry)
        ensures
            r@ == Map::<u128, CancellationToken>::empty(),
    {
        CancellationRegistry { tokens: HashMap::new() }
    }

    /// Gives a job a new flag, in place of any that it had, and hands the same flag out.
    pub fn register(&mut self, job_id: u128) -> (token: CancellationToken)
        ensures
            final(self)@ == old(self)@.insert(job_id, token),
    {
        let token = CancellationToken::new();
        self.tokens.insert(job_id, token.clone());
        token
    }

    /// The flag of a job.
    pub fn get(&self, job_id: u128) -> (r: Option<CancellationToken>)
        ensures
            r == (if self@.contains_key(job_id) {
                Some(self@[job_id])
            } else {
                None
            }),
    {
        match self.tokens.get(&job_id) {
            Some(token) => Some(token.clone()),
            None => None,
        }
    }

    /// Forgets the flag of a job.
    pub fn remove(&mut self, job_id: u128)
        ensures
            final(self)@ == old(self)@.remove(job_id),
    {
        self.tokens.remove(&job_id);
    }

    /// Sets the flag of a job, and says whether it has one.
    pub fn cancel(&self, job_id: u128) -> (known: bool)
        ensures
            known == self@.contains_key(job_id),
    {
        match self.get(job_id) {
            Some(token) => {
                token.cancel();
                true
            },
            None => false,
        }
    }
}

} // verus!
