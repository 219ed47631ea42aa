//! The reservation that lets one operation on finished texts through at a time.

use vstd::prelude::*;
use crate::cancel::CancellationToken;

verus! {

/// The reservation: empty, or held for one job together with the flag that cancels its operation. It
/// lives in memory only, so that a crash leaves nothing held.
#[derive(Debug)]
pub struct ContentBusy {
    held: Option<(u128, CancellationToken)>,
}

impl View for ContentBusy {
    type V = Option<(u128, CancellationToken)>;

    closed spec fn view(&self) -> Option<(u128, CancellationToken)> {
        self.held
    }
}

/// The job that a reservation is held for.
pub open spec fn holder(busy: Option<(u128, CancellationToken)>) -> Option<u128> {
    match busy {
        Some((id, _)) => Some(id),
        None => None,
    }
}

impl ContentBusy {
    /// An empty reservation.
    pub fn new() -> (r: ContentBusy)
        ensures
            r@ is None,
    {
        ContentBusy { held: None }
    }

    /// The job that the reservation is held for.
    pub fn holder(&self) -> (r: Option<u128>)
        ensures
            r == holder(self@),
    {
        match &self.held {
            Some((id, _)) => Some(*id),
            None => None,
        }
    }

    /// Takes the reservation for a job, with a new flag: from here on the operation can be cancelled,
    /// though it may not have begun. A reservation that is held, for whichever job, stays as it is.
    pub fn reserve_content_operation(&mut self, job_id: u128) -> (taken: bool)
        ensures
            taken == (old(self)@ is None),
            holder(final(self)@) == (if taken {
                Some(job_id)
            } else {
                holder(old(self)@)
            }),
            !taken ==> final(self)@ == old(self)@,
    {
        if self.held.is_some() {
            return false;
        }
        self.held = Some((job_id, CancellationToken::new()));
        true
    }

    /// The flag of the operation that a job holds the reservation for.
    pub fn start_content_operation(&self, job_id: u128) -> (r: Option<CancellationToken>)
        ensures
            r == (match self@ {
                Some((id, token)) if id == job_id => Some(token),
                _ => None,
            }),
    {
        match &self.held {
            Some((id, token)) if *id == job_id => Some(token.clone()),
            _ => None,
        }
    }

    /// Gives the reservation back, where it is held for this job.
    pub fn clear_content_operation(&mut self, job_id: u128)
        ensures
            final(self)@ == (if holder(old(self)@) == Some(job_id) {
                None
            } else {
                old(self)@
            }),
    {
        if self.holder() == Some(job_id) {
            self.held = None;
        }
    }

    /// Sets the flag of a job's operation, and says whether there was one. The reservation stays held:
    /// the operation gives it back when it has seen the flag.
    pub fn cancel_content_operation(&self, job_id: u128) -> (r: bool)
        ensures
            r == (holder(self@) == Some(job_id)),
    {
        match self.start_content_operation(job_id) {
            Some(token) => {
                token.cancel();
                true
            },
            None => false,
        }
    }
}

} // verus!
