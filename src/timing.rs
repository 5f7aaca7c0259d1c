use vstd::prelude::*;

verus! {

/// Start and finish instants of one request, in nanoseconds on a monotonic
/// clock chosen by the caller.
pub struct RequestTimer {
    start: Option<u64>,
    finish: Option<u64>,
}

/// Asked for the duration of a request that has not finished.
#[derive(Clone, Copy, Debug, PartialEq, Eq, Structural)]
pub struct IncompleteRequest;

impl View for RequestTimer {
    type V = (Option<u64>, Option<u64>);

    closed spec fn view(&self) -> (Option<u64>, Option<u64>) {
        (self.start, self.finish)
    }
}

impl RequestTimer {
    pub fn new() -> (t: RequestTimer)
        ensures
            t@ == (None::<u64>, None::<u64>),
    {
        RequestTimer { start: None, finish: None }
    }

    /// The request is being driven at `now`; only the first call records the start.
    pub fn on_poll(&mut self, now: u64)
        ensures
            final(self)@.0 == (match old(self)@.0 {
                Some(s) => Some(s),
                None => Some(now),
            }),
            final(self)@.1 == old(self)@.1,
    {
        if self.start.is_none() {
            self.start = Some(now);
        }
    }

    /// The response arrived at `now`.
    pub fn on_ready(&mut self, now: u64)
        ensures
            final(self)@.0 == old(self)@.0,
            final(self)@.1 == Some(now),
    {
        self.finish = Some(now);
    }

    /// Time from start to finish, zero if the clock gave a finish before the start.
    pub fn duration(&self) -> (r: Result<u64, IncompleteRequest>)
        ensures
            match self@ {
                (Some(s), Some(f)) => r == Ok::<u64, IncompleteRequest>(
                    if f >= s { (f - s) as u64 } else { 0 },
                ),
                _ => r == Err::<u64, IncompleteRequest>(IncompleteRequest),
            },
    {
        match (self.start, self.finish) {
            (Some(s), Some(f)) => Ok(f.saturating_sub(s)),
            _ => Err(IncompleteRequest),
        }
    }
}

} // verus!
