use vstd::prelude::*;

use crate::config::{parse_uri, uri_parses, Config, ConfigError};
use crate::outcome::{failure_count, lemma_counts_split, success_count, Outcome};
use crate::stats::{aggregate, summarizes, Stats};

verus! {

/// The dispatcher's state as numbers and the outcomes collected so far.
pub struct DispatchView {
    pub number: nat,
    pub concurrency: nat,
    pub running: nat,
    pub finished: nat,
    pub outcomes: Seq<Outcome>,
}

impl DispatchView {
    /// Never more than `concurrency` in flight, never more than `number`
    /// launched, one outcome for each finished request.
    pub open spec fn wf(self) -> bool {
        &&& self.concurrency >= 1
        &&& self.running <= self.concurrency
        &&& self.running + self.finished <= self.number
        &&& self.outcomes.len() == self.finished
    }

    /// Requests launched so far.
    pub open spec fn launched(self) -> nat {
        self.running + self.finished
    }

    /// A slot is free and requests remain to be launched.
    pub open spec fn can_launch(self) -> bool {
        self.running < self.concurrency && self.running + self.finished < self.number
    }

    pub open spec fn is_complete(self) -> bool {
        self.finished == self.number
    }

    /// Launches and completions still owed; each of them lowers it by one.
    pub open spec fn pending_work(self) -> nat {
        ((self.number - self.launched()) + (self.number - self.finished)) as nat
    }
}

/// `b` follows `a` by the launch of one request.
pub open spec fn launches(a: DispatchView, b: DispatchView) -> bool {
    &&& !a.is_complete()
    &&& a.can_launch()
    &&& b == DispatchView { running: a.running + 1, ..a }
}

/// `b` follows `a` by the completion of one request in flight.
pub open spec fn completes(a: DispatchView, b: DispatchView) -> bool {
    &&& a.running > 0
    &&& b.number == a.number
    &&& b.concurrency == a.concurrency
    &&& b.running == a.running - 1
    &&& b.finished == a.finished + 1
    &&& b.outcomes.len() == a.outcomes.len() + 1
    &&& b.outcomes.drop_last() == a.outcomes
}

/// A run as the driver sees it: it starts with nothing launched, and each
/// state follows the one before by a launch, a completion, or no change.
pub open spec fn is_run(t: Seq<DispatchView>) -> bool {
    &&& t.len() > 0
    &&& t[0].wf()
    &&& t[0].running == 0
    &&& t[0].finished == 0
    &&& forall|i: int|
        0 <= i < t.len() - 1 ==> launches(#[trigger] t[i], t[i + 1]) || completes(t[i], t[i + 1])
            || t[i + 1] == t[i]
}

/// Number of launches along the states `t`.
pub open spec fn launch_count(t: Seq<DispatchView>) -> nat
    decreases t.len(),
{
    if t.len() <= 1 {
        0
    } else {
        launch_count(t.drop_last()) + if launches(t[t.len() - 2], t.last()) {
            1nat
        } else {
            0nat
        }
    }
}

/// What the driver of a run does next.
#[derive(Clone, Copy, Debug, PartialEq, Eq, Structural)]
pub enum Step {
    /// Start one more request; its slot is already counted.
    Launch,
    /// Wait for the next completion.
    Await,
    /// Every outcome is in.
    Complete,
}

/// What the driver saw while waiting.
#[derive(Debug)]
pub enum Event {
    /// A request finished with this outcome.
    Completed(Outcome),
    /// The channel of completions was closed.
    Closed,
}

/// A breach of the protocol between the driver and the dispatcher.
#[derive(Clone, Copy, Debug, PartialEq, Eq, Structural)]
pub enum DispatchError {
    /// The channel closed before every outcome had arrived.
    ClosedEarly,
    /// An outcome arrived while no request was in flight.
    UnexpectedCompletion,
}

/// Bounded-concurrency dispatcher of the requests of one run.
pub struct Rubber {
    uri: hyper::Uri,
    number: u32,
    concurrency: u16,
    running: u16,
    finished: u32,
    outcomes: Vec<Outcome>,
}

impl View for Rubber {
    type V = DispatchView;

    closed spec fn view(&self) -> DispatchView {
        DispatchView {
            number: self.number as nat,
            concurrency: self.concurrency as nat,
            running: self.running as nat,
            finished: self.finished as nat,
            outcomes: self.outcomes@,
        }
    }
}

impl Rubber {
    pub closed spec fn target(&self) -> hyper::Uri {
        self.uri
    }

    pub open spec fn wf(&self) -> bool {
        self@.wf()
    }

    /// A dispatcher for `number` requests to `uri`, at most `concurrency` at once.
    pub fn new(uri: hyper::Uri, number: u32, concurrency: u16) -> (r: Result<Rubber, ConfigError>)
        ensures
            concurrency == 0 <==> r == Err::<Rubber, ConfigError>(ConfigError::ZeroConcurrency),
            concurrency != 0 <==> r is Ok,
            r is Ok ==> ({
                let d = r->Ok_0;
                &&& d.wf()
                &&& d.target() == uri
                &&& d@.number == number
                &&& d@.concurrency == concurrency
                &&& d@.running == 0
                &&& d@.finished == 0
                &&& d@.outcomes == Seq::<Outcome>::empty()
            }),
    {
        if concurrency == 0 {
            return Err(ConfigError::ZeroConcurrency);
        }
        Ok(Rubber { uri, number, concurrency, running: 0, finished: 0, outcomes: Vec::new() })
    }

    /// Checks the configuration and builds its dispatcher.
    pub fn from_config(config: &Config) -> (r: Result<Rubber, ConfigError>)
        ensures
            !uri_parses(config.url@) <==> r == Err::<Rubber, ConfigError>(ConfigError::InvalidUrl),
            uri_parses(config.url@) && config.concurrency == 0 <==> r == Err::<
                Rubber,
                ConfigError,
            >(ConfigError::ZeroConcurrency),
            uri_parses(config.url@) && config.concurrency != 0 <==> r is Ok,
            r is Ok ==> ({
                let d = r->Ok_0;
                &&& d.wf()
                &&& d@.number == config.number
                &&& d@.concurrency == config.concurrency
                &&& d@.running == 0
                &&& d@.finished == 0
                &&& d@.outcomes == Seq::<Outcome>::empty()
            }),
    {
        match parse_uri(config.url.as_str()) {
            None => Err(ConfigError::InvalidUrl),
            Some(uri) => Rubber::new(uri, config.number, config.concurrency),
        }
    }

    /// Decides the next step. On `Launch` the new request's slot is taken at
    /// once, so the limit holds before the request starts.
    pub fn next_step(&mut self) -> (s: Step)
        requires
            old(self).wf(),
        ensures
            final(self).wf(),
            final(self).target() == old(self).target(),
            old(self)@.is_complete() ==> s == Step::Complete && final(self)@ == old(self)@,
            !old(self)@.is_complete() && old(self)@.can_launch() ==> s == Step::Launch
                && final(self)@ == (DispatchView {
                running: old(self)@.running + 1,
                ..old(self)@
            }),
            !old(self)@.is_complete() && !old(self)@.can_launch() ==> s == Step::Await
                && final(self)@ == old(self)@ && old(self)@.running > 0,
            s == Step::Launch ==> launches(old(self)@, final(self)@),
            s != Step::Launch ==> final(self)@ == old(self)@,
            s == Step::Launch ==> final(self)@.pending_work() < old(self)@.pending_work(),
    {
        if self.finished == self.number {
            Step::Complete
        } else if self.running < self.concurrency && (self.running as u32) < self.number
            - self.finished {
            self.running = self.running + 1;
            Step::Launch
        } else {
            Step::Await
        }
    }

    /// Takes in what the driver saw while waiting.
    pub fn handle(&mut self, event: Event) -> (r: Result<(), DispatchError>)
        requires
            old(self).wf(),
        ensures
            final(self).wf(),
            final(self).target() == old(self).target(),
            match event {
                Event::Completed(o) => if old(self)@.running > 0 {
                    &&& r is Ok
                    &&& completes(old(self)@, final(self)@)
                    &&& final(self)@ == (DispatchView {
                        running: (old(self)@.running - 1) as nat,
                        finished: old(self)@.finished + 1,
                        outcomes: old(self)@.outcomes.push(o),
                        ..old(self)@
                    })
                    &&& final(self)@.pending_work() < old(self)@.pending_work()
                } else {
                    &&& r == Err::<(), DispatchError>(DispatchError::UnexpectedCompletion)
                    &&& final(self)@ == old(self)@
                },
                Event::Closed => {
                    &&& (old(self)@.is_complete() <==> r is Ok)
                    &&& (r is Err ==> r == Err::<(), DispatchError>(DispatchError::ClosedEarly))
                    &&& final(self)@ == old(self)@
                },
            },
    {
        match event {
            Event::Completed(o) => {
                if self.running == 0 {
                    return Err(DispatchError::UnexpectedCompletion);
                }
                self.running = self.running - 1;
                self.finished = self.finished + 1;
                self.outcomes.push(o);
                assert(self@.outcomes.drop_last() =~= old(self)@.outcomes);
                Ok(())
            },
            Event::Closed => {
                if self.finished == self.number {
                    Ok(())
                } else {
                    Err(DispatchError::ClosedEarly)
                }
            },
        }
    }

    /// The summary of the run, once every outcome is in.
    pub fn stats(&self) -> (r: Option<Stats>)
        requires
            self.wf(),
        ensures
            r is Some <==> self@.is_complete(),
            r is Some ==> summarizes(r->Some_0, self@.outcomes),
    {
        if self.finished == self.number {
            Some(aggregate(&self.outcomes))
        } else {
            None
        }
    }

    pub fn uri(&self) -> (r: &hyper::Uri)
        ensures
            *r == self.target(),
    {
        &self.uri
    }

    pub fn number(&self) -> (r: u32)
        ensures
            r == self@.number,
    {
        self.number
    }

    pub fn concurrency(&self) -> (r: u16)
        ensures
            r == self@.concurrency,
    {
        self.concurrency
    }

    pub fn running(&self) -> (r: u16)
        ensures
            r == self@.running,
    {
        self.running
    }

    pub fn finished(&self) -> (r: u32)
        ensures
            r == self@.finished,
    {
        self.finished
    }

    pub fn is_complete(&self) -> (r: bool)
        ensures
            r == self@.is_complete(),
    {
        self.finished == self.number
    }

    pub fn outcomes(&self) -> (r: &Vec<Outcome>)
        ensures
            r@ == self@.outcomes,
    {
        &self.outcomes
    }
}

/// A finished run launched exactly `number` requests, has none in flight, and
/// counts every request once, as a success or as an error.
pub proof fn lemma_complete_run(v: DispatchView)
    requires
        v.wf(),
        v.is_complete(),
    ensures
        v.running == 0,
        v.launched() == v.number,
        v.outcomes.len() == v.number,
        success_count(v.outcomes) + failure_count(v.outcomes) == v.number,
        v.pending_work() == 0,
{
    lemma_counts_split(v.outcomes);
}

/// Along any run, every state keeps the limit, the requests launched so far
/// are exactly the launches made, and a run that reaches completion launched
/// exactly `number` requests and counts each one once, as a success or an error.
pub proof fn lemma_run(t: Seq<DispatchView>)
    requires
        is_run(t),
    ensures
        forall|i: int| 0 <= i < t.len() ==> (#[trigger] t[i]).wf() && t[i].running <= t[i].concurrency,
        launch_count(t) == t.last().launched(),
        t.last().number == t[0].number,
        t.last().concurrency == t[0].concurrency,
        t.last().is_complete() ==> launch_count(t) == t[0].number,
        t.last().is_complete() ==> success_count(t.last().outcomes) + failure_count(
            t.last().outcomes,
        ) == t[0].number,
    decreases t.len(),
{
    if t.len() > 1 {
        let p = t.drop_last();
        assert forall|i: int| 0 <= i < p.len() - 1 implies launches(#[trigger] p[i], p[i + 1])
            || completes(p[i], p[i + 1]) || p[i + 1] == p[i] by {
            assert(p[i] == t[i] && p[i + 1] == t[i + 1]);
        }
        lemma_run(p);
        let a = t[t.len() - 2];
        let b = t.last();
        assert(a == p.last());
        assert(launches(a, b) || completes(a, b) || b == a);
        assert(p[p.len() - 1] == a);
        assert(b.wf());
        assert forall|i: int| 0 <= i < t.len() implies (#[trigger] t[i]).wf() && t[i].running
            <= t[i].concurrency by {
            if i < t.len() - 1 {
                assert(t[i] == p[i]);
            }
        }
    }
    if t.last().is_complete() {
        lemma_complete_run(t.last());
    }
}

/// A run of no requests is complete from the start: nothing to launch, nothing
/// counted.
pub proof fn lemma_empty_run(v: DispatchView)
    requires
        v.wf(),
        v.number == 0,
    ensures
        v.is_complete(),
        !v.can_launch(),
        v.running == 0,
        success_count(v.outcomes) == 0,
        failure_count(v.outcomes) == 0,
{
    assert(v.outcomes =~= Seq::<Outcome>::empty());
}

/// With one slot, a request is launched only when every earlier one has its
/// outcome recorded.
pub proof fn lemma_single_slot_sequential(v: DispatchView)
    requires
        v.wf(),
        v.concurrency == 1,
        v.can_launch(),
    ensures
        v.running == 0,
        v.outcomes.len() == v.launched(),
{
}

/// While the run is not complete, the dispatcher either may launch or has a
/// request in flight whose completion it waits for.
pub proof fn lemma_progress(v: DispatchView)
    requires
        v.wf(),
        !v.is_complete(),
    ensures
        v.can_launch() || v.running > 0,
        v.pending_work() > 0,
{
}

} // verus!
