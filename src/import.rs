use vstd::prelude::*;

use crate::error::{BgError, ErrorView};
use crate::reconcile::Names;
use crate::record::Bg;

verus! {

/// The names of a fetched list, as sequences of characters.
pub open spec fn names_of(v: Seq<String>) -> Names {
    v.map_values(|s: String| s@)
}

/// Where an import stands.
#[derive(Debug)]
pub enum Phase {
    /// Waiting for the lookup of the current name (or done, past the last).
    Lookup,
    /// Waiting for the insertion of the current name.
    Insert,
    /// Stopped by an error.
    Failed(BgError),
}

pub enum PhaseView {
    Lookup,
    Insert,
    Failed(ErrorView),
}

/// One run of the import: the fetched names, the position of the name at
/// hand, and how many records it has inserted so far.
#[derive(Debug)]
pub struct ImportRun {
    names: Vec<String>,
    next: usize,
    added: usize,
    phase: Phase,
}

/// The abstract state of an import run.
pub struct RunView {
    pub names: Names,
    pub next: nat,
    pub added: nat,
    pub phase: PhaseView,
}

/// What the run asks of its driver.
#[derive(Debug)]
pub enum Action {
    /// Look the name up in the store.
    FindByName(String),
    /// Insert a record with this name.
    Insert(String),
    /// The run is over: the number of records inserted, or the error.
    Finish(Result<usize, BgError>),
}

pub enum ActionView {
    FindByName(Seq<char>),
    Insert(Seq<char>),
    Finish(Result<nat, ErrorView>),
}

/// What the driver reports back: the outcome of a store operation, with the
/// textual description of a failure.
#[derive(Debug)]
pub enum Event {
    LookedUp(Result<Option<Bg>, String>),
    Inserted(Result<(), String>),
}

pub enum EventView {
    /// Whether the store holds the name, or why the lookup failed.
    LookedUp(Result<bool, Seq<char>>),
    Inserted(Result<(), Seq<char>>),
}

impl View for Phase {
    type V = PhaseView;

    open spec fn view(&self) -> PhaseView {
        match self {
            Phase::Lookup => PhaseView::Lookup,
            Phase::Insert => PhaseView::Insert,
            Phase::Failed(e) => PhaseView::Failed(e@),
        }
    }
}

impl View for ImportRun {
    type V = RunView;

    closed spec fn view(&self) -> RunView {
        RunView {
            names: names_of(self.names@),
            next: self.next as nat,
            added: self.added as nat,
            phase: self.phase@,
        }
    }
}

impl View for Action {
    type V = ActionView;

    open spec fn view(&self) -> ActionView {
        match self {
            Action::FindByName(n) => ActionView::FindByName(n@),
            Action::Insert(n) => ActionView::Insert(n@),
            Action::Finish(Ok(k)) => ActionView::Finish(Ok(*k as nat)),
            Action::Finish(Err(e)) => ActionView::Finish(Err(e@)),
        }
    }
}

impl View for Event {
    type V = EventView;

    open spec fn view(&self) -> EventView {
        match self {
            Event::LookedUp(Ok(found)) => EventView::LookedUp(Ok(found is Some)),
            Event::LookedUp(Err(m)) => EventView::LookedUp(Err(m@)),
            Event::Inserted(Ok(())) => EventView::Inserted(Ok(())),
            Event::Inserted(Err(m)) => EventView::Inserted(Err(m@)),
        }
    }
}

/// The run that starts from the outcome of the fetch: the first name, or
/// the fetch error.
pub open spec fn started(fetched: Result<Names, Seq<char>>) -> RunView {
    match fetched {
        Ok(names) => RunView { names, next: 0, added: 0, phase: PhaseView::Lookup },
        Err(m) => RunView {
            names: Seq::empty(),
            next: 0,
            added: 0,
            phase: PhaseView::Failed(ErrorView::Fetch(m)),
        },
    }
}

impl RunView {
    pub open spec fn well_formed(self) -> bool {
        &&& self.added <= self.next <= self.names.len()
        &&& self.phase is Insert ==> self.next < self.names.len()
    }

    /// The run is over: it failed, or every name was handled.
    pub open spec fn is_over(self) -> bool {
        ||| self.phase is Failed
        ||| (self.phase is Lookup && self.next >= self.names.len())
    }

    /// What the run asks for in this state.
    pub open spec fn action(self) -> ActionView {
        match self.phase {
            PhaseView::Failed(e) => ActionView::Finish(Err(e)),
            PhaseView::Insert => ActionView::Insert(self.names[self.next as int]),
            PhaseView::Lookup => if self.next < self.names.len() {
                ActionView::FindByName(self.names[self.next as int])
            } else {
                ActionView::Finish(Ok(self.added))
            },
        }
    }

    /// The state after the driver reports `e`. A name that the store holds
    /// is skipped, one that it lacks is inserted and counted, and a failed
    /// operation stops the run with a store error. A report that answers no
    /// pending request leaves the state as it is.
    pub open spec fn after(self, e: EventView) -> RunView {
        match self.phase {
            PhaseView::Lookup => if self.next < self.names.len() {
                match e {
                    EventView::LookedUp(Ok(true)) => RunView { next: self.next + 1, ..self },
                    EventView::LookedUp(Ok(false)) => RunView { phase: PhaseView::Insert, ..self },
                    EventView::LookedUp(Err(m)) => RunView {
                        phase: PhaseView::Failed(ErrorView::Store(m)),
                        ..self
                    },
                    EventView::Inserted(_) => self,
                }
            } else {
                self
            },
            PhaseView::Insert => match e {
                EventView::Inserted(Ok(())) => RunView {
                    next: self.next + 1,
                    added: self.added + 1,
                    phase: PhaseView::Lookup,
                    ..self
                },
                EventView::Inserted(Err(m)) => RunView {
                    phase: PhaseView::Failed(ErrorView::Store(m)),
                    ..self
                },
                EventView::LookedUp(_) => self,
            },
            PhaseView::Failed(_) => self,
        }
    }
}

impl ImportRun {
    #[verifier::type_invariant]
    spec fn inv(self) -> bool {
        self@.well_formed()
    }

    /// Starts a run on the outcome of the fetch of the remote names, and
    /// returns it with its first request. A failed fetch ends the run at
    /// once, before any store operation.
    pub fn start(fetched: Result<Vec<String>, String>) -> (r: (ImportRun, Action))
        ensures
            r.0@ == started(
                match fetched {
                    Ok(v) => Ok(names_of(v@)),
                    Err(m) => Err(m@),
                },
            ),
            r.1@ == r.0@.action(),
    {
        let run = match fetched {
            Ok(names) => ImportRun { names, next: 0, added: 0, phase: Phase::Lookup },
            Err(m) => ImportRun {
                names: Vec::new(),
                next: 0,
                added: 0,
                phase: Phase::Failed(BgError::Fetch(m)),
            },
        };
        proof {
            assert(run@.names =~= started(
                match fetched {
                    Ok(v) => Ok(names_of(v@)),
                    Err(m) => Err(m@),
                },
            ).names);
        }
        let a = run.action();
        (run, a)
    }

    /// The request of the run in its current state.
    pub fn action(&self) -> (r: Action)
        ensures
            r@ == self@.action(),
    {
        proof {
            use_type_invariant(self);
        }
        match &self.phase {
            Phase::Failed(e) => Action::Finish(Err(e.duplicate())),
            Phase::Insert => Action::Insert(self.names[self.next].clone()),
            Phase::Lookup => if self.next < self.names.len() {
                Action::FindByName(self.names[self.next].clone())
            } else {
                Action::Finish(Ok(self.added))
            },
        }
    }

    /// Whether the run is over; its request is then `Finish`.
    pub fn is_over(&self) -> (r: bool)
        ensures
            r == self@.is_over(),
    {
        match &self.phase {
            Phase::Failed(_) => true,
            Phase::Insert => false,
            Phase::Lookup => self.next >= self.names.len(),
        }
    }

    /// Takes in the outcome of the pending store operation and returns the
    /// next request.
    pub fn step(&mut self, e: Event) -> (r: Action)
        ensures
            final(self)@ == old(self)@.after(e@),
            r@ == final(self)@.action(),
    {
        proof {
            use_type_invariant(&*self);
        }
        let len = self.names.len();
        let waiting_insert = match &self.phase {
            Phase::Insert => true,
            _ => false,
        };
        let waiting_lookup = match &self.phase {
            Phase::Lookup => self.next < len,
            _ => false,
        };
        if waiting_lookup {
            match e {
                Event::LookedUp(Ok(Some(_))) => {
                    self.next = self.next + 1;
                },
                Event::LookedUp(Ok(None)) => {
                    self.phase = Phase::Insert;
                },
                Event::LookedUp(Err(m)) => {
                    self.phase = Phase::Failed(BgError::Store(m));
                },
                Event::Inserted(_) => {},
            }
        } else if waiting_insert {
            match e {
                Event::Inserted(Ok(())) => {
                    let n = self.next + 1;
                    let k = self.added + 1;
                    self.phase = Phase::Lookup;
                    self.next = n;
                    self.added = k;
                },
                Event::Inserted(Err(m)) => {
                    self.phase = Phase::Failed(BgError::Store(m));
                },
                Event::LookedUp(_) => {},
            }
        }
        self.action()
    }
}

} // verus!
