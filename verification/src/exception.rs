//! Probes that provoke a fault and watch whether it reaches them.
//!
//! Such a probe installs an exception handler in front of all others,
//! provokes a fault (a breakpoint instruction, or a call into a page that
//! is marked as a guard page), and looks whether its own handler saw the
//! fault. A debugger that sits in between swallows the fault, and the
//! handler never runs.
//!
//! The library does not touch the process. It holds the two halves of the
//! logic: what a handler answers when it is called ([`veh_handler_int3`],
//! [`veh_handler_int2d`], [`veh_handler_guard_page`]), and the order of the
//! steps of a probe ([`Session`]), which the host carries out one by one.
//! A session gives back whatever it took before it reports, on every path.

use vstd::prelude::*;

verus! {

/// The exception code of a breakpoint.
pub const EXCEPTION_BREAKPOINT: u32 = 0x8000_0003;

/// The exception code of an access to a guard page.
pub const STATUS_GUARD_PAGE_VIOLATION: u32 = 0x8000_0001;

/// A handler's answer: go on where the fault was raised.
pub const EXCEPTION_CONTINUE_EXECUTION: i32 = -1;

/// A handler's answer: ask the next handler.
pub const EXCEPTION_CONTINUE_SEARCH: i32 = 0;

/// What a handler does about a fault.
#[derive(Clone, Copy, PartialEq, Eq, Structural, Debug)]
pub struct HandlerVerdict {
    /// The new value of the probe's flag. The flag is `true` as long as no
    /// handler of the probe has seen a fault.
    pub swallowed: bool,
    /// What the handler answers.
    pub disposition: i32,
    /// Where execution goes on.
    pub instruction_pointer: u64,
}

/// What a handler for breakpoints does: it clears the flag, and it steps
/// over a breakpoint and lets execution go on; any other fault it passes
/// on untouched.
pub open spec fn breakpoint_verdict(exception_code: u32, instruction_pointer: u64) -> HandlerVerdict {
    if exception_code == EXCEPTION_BREAKPOINT {
        HandlerVerdict {
            swallowed: false,
            disposition: EXCEPTION_CONTINUE_EXECUTION,
            instruction_pointer: (instruction_pointer + 1) as u64,
        }
    } else {
        HandlerVerdict {
            swallowed: false,
            disposition: EXCEPTION_CONTINUE_SEARCH,
            instruction_pointer,
        }
    }
}

/// What a handler for guard pages does: it clears the flag, and it lets
/// execution go on after an access to a guard page; any other fault it
/// passes on. The instruction pointer stays as it is.
pub open spec fn guard_page_verdict(exception_code: u32, instruction_pointer: u64) -> HandlerVerdict {
    HandlerVerdict {
        swallowed: false,
        disposition: if exception_code == STATUS_GUARD_PAGE_VIOLATION {
            EXCEPTION_CONTINUE_EXECUTION
        } else {
            EXCEPTION_CONTINUE_SEARCH
        },
        instruction_pointer,
    }
}

fn breakpoint_handler(exception_code: u32, instruction_pointer: u64) -> (verdict: HandlerVerdict)
    requires
        exception_code == EXCEPTION_BREAKPOINT ==> instruction_pointer < u64::MAX,
    ensures
        verdict == breakpoint_verdict(exception_code, instruction_pointer),
{
    if exception_code == EXCEPTION_BREAKPOINT {
        HandlerVerdict {
            swallowed: false,
            disposition: EXCEPTION_CONTINUE_EXECUTION,
            instruction_pointer: instruction_pointer + 1,
        }
    } else {
        HandlerVerdict {
            swallowed: false,
            disposition: EXCEPTION_CONTINUE_SEARCH,
            instruction_pointer,
        }
    }
}

/// The handler of the probe that raises interrupt 0x2d.
pub fn veh_handler_int2d(exception_code: u32, instruction_pointer: u64) -> (verdict: HandlerVerdict)
    requires
        exception_code == EXCEPTION_BREAKPOINT ==> instruction_pointer < u64::MAX,
    ensures
        verdict == breakpoint_verdict(exception_code, instruction_pointer),
{
    breakpoint_handler(exception_code, instruction_pointer)
}

/// The handler of the probe that raises interrupt 3.
pub fn veh_handler_int3(exception_code: u32, instruction_pointer: u64) -> (verdict: HandlerVerdict)
    requires
        exception_code == EXCEPTION_BREAKPOINT ==> instruction_pointer < u64::MAX,
    ensures
        verdict == breakpoint_verdict(exception_code, instruction_pointer),
{
    breakpoint_handler(exception_code, instruction_pointer)
}

/// The handler of the probe that calls into a guard page.
pub fn veh_handler_guard_page(exception_code: u32, instruction_pointer: u64) -> (verdict:
    HandlerVerdict)
    ensures
        verdict == guard_page_verdict(exception_code, instruction_pointer),
{
    HandlerVerdict {
        swallowed: false,
        disposition: if exception_code == STATUS_GUARD_PAGE_VIOLATION {
            EXCEPTION_CONTINUE_EXECUTION
        } else {
            EXCEPTION_CONTINUE_SEARCH
        },
        instruction_pointer,
    }
}

/// The fault that a probe provokes.
#[derive(Clone, Copy, PartialEq, Eq, Structural, Debug)]
pub enum Fault {
    /// The breakpoint instruction, interrupt 3.
    Int3,
    /// Interrupt 0x2d.
    Int2d,
    /// A call into a page that is marked as a guard page.
    GuardPage,
}

/// What the host is to do next.
#[derive(Clone, Copy, PartialEq, Eq, Debug)]
pub enum Step {
    /// Set the flag to `true`.
    ResetFlag,
    /// Install the handler in front of all others.
    InstallHandler,
    /// Allocate one page that can be read, written and executed, and write
    /// a return instruction at its start.
    AllocatePage,
    /// Mark the page as a guard page.
    ProtectPage,
    /// Provoke the fault, then read the flag.
    RaiseFault,
    /// Release the page.
    ReleasePage,
    /// Remove the handler.
    RemoveHandler,
    /// Nothing: the probe is over, with this outcome.
    Report(Result<bool, u32>),
}

/// What came of a step.
#[derive(Clone, Copy, PartialEq, Eq, Debug)]
pub enum Event {
    /// The step was carried out.
    Succeeded,
    /// The operating system refused, with this code.
    Failed(u32),
    /// Execution went on after the fault; `swallowed` is the flag as it
    /// stands now.
    Resumed { swallowed: bool },
}

/// How far a session has come: the step that is to be done next.
#[derive(Clone, Copy, PartialEq, Eq, Structural, Debug)]
pub enum Phase {
    Resetting,
    Installing,
    Allocating,
    Protecting,
    Raising,
    Releasing,
    Removing,
    Finished,
}

/// One run of a probe.
#[derive(Clone, Copy, PartialEq, Eq, Debug)]
pub struct Session {
    /// The fault that the probe provokes.
    pub fault: Fault,
    /// The step that is to be done next.
    pub phase: Phase,
    /// What the probe will report, once that is settled.
    pub outcome: Result<bool, u32>,
}

impl Session {
    /// A session that has not done anything yet.
    pub open spec fn begin(fault: Fault) -> Session {
        Session { fault, phase: Phase::Resetting, outcome: Ok(true) }
    }

    /// What the host is to do next.
    pub open spec fn step(self) -> Step {
        match self.phase {
            Phase::Resetting => Step::ResetFlag,
            Phase::Installing => Step::InstallHandler,
            Phase::Allocating => Step::AllocatePage,
            Phase::Protecting => Step::ProtectPage,
            Phase::Raising => Step::RaiseFault,
            Phase::Releasing => Step::ReleasePage,
            Phase::Removing => Step::RemoveHandler,
            Phase::Finished => Step::Report(self.outcome),
        }
    }

    /// Whether `event` can be what came of the step that is to be done
    /// next: a fault is answered by the flag, any other step by success or
    /// failure, and a session that is over takes no answer.
    pub open spec fn answers(self, event: Event) -> bool {
        match self.phase {
            Phase::Raising => event is Resumed,
            Phase::Finished => false,
            _ => !(event is Resumed),
        }
    }

    /// The greatest number of steps that the host may still have to carry
    /// out.
    pub open spec fn steps_left(self) -> nat {
        match self.phase {
            Phase::Resetting => 7,
            Phase::Installing => 6,
            Phase::Allocating => 5,
            Phase::Protecting => 4,
            Phase::Raising => 3,
            Phase::Releasing => 2,
            Phase::Removing => 1,
            Phase::Finished => 0,
        }
    }

    /// The session after `event`. An event that does not answer the step
    /// that is to be done next leaves the session as it is.
    pub open spec fn next(self, event: Event) -> Session {
        match (self.phase, event) {
            (Phase::Resetting, Event::Succeeded) | (Phase::Resetting, Event::Failed(_)) => Session {
                phase: Phase::Installing,
                ..self
            },
            (Phase::Installing, Event::Succeeded) => Session {
                phase: if self.fault == Fault::GuardPage {
                    Phase::Allocating
                } else {
                    Phase::Raising
                },
                ..self
            },
            (Phase::Installing, Event::Failed(code)) => Session {
                phase: Phase::Finished,
                outcome: Err(code),
                ..self
            },
            (Phase::Allocating, Event::Succeeded) => Session { phase: Phase::Protecting, ..self },
            (Phase::Allocating, Event::Failed(code)) => Session {
                phase: Phase::Removing,
                outcome: Err(code),
                ..self
            },
            (Phase::Protecting, Event::Succeeded) => Session { phase: Phase::Raising, ..self },
            (Phase::Protecting, Event::Failed(code)) => Session {
                phase: Phase::Releasing,
                outcome: Err(code),
                ..self
            },
            (Phase::Raising, Event::Resumed { swallowed }) => Session {
                phase: if self.fault == Fault::GuardPage {
                    Phase::Releasing
                } else {
                    Phase::Removing
                },
                outcome: Ok(swallowed),
                ..self
            },
            (Phase::Releasing, Event::Succeeded) | (Phase::Releasing, Event::Failed(_)) => Session {
                phase: Phase::Removing,
                ..self
            },
            (Phase::Removing, Event::Succeeded) | (Phase::Removing, Event::Failed(_)) => Session {
                phase: Phase::Finished,
                ..self
            },
            _ => self,
        }
    }

    /// Begins a probe that provokes `fault`.
    pub fn start(fault: Fault) -> (session: Session)
        ensures
            session == Session::begin(fault),
    {
        Session { fault, phase: Phase::Resetting, outcome: Ok(true) }
    }

    /// What the host is to do next.
    pub fn pending(&self) -> (step: Step)
        ensures
            step == self.step(),
    {
        match self.phase {
            Phase::Resetting => Step::ResetFlag,
            Phase::Installing => Step::InstallHandler,
            Phase::Allocating => Step::AllocatePage,
            Phase::Protecting => Step::ProtectPage,
            Phase::Raising => Step::RaiseFault,
            Phase::Releasing => Step::ReleasePage,
            Phase::Removing => Step::RemoveHandler,
            Phase::Finished => Step::Report(self.outcome),
        }
    }

    /// The outcome of the probe, once the session is over.
    pub fn report(&self) -> (outcome: Option<Result<bool, u32>>)
        ensures
            outcome == (if self.phase == Phase::Finished {
                Some(self.outcome)
            } else {
                None
            }),
            outcome matches Some(o) ==> self.step() == Step::Report(o),
    {
        match self.phase {
            Phase::Finished => Some(self.outcome),
            _ => None,
        }
    }

    /// Takes note of what came of the step that was to be done, and goes
    /// on to the next.
    pub fn advance(self, event: Event) -> (session: Session)
        ensures
            session == self.next(event),
    {
        let guarded = match self.fault {
            Fault::GuardPage => true,
            _ => false,
        };
        match self.phase {
            Phase::Resetting => match event {
                Event::Resumed { .. } => self,
                _ => Session { fault: self.fault, phase: Phase::Installing, outcome: self.outcome },
            },
            Phase::Installing => match event {
                Event::Succeeded => Session {
                    fault: self.fault,
                    phase: if guarded {
                        Phase::Allocating
                    } else {
                        Phase::Raising
                    },
                    outcome: self.outcome,
                },
                Event::Failed(code) => Session {
                    fault: self.fault,
                    phase: Phase::Finished,
                    outcome: Err(code),
                },
                Event::Resumed { .. } => self,
            },
            Phase::Allocating => match event {
                Event::Succeeded => Session {
                    fault: self.fault,
                    phase: Phase::Protecting,
                    outcome: self.outcome,
                },
                Event::Failed(code) => Session {
                    fault: self.fault,
                    phase: Phase::Removing,
                    outcome: Err(code),
                },
                Event::Resumed { .. } => self,
            },
            Phase::Protecting => match event {
                Event::Succeeded => Session {
                    fault: self.fault,
                    phase: Phase::Raising,
                    outcome: self.outcome,
                },
                Event::Failed(code) => Session {
                    fault: self.fault,
                    phase: Phase::Releasing,
                    outcome: Err(code),
                },
                Event::Resumed { .. } => self,
            },
            Phase::Raising => match event {
                Event::Resumed { swallowed } => Session {
                    fault: self.fault,
                    phase: if guarded {
                        Phase::Releasing
                    } else {
                        Phase::Removing
                    },
                    outcome: Ok(swallowed),
                },
                _ => self,
            },
            Phase::Releasing => match event {
                Event::Resumed { .. } => self,
                _ => Session { fault: self.fault, phase: Phase::Removing, outcome: self.outcome },
            },
            Phase::Removing => match event {
                Event::Resumed { .. } => self,
                _ => Session { fault: self.fault, phase: Phase::Finished, outcome: self.outcome },
            },
            Phase::Finished => self,
        }
    }
}

/// The session that `events`, one after the other, make of a fresh one.
pub open spec fn run(fault: Fault, events: Seq<Event>) -> Session
    decreases events.len(),
{
    if events.len() == 0 {
        Session::begin(fault)
    } else {
        run(fault, events.drop_last()).next(events.last())
    }
}

/// By how many the handlers of the process grow when `event` answers
/// `step`. A handler counts as removed once its removal was asked for.
pub open spec fn handler_change(step: Step, event: Event) -> int {
    if step == Step::InstallHandler && event == Event::Succeeded {
        1
    } else if step == Step::RemoveHandler && !(event is Resumed) {
        -1
    } else {
        0
    }
}

/// By how many the pages of the process grow when `event` answers `step`.
/// A page counts as released once its release was asked for.
pub open spec fn page_change(step: Step, event: Event) -> int {
    if step == Step::AllocatePage && event == Event::Succeeded {
        1
    } else if step == Step::ReleasePage && !(event is Resumed) {
        -1
    } else {
        0
    }
}

/// The number of handlers that the session has installed and not removed
/// after `events`.
pub open spec fn handlers_held(fault: Fault, events: Seq<Event>) -> int
    decreases events.len(),
{
    if events.len() == 0 {
        0
    } else {
        handlers_held(fault, events.drop_last()) + handler_change(
            run(fault, events.drop_last()).step(),
            events.last(),
        )
    }
}

/// The number of pages that the session has allocated and not released
/// after `events`.
pub open spec fn pages_held(fault: Fault, events: Seq<Event>) -> int
    decreases events.len(),
{
    if events.len() == 0 {
        0
    } else {
        pages_held(fault, events.drop_last()) + page_change(
            run(fault, events.drop_last()).step(),
            events.last(),
        )
    }
}

/// The number of times the fault was provoked during `events`.
pub open spec fn faults_raised(fault: Fault, events: Seq<Event>) -> int
    decreases events.len(),
{
    if events.len() == 0 {
        0
    } else {
        faults_raised(fault, events.drop_last()) + if run(fault, events.drop_last()).step()
            == Step::RaiseFault && events.last() is Resumed {
            1int
        } else {
            0int
        }
    }
}

/// What a session holds, by its phase.
spec fn holds_handler(session: Session) -> int {
    match session.phase {
        Phase::Resetting | Phase::Installing | Phase::Finished => 0,
        _ => 1,
    }
}

spec fn holds_page(session: Session) -> int {
    match session.phase {
        Phase::Protecting | Phase::Releasing => 1,
        Phase::Raising => if session.fault == Fault::GuardPage {
            1
        } else {
            0
        },
        _ => 0,
    }
}

proof fn lemma_run_ledger(fault: Fault, events: Seq<Event>)
    ensures
        run(fault, events).fault == fault,
        handlers_held(fault, events) == holds_handler(run(fault, events)),
        pages_held(fault, events) == holds_page(run(fault, events)),
        run(fault, events).phase == Phase::Allocating || run(fault, events).phase
            == Phase::Protecting || run(fault, events).phase == Phase::Releasing ==> fault
            == Fault::GuardPage,
    decreases events.len(),
{
    if events.len() > 0 {
        lemma_run_ledger(fault, events.drop_last());
    }
}

proof fn lemma_faults_by_phase(fault: Fault, events: Seq<Event>)
    ensures
        faults_raised(fault, events) == match run(fault, events).phase {
            Phase::Resetting | Phase::Installing | Phase::Allocating | Phase::Protecting
            | Phase::Raising => 0int,
            _ => if run(fault, events).outcome is Ok {
                1int
            } else {
                0int
            },
        },
        run(fault, events).phase == Phase::Resetting || run(fault, events).phase
            == Phase::Installing || run(fault, events).phase == Phase::Allocating || run(
            fault,
            events,
        ).phase == Phase::Protecting || run(fault, events).phase == Phase::Raising ==> run(
            fault,
            events,
        ).outcome == Ok::<bool, u32>(true),
    decreases events.len(),
{
    if events.len() > 0 {
        lemma_faults_by_phase(fault, events.drop_last());
    }
}

/// A session gives back what it took. Whatever the events, the session
/// never holds more than one handler and one page; and once it reports, it
/// holds neither: the handlers and the pages of the process are as many as
/// before the probe.
pub proof fn lemma_session_gives_back(fault: Fault, events: Seq<Event>)
    ensures
        0 <= handlers_held(fault, events) <= 1,
        0 <= pages_held(fault, events) <= handlers_held(fault, events),
        fault != Fault::GuardPage ==> pages_held(fault, events) == 0,
        run(fault, events).step() is Report ==> handlers_held(fault, events) == 0 && pages_held(
            fault,
            events,
        ) == 0,
{
    lemma_run_ledger(fault, events);
}

/// The fault is provoked only under the session's own handler, and at most
/// once. A session that reports `Ok` has provoked the fault and reports
/// the flag as it stood afterwards; a session that reports an error has
/// not provoked it.
pub proof fn lemma_fault_is_raised_under_handler(fault: Fault, events: Seq<Event>)
    ensures
        0 <= faults_raised(fault, events) <= 1,
        run(fault, events).step() == Step::RaiseFault ==> handlers_held(fault, events) == 1 && (
        fault == Fault::GuardPage ==> pages_held(fault, events) == 1),
        run(fault, events).step() matches Step::Report(outcome) ==> (outcome is Ok
            <==> faults_raised(fault, events) == 1),
{
    lemma_run_ledger(fault, events);
    lemma_faults_by_phase(fault, events);
}

/// A probe comes to its end: an event that answers the step to be done
/// brings the session nearer to its report, and any other event leaves it
/// as it is. A session is over after seven answers at most.
pub proof fn lemma_session_ends(session: Session, event: Event)
    ensures
        session.answers(event) ==> session.next(event).steps_left() < session.steps_left(),
        !session.answers(event) ==> session.next(event) == session,
        session.steps_left() == 0 <==> session.step() is Report,
        session.next(event).fault == session.fault,
{
}

/// The events of a probe on which nothing fails and whose handler sees
/// the fault.
pub open spec fn undisturbed(fault: Fault) -> Seq<Event> {
    if fault == Fault::GuardPage {
        seq![
            Event::Succeeded,
            Event::Succeeded,
            Event::Succeeded,
            Event::Succeeded,
            Event::Resumed { swallowed: false },
            Event::Succeeded,
            Event::Succeeded,
        ]
    } else {
        seq![
            Event::Succeeded,
            Event::Succeeded,
            Event::Resumed { swallowed: false },
            Event::Succeeded,
        ]
    }
}

/// Where nothing interferes, a probe reports that nothing was detected,
/// and leaves the process as it found it, however often it is run.
pub proof fn lemma_undisturbed_probe_detects_nothing(fault: Fault)
    ensures
        run(fault, undisturbed(fault)).step() == Step::Report(Ok(false)),
        handlers_held(fault, undisturbed(fault)) == 0,
        pages_held(fault, undisturbed(fault)) == 0,
{
    let events = undisturbed(fault);
    lemma_run_unfold(fault, events, 0);
    lemma_run_unfold(fault, events, 1);
    lemma_run_unfold(fault, events, 2);
    lemma_run_unfold(fault, events, 3);
    lemma_run_unfold(fault, events, 4);
    if fault == Fault::GuardPage {
        lemma_run_unfold(fault, events, 5);
        lemma_run_unfold(fault, events, 6);
        lemma_run_unfold(fault, events, 7);
    }
    assert(events.take(events.len() as int) =~= events);
    lemma_session_gives_back(fault, events);
}

/// Unfolds `run` over the first `n` events.
proof fn lemma_run_unfold(fault: Fault, events: Seq<Event>, n: int)
    requires
        0 <= n <= events.len(),
    ensures
        n > 0 ==> run(fault, events.take(n)) == run(fault, events.take(n - 1)).next(events[n - 1]),
        n == 0 ==> run(fault, events.take(n)) == Session::begin(fault),
    decreases n,
{
    if n > 0 {
        assert(events.take(n).drop_last() =~= events.take(n - 1));
        lemma_run_unfold(fault, events, n - 1);
    }
}

} // verus!
