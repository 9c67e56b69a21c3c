//! The catalog of probes, and the rule that pairs each probe with the kind
//! of argument it takes.
//!
//! A probe takes nothing, a set of names, or a list of exports per module.
//! A configuration may hold a target for a probe; [`select`] decides what
//! is to be run, so that no probe is ever handed an argument of a kind it
//! does not take.

use crate::names::{ModuleExports, NameSet};
use vstd::prelude::*;

verus! {

/// The probes, in the order in which they are run.
#[derive(Clone, Copy, PartialEq, Eq, Structural, Debug)]
pub enum Probe {
    Processes,
    TopWindows,
    Mutants,
    Symlinks,
    PebBeingDebugged,
    RemoteDebugger,
    InvalidHandle,
    HardwareBreakpoints,
    Int2d,
    Int3,
    GlobalFlag,
    GuardPage,
    HookedApis,
    DebugFlags,
    DebugPort,
    KernelDebugger,
    ThreadHide,
    ObjectCount,
}

/// The kind of argument a probe takes.
#[derive(Clone, Copy, PartialEq, Eq, Structural, Debug)]
pub enum Shape {
    /// No argument.
    Plain,
    /// A set of unwanted names.
    Names,
    /// Exports to examine, module by module.
    Modules,
}

/// What a configuration holds for a probe.
pub enum Target {
    Names(NameSet),
    Modules(ModuleExports),
}

/// A probe together with the argument it is to be run on.
pub enum Invocation {
    Plain(Probe),
    WithNames(Probe, NameSet),
    WithModules(Probe, ModuleExports),
}

/// What is to be done about a probe.
pub enum Selection {
    /// Run it.
    Run(Invocation),
    /// The configuration holds no target for it: leave it out.
    Skip,
    /// The configuration holds a target of a kind the probe does not take.
    Mismatch,
}

/// The outcome of one probe.
#[derive(Clone, Copy, PartialEq, Eq, Structural, Debug)]
pub enum ProbeResult {
    Detected,
    NotDetected,
    /// The probe could not be carried out; the code is the operating
    /// system's.
    ProbeFailed(u32),
}

/// The number of probes.
pub const PROBE_COUNT: usize = 18;

/// The probes in the order in which they are run.
pub open spec fn catalog_order() -> Seq<Probe> {
    seq![
        Probe::Processes,
        Probe::TopWindows,
        Probe::Mutants,
        Probe::Symlinks,
        Probe::PebBeingDebugged,
        Probe::RemoteDebugger,
        Probe::InvalidHandle,
        Probe::HardwareBreakpoints,
        Probe::Int2d,
        Probe::Int3,
        Probe::GlobalFlag,
        Probe::GuardPage,
        Probe::HookedApis,
        Probe::DebugFlags,
        Probe::DebugPort,
        Probe::KernelDebugger,
        Probe::ThreadHide,
        Probe::ObjectCount,
    ]
}

impl Probe {
    /// The place of the probe in the catalog.
    pub open spec fn rank(self) -> int {
        match self {
            Probe::Processes => 0,
            Probe::TopWindows => 1,
            Probe::Mutants => 2,
            Probe::Symlinks => 3,
            Probe::PebBeingDebugged => 4,
            Probe::RemoteDebugger => 5,
            Probe::InvalidHandle => 6,
            Probe::HardwareBreakpoints => 7,
            Probe::Int2d => 8,
            Probe::Int3 => 9,
            Probe::GlobalFlag => 10,
            Probe::GuardPage => 11,
            Probe::HookedApis => 12,
            Probe::DebugFlags => 13,
            Probe::DebugPort => 14,
            Probe::KernelDebugger => 15,
            Probe::ThreadHide => 16,
            Probe::ObjectCount => 17,
        }
    }

    /// The kind of argument the probe takes.
    pub open spec fn spec_shape(self) -> Shape {
        match self {
            Probe::Processes | Probe::TopWindows | Probe::Mutants | Probe::Symlinks => Shape::Names,
            Probe::HookedApis => Shape::Modules,
            _ => Shape::Plain,
        }
    }

    /// The name under which the probe is reported.
    pub open spec fn spec_label(self) -> Seq<char> {
        match self {
            Probe::Processes => "Processes"@,
            Probe::TopWindows => "Top windows"@,
            Probe::Mutants => "Mutants"@,
            Probe::Symlinks => "Symlinks"@,
            Probe::PebBeingDebugged => "PEB IsDebugged"@,
            Probe::RemoteDebugger => "Remote Debugging"@,
            Probe::InvalidHandle => "Debugged invalid handle"@,
            Probe::HardwareBreakpoints => "Hw breakpoins"@,
            Probe::Int2d => "Int 0x2d"@,
            Probe::Int3 => "Int 3"@,
            Probe::GlobalFlag => "NtGlobalFlag"@,
            Probe::GuardPage => "Debug guard page"@,
            Probe::HookedApis => "Hooked APIs"@,
            Probe::DebugFlags => "Process info debug flags"@,
            Probe::DebugPort => "Debug port"@,
            Probe::KernelDebugger => "Is kernel debugged"@,
            Probe::ThreadHide => "Is thread hidden"@,
            Probe::ObjectCount => "TotalNumberOfObjects hooked"@,
        }
    }

    /// The field of the configuration that holds the probe's target, for a
    /// probe that takes one.
    pub open spec fn spec_config_field(self) -> Option<Seq<char>> {
        match self {
            Probe::Processes => Some("processes"@),
            Probe::TopWindows => Some("top_windows"@),
            Probe::Mutants => Some("mutants"@),
            Probe::Symlinks => Some("symlinks"@),
            Probe::HookedApis => Some("modules"@),
            _ => None,
        }
    }

    /// The kind of argument the probe takes.
    pub fn shape(&self) -> (shape: Shape)
        ensures
            shape == self.spec_shape(),
    {
        match self {
            Probe::Processes | Probe::TopWindows | Probe::Mutants | Probe::Symlinks => Shape::Names,
            Probe::HookedApis => Shape::Modules,
            _ => Shape::Plain,
        }
    }

    /// The name under which the probe is reported.
    pub fn label(&self) -> (text: &'static str)
        ensures
            text@ == self.spec_label(),
    {
        match self {
            Probe::Processes => "Processes",
            Probe::TopWindows => "Top windows",
            Probe::Mutants => "Mutants",
            Probe::Symlinks => "Symlinks",
            Probe::PebBeingDebugged => "PEB IsDebugged",
            Probe::RemoteDebugger => "Remote Debugging",
            Probe::InvalidHandle => "Debugged invalid handle",
            Probe::HardwareBreakpoints => "Hw breakpoins",
            Probe::Int2d => "Int 0x2d",
            Probe::Int3 => "Int 3",
            Probe::GlobalFlag => "NtGlobalFlag",
            Probe::GuardPage => "Debug guard page",
            Probe::HookedApis => "Hooked APIs",
            Probe::DebugFlags => "Process info debug flags",
            Probe::DebugPort => "Debug port",
            Probe::KernelDebugger => "Is kernel debugged",
            Probe::ThreadHide => "Is thread hidden",
            Probe::ObjectCount => "TotalNumberOfObjects hooked",
        }
    }

    /// The field of the configuration that holds the probe's target, for a
    /// probe that takes one.
    pub fn config_field(&self) -> (field: Option<&'static str>)
        ensures
            field matches Some(name) ==> self.spec_config_field() == Some(name@),
            field is None ==> self.spec_config_field() is None,
    {
        match self {
            Probe::Processes => Some("processes"),
            Probe::TopWindows => Some("top_windows"),
            Probe::Mutants => Some("mutants"),
            Probe::Symlinks => Some("symlinks"),
            Probe::HookedApis => Some("modules"),
            _ => None,
        }
    }
}

impl Target {
    /// The kind of a target.
    pub open spec fn spec_shape(self) -> Shape {
        match self {
            Target::Names(_) => Shape::Names,
            Target::Modules(_) => Shape::Modules,
        }
    }
}

impl Invocation {
    /// The probe that is run.
    pub open spec fn probe(self) -> Probe {
        match self {
            Invocation::Plain(p) => p,
            Invocation::WithNames(p, _) => p,
            Invocation::WithModules(p, _) => p,
        }
    }

    /// The kind of the argument that is handed over.
    pub open spec fn spec_shape(self) -> Shape {
        match self {
            Invocation::Plain(_) => Shape::Plain,
            Invocation::WithNames(_, _) => Shape::Names,
            Invocation::WithModules(_, _) => Shape::Modules,
        }
    }
}

/// The probes in the order in which they are run.
pub fn catalog() -> (probes: Vec<Probe>)
    ensures
        probes@ == catalog_order(),
{
    let mut probes: Vec<Probe> = Vec::new();
    probes.push(Probe::Processes);
    probes.push(Probe::TopWindows);
    probes.push(Probe::Mutants);
    probes.push(Probe::Symlinks);
    probes.push(Probe::PebBeingDebugged);
    probes.push(Probe::RemoteDebugger);
    probes.push(Probe::InvalidHandle);
    probes.push(Probe::HardwareBreakpoints);
    probes.push(Probe::Int2d);
    probes.push(Probe::Int3);
    probes.push(Probe::GlobalFlag);
    probes.push(Probe::GuardPage);
    probes.push(Probe::HookedApis);
    probes.push(Probe::DebugFlags);
    probes.push(Probe::DebugPort);
    probes.push(Probe::KernelDebugger);
    probes.push(Probe::ThreadHide);
    probes.push(Probe::ObjectCount);
    assert(probes@ =~= catalog_order());
    probes
}

/// What is to be done about `probe` when the configuration holds `target`
/// for it.
pub open spec fn selection(probe: Probe, target: Option<Target>) -> Selection {
    if probe.spec_shape() == Shape::Plain {
        Selection::Run(Invocation::Plain(probe))
    } else {
        match target {
            None => Selection::Skip,
            Some(Target::Names(names)) => if probe.spec_shape() == Shape::Names {
                Selection::Run(Invocation::WithNames(probe, names))
            } else {
                Selection::Mismatch
            },
            Some(Target::Modules(modules)) => if probe.spec_shape() == Shape::Modules {
                Selection::Run(Invocation::WithModules(probe, modules))
            } else {
                Selection::Mismatch
            },
        }
    }
}

/// Decides what is to be done about `probe`. A probe that takes no
/// argument is run whatever the configuration holds. A probe that takes one
/// is run on its target if the target is of the kind it takes, and left out
/// if there is no target.
pub fn select(probe: Probe, target: Option<Target>) -> (choice: Selection)
    ensures
        choice == selection(probe, target),
{
    match probe.shape() {
        Shape::Plain => Selection::Run(Invocation::Plain(probe)),
        Shape::Names => match target {
            None => Selection::Skip,
            Some(Target::Names(names)) => Selection::Run(Invocation::WithNames(probe, names)),
            Some(Target::Modules(_)) => Selection::Mismatch,
        },
        Shape::Modules => match target {
            None => Selection::Skip,
            Some(Target::Names(_)) => Selection::Mismatch,
            Some(Target::Modules(modules)) => Selection::Run(
                Invocation::WithModules(probe, modules),
            ),
        },
    }
}

impl ProbeResult {
    /// The outcome that stands for what a probe returned.
    pub open spec fn of(outcome: Result<bool, u32>) -> ProbeResult {
        match outcome {
            Ok(true) => ProbeResult::Detected,
            Ok(false) => ProbeResult::NotDetected,
            Err(code) => ProbeResult::ProbeFailed(code),
        }
    }

    /// The outcome that stands for what a probe returned.
    pub fn from_outcome(outcome: Result<bool, u32>) -> (result: ProbeResult)
        ensures
            result == ProbeResult::of(outcome),
    {
        match outcome {
            Ok(true) => ProbeResult::Detected,
            Ok(false) => ProbeResult::NotDetected,
            Err(code) => ProbeResult::ProbeFailed(code),
        }
    }

    /// What the probe returned.
    pub fn outcome(&self) -> (outcome: Result<bool, u32>)
        ensures
            ProbeResult::of(outcome) == *self,
    {
        match self {
            ProbeResult::Detected => Ok(true),
            ProbeResult::NotDetected => Ok(false),
            ProbeResult::ProbeFailed(code) => Err(*code),
        }
    }
}

/// Every probe has its place in the catalog, and only one.
pub proof fn lemma_catalog_is_complete(probe: Probe)
    ensures
        0 <= probe.rank() < catalog_order().len(),
        catalog_order().len() == PROBE_COUNT,
        catalog_order()[probe.rank()] == probe,
        forall|i: int| 0 <= i < catalog_order().len() && catalog_order()[i] == probe ==> i == probe.rank(),
{
}

/// A probe has a field in the configuration exactly if it takes an
/// argument.
pub proof fn lemma_field_iff_argument(probe: Probe)
    ensures
        probe.spec_config_field() is Some <==> probe.spec_shape() != Shape::Plain,
{
}

/// Whatever is run is run on an argument of the kind the probe takes: the
/// probe of the invocation is the probe asked about, and the argument has
/// the probe's shape.
pub proof fn lemma_selection_is_well_typed(probe: Probe, target: Option<Target>)
    ensures
        selection(probe, target) matches Selection::Run(invocation) ==> invocation.probe() == probe
            && invocation.spec_shape() == probe.spec_shape(),
        selection(probe, target) is Mismatch <==> target is Some && probe.spec_shape()
            != Shape::Plain && target->0.spec_shape() != probe.spec_shape(),
        selection(probe, target) is Skip <==> target is None && probe.spec_shape() != Shape::Plain,
{
}

} // verus!
