//! Which interpreter a project asks for: the bound written into the
//! manifest, the version pinned beside it, and whether an interpreter has to
//! be found to know either.

use vstd::prelude::*;
use crate::source::{copy_text, opt_text};
use crate::text::join;

verus! {

/// The character of a decimal digit.
pub open spec fn digit(value: nat) -> char {
    if value == 0 {
        '0'
    } else if value == 1 {
        '1'
    } else if value == 2 {
        '2'
    } else if value == 3 {
        '3'
    } else if value == 4 {
        '4'
    } else if value == 5 {
        '5'
    } else if value == 6 {
        '6'
    } else if value == 7 {
        '7'
    } else if value == 8 {
        '8'
    } else {
        '9'
    }
}

/// A number in decimal notation, without leading zeros.
pub open spec fn decimal(value: nat) -> Seq<char>
    decreases value,
{
    if value < 10 {
        seq![digit(value)]
    } else {
        decimal(value / 10).push(digit(value % 10))
    }
}

/// The numbers of a release in decimal notation, in order.
pub open spec fn decimals(release: Seq<u64>) -> Seq<Seq<char>> {
    Seq::new(release.len(), |i: int| decimal(release[i] as nat))
}

/// A release as a version is written: its numbers, with a dot between each
/// two.
pub open spec fn dotted(release: Seq<u64>) -> Seq<char> {
    join(decimals(release), seq!['.'])
}

/// Writes a release as a version.
///
/// Trusted: this is `pep440_rs::Version::new` on the numbers, followed by the
/// version's `Display`. For a version made of a release alone, the source
/// prints the numbers in decimal, joined by dots. `Version::new` panics on an
/// empty release, which `requires` leaves out.
#[verifier::external_body]
fn release_text(release: &Vec<u64>) -> (text: String)
    requires
        release@.len() > 0,
    ensures
        text@ == dotted(release@),
{
    pep440_rs::Version::new(release.iter()).to_string()
}

/// What the caller asked of the interpreter.
#[derive(Debug, Clone, PartialEq, Eq)]
pub enum PythonRequest {
    /// A minor version, such as `3.12`.
    MajorMinor(u8, u8),
    /// A patch version, such as `3.12.1`.
    MajorMinorPatch(u8, u8, u8),
    /// A range of versions, as specifiers such as `>=3.10,<3.13`.
    Range(String),
    /// Anything else: a path, an implementation, a name.
    Other(String),
}

/// The mathematical value of a [`PythonRequest`].
pub ghost enum PythonRequestView {
    MajorMinor(u8, u8),
    MajorMinorPatch(u8, u8, u8),
    Range(Seq<char>),
    Other(Seq<char>),
}

impl View for PythonRequest {
    type V = PythonRequestView;

    open spec fn view(&self) -> PythonRequestView {
        match *self {
            PythonRequest::MajorMinor(major, minor) => PythonRequestView::MajorMinor(major, minor),
            PythonRequest::MajorMinorPatch(major, minor, patch) => {
                PythonRequestView::MajorMinorPatch(major, minor, patch)
            },
            PythonRequest::Range(specifiers) => PythonRequestView::Range(specifiers@),
            PythonRequest::Other(request) => PythonRequestView::Other(request@),
        }
    }
}

/// Whether an interpreter has to be found, and by what request.
#[derive(Debug, Clone, PartialEq, Eq)]
pub enum Lookup {
    /// No interpreter is needed.
    Skip,
    /// Any interpreter will do.
    Any,
    /// An interpreter that meets the request.
    Request(PythonRequest),
}

/// The mathematical value of a [`Lookup`].
pub ghost enum LookupView {
    Skip,
    Any,
    Request(PythonRequestView),
}

impl View for Lookup {
    type V = LookupView;

    open spec fn view(&self) -> LookupView {
        match *self {
            Lookup::Skip => LookupView::Skip,
            Lookup::Any => LookupView::Any,
            Lookup::Request(request) => LookupView::Request(request@),
        }
    }
}

/// The bound on the interpreter that the manifest states.
#[derive(Debug, Clone, PartialEq, Eq)]
pub enum Bound {
    /// At least the given release.
    AtLeast(Vec<u64>),
    /// The given specifiers.
    Specifiers(String),
    /// At least the minor version of the interpreter that is found.
    AtLeastInterpreter,
}

/// The mathematical value of a [`Bound`].
pub ghost enum BoundView {
    AtLeast(Seq<u64>),
    Specifiers(Seq<char>),
    AtLeastInterpreter,
}

impl View for Bound {
    type V = BoundView;

    open spec fn view(&self) -> BoundView {
        match *self {
            Bound::AtLeast(release) => BoundView::AtLeast(release@),
            Bound::Specifiers(specifiers) => BoundView::Specifiers(specifiers@),
            Bound::AtLeastInterpreter => BoundView::AtLeastInterpreter,
        }
    }
}

/// The version that is pinned for the project.
#[derive(Debug, Clone, PartialEq, Eq)]
pub enum Pin {
    /// No version is pinned.
    Unpinned,
    /// The given release.
    Release(Vec<u64>),
    /// The minor version of the interpreter that is found.
    Interpreter,
}

/// The mathematical value of a [`Pin`].
pub ghost enum PinView {
    Unpinned,
    Release(Seq<u64>),
    Interpreter,
}

impl View for Pin {
    type V = PinView;

    open spec fn view(&self) -> PinView {
        match *self {
            Pin::Unpinned => PinView::Unpinned,
            Pin::Release(release) => PinView::Release(release@),
            Pin::Interpreter => PinView::Interpreter,
        }
    }
}

/// What is decided about the interpreter before one is looked for.
#[derive(Debug, Clone, PartialEq, Eq)]
pub struct PythonPlan {
    pub lookup: Lookup,
    pub bound: Bound,
    pub pin: Pin,
}

/// The mathematical value of a [`PythonPlan`].
pub ghost struct PythonPlanView {
    pub lookup: LookupView,
    pub bound: BoundView,
    pub pin: PinView,
}

impl View for PythonPlan {
    type V = PythonPlanView;

    open spec fn view(&self) -> PythonPlanView {
        PythonPlanView { lookup: self.lookup@, bound: self.bound@, pin: self.pin@ }
    }
}

impl PythonPlanView {
    /// Whatever depends on the interpreter comes with a lookup, and a release
    /// that is named has at least one number.
    pub open spec fn wf(self) -> bool {
        &&& (self.bound is AtLeastInterpreter || self.pin is Interpreter) ==> !(self.lookup is Skip)
        &&& self.bound matches BoundView::AtLeast(release) ==> release.len() > 0
        &&& self.pin matches PinView::Release(release) ==> release.len() > 0
    }
}

/// The value of an optional request.
pub open spec fn opt_request(request: Option<PythonRequest>) -> Option<PythonRequestView> {
    match request {
        Some(found) => Some(found@),
        None => None,
    }
}

/// The pin of a plan whose pinned version comes from the interpreter.
pub open spec fn interpreter_pin(no_pin: bool) -> PinView {
    if no_pin {
        PinView::Unpinned
    } else {
        PinView::Interpreter
    }
}

/// The plan for the interpreter of a fresh project. An explicit request
/// decides first, then the bound of the workspace that the project joins,
/// then whatever interpreter is found. A version that the request names is
/// itself the bound and the pin. A range is the bound as it stands, and its
/// pin is the interpreter found for it. With `no_pin` nothing is pinned, and
/// no interpreter is looked for on the pin's account.
pub open spec fn python_plan_of(
    request: Option<PythonRequestView>,
    workspace_bound: Option<Seq<char>>,
    no_pin: bool,
) -> PythonPlanView {
    match request {
        Some(PythonRequestView::MajorMinor(major, minor)) => PythonPlanView {
            lookup: LookupView::Skip,
            bound: BoundView::AtLeast(seq![major as u64, minor as u64]),
            pin: if no_pin {
                PinView::Unpinned
            } else {
                PinView::Release(seq![major as u64, minor as u64])
            },
        },
        Some(PythonRequestView::MajorMinorPatch(major, minor, patch)) => PythonPlanView {
            lookup: LookupView::Skip,
            bound: BoundView::AtLeast(seq![major as u64, minor as u64, patch as u64]),
            pin: if no_pin {
                PinView::Unpinned
            } else {
                PinView::Release(seq![major as u64, minor as u64, patch as u64])
            },
        },
        Some(PythonRequestView::Range(specifiers)) => PythonPlanView {
            lookup: if no_pin {
                LookupView::Skip
            } else {
                LookupView::Request(PythonRequestView::Range(specifiers))
            },
            bound: BoundView::Specifiers(specifiers),
            pin: interpreter_pin(no_pin),
        },
        Some(PythonRequestView::Other(other)) => PythonPlanView {
            lookup: LookupView::Request(PythonRequestView::Other(other)),
            bound: BoundView::AtLeastInterpreter,
            pin: interpreter_pin(no_pin),
        },
        None => match workspace_bound {
            Some(specifiers) => PythonPlanView {
                lookup: if no_pin {
                    LookupView::Skip
                } else {
                    LookupView::Request(PythonRequestView::Range(specifiers))
                },
                bound: BoundView::Specifiers(specifiers),
                pin: interpreter_pin(no_pin),
            },
            None => PythonPlanView {
                lookup: LookupView::Any,
                bound: BoundView::AtLeastInterpreter,
                pin: interpreter_pin(no_pin),
            },
        },
    }
}

/// A release of two numbers.
fn release2(major: u8, minor: u8) -> (release: Vec<u64>)
    ensures
        release@ == seq![major as u64, minor as u64],
{
    let mut release: Vec<u64> = Vec::new();
    release.push(major as u64);
    release.push(minor as u64);
    assert(release@ =~= seq![major as u64, minor as u64]);
    release
}

/// A release of three numbers.
fn release3(major: u8, minor: u8, patch: u8) -> (release: Vec<u64>)
    ensures
        release@ == seq![major as u64, minor as u64, patch as u64],
{
    let mut release: Vec<u64> = Vec::new();
    release.push(major as u64);
    release.push(minor as u64);
    release.push(patch as u64);
    assert(release@ =~= seq![major as u64, minor as u64, patch as u64]);
    release
}

/// Plans the interpreter of a fresh project from the caller's request, from
/// the bound of the workspace that the project joins, and from whether a
/// version may be pinned.
pub fn python_plan(
    request: Option<PythonRequest>,
    workspace_bound: Option<String>,
    no_pin: bool,
) -> (plan: PythonPlan)
    ensures
        plan@ == python_plan_of(opt_request(request), opt_text(workspace_bound), no_pin),
        plan@.wf(),
{
    let from_interpreter = if no_pin {
        Pin::Unpinned
    } else {
        Pin::Interpreter
    };
    match request {
        Some(PythonRequest::MajorMinor(major, minor)) => PythonPlan {
            lookup: Lookup::Skip,
            bound: Bound::AtLeast(release2(major, minor)),
            pin: if no_pin {
                Pin::Unpinned
            } else {
                Pin::Release(release2(major, minor))
            },
        },
        Some(PythonRequest::MajorMinorPatch(major, minor, patch)) => PythonPlan {
            lookup: Lookup::Skip,
            bound: Bound::AtLeast(release3(major, minor, patch)),
            pin: if no_pin {
                Pin::Unpinned
            } else {
                Pin::Release(release3(major, minor, patch))
            },
        },
        Some(PythonRequest::Range(specifiers)) => PythonPlan {
            lookup: if no_pin {
                Lookup::Skip
            } else {
                Lookup::Request(PythonRequest::Range(copy_text(&specifiers)))
            },
            bound: Bound::Specifiers(specifiers),
            pin: from_interpreter,
        },
        Some(PythonRequest::Other(other)) => PythonPlan {
            lookup: Lookup::Request(PythonRequest::Other(other)),
            bound: Bound::AtLeastInterpreter,
            pin: from_interpreter,
        },
        None => match workspace_bound {
            Some(specifiers) => PythonPlan {
                lookup: if no_pin {
                    Lookup::Skip
                } else {
                    Lookup::Request(PythonRequest::Range(copy_text(&specifiers)))
                },
                bound: Bound::Specifiers(specifiers),
                pin: from_interpreter,
            },
            None => PythonPlan {
                lookup: Lookup::Any,
                bound: Bound::AtLeastInterpreter,
                pin: from_interpreter,
            },
        },
    }
}

/// What the manifest and the version file say of the interpreter.
#[derive(Debug, Clone, PartialEq, Eq)]
pub struct PythonSettings {
    /// The value of `requires-python`.
    pub requires_python: String,
    /// The version to pin, if any.
    pub pin: Option<String>,
}

/// The mathematical value of [`PythonSettings`].
pub ghost struct PythonSettingsView {
    pub requires_python: Seq<char>,
    pub pin: Option<Seq<char>>,
}

impl View for PythonSettings {
    type V = PythonSettingsView;

    open spec fn view(&self) -> PythonSettingsView {
        PythonSettingsView { requires_python: self.requires_python@, pin: opt_text(self.pin) }
    }
}

/// The minor version of an interpreter, as a release.
pub open spec fn minor_release(interpreter: (u8, u8)) -> Seq<u64> {
    seq![interpreter.0 as u64, interpreter.1 as u64]
}

/// The text of a bound, given the minor version of the interpreter.
pub open spec fn bound_text(bound: BoundView, interpreter: (u8, u8)) -> Seq<char> {
    match bound {
        BoundView::AtLeast(release) => seq!['>', '='] + dotted(release),
        BoundView::Specifiers(specifiers) => specifiers,
        BoundView::AtLeastInterpreter => seq!['>', '='] + dotted(minor_release(interpreter)),
    }
}

/// The text of a pin, given the minor version of the interpreter.
pub open spec fn pin_text(pin: PinView, interpreter: (u8, u8)) -> Option<Seq<char>> {
    match pin {
        PinView::Unpinned => None,
        PinView::Release(release) => Some(dotted(release)),
        PinView::Interpreter => Some(dotted(minor_release(interpreter))),
    }
}

/// The settings that a plan comes to: those of the plan with the
/// interpreter's minor version filled in. A plan with a lookup cannot be
/// completed without an interpreter; a plan without one ignores it.
pub open spec fn completed(plan: PythonPlanView, interpreter: Option<(u8, u8)>) -> Option<
    PythonSettingsView,
> {
    if !(plan.lookup is Skip) && interpreter is None {
        None
    } else {
        let found = match interpreter {
            Some(version) => version,
            None => (0u8, 0u8),
        };
        Some(
            PythonSettingsView {
                requires_python: bound_text(plan.bound, found),
                pin: pin_text(plan.pin, found),
            },
        )
    }
}

/// The value of optional settings.
pub open spec fn opt_settings(settings: Option<PythonSettings>) -> Option<PythonSettingsView> {
    match settings {
        Some(found) => Some(found@),
        None => None,
    }
}

impl PythonPlan {
    /// Completes the plan with the major and minor version of the interpreter
    /// that was found for its lookup, if it had one.
    pub fn complete(&self, interpreter: Option<(u8, u8)>) -> (settings: Option<PythonSettings>)
        requires
            self@.wf(),
        ensures
            opt_settings(settings) == completed(self@, interpreter),
    {
        proof {
            reveal_strlit(">=");
            assert(">="@ =~= seq!['>', '=']);
        }
        let needs_interpreter = match self.lookup {
            Lookup::Skip => false,
            _ => true,
        };
        if needs_interpreter && interpreter.is_none() {
            return None;
        }
        let found: (u8, u8) = match interpreter {
            Some(version) => version,
            None => (0u8, 0u8),
        };
        let minor = release2(found.0, found.1);
        let mut requires_python: String = String::new();
        match &self.bound {
            Bound::AtLeast(release) => {
                requires_python.append(">=");
                requires_python.append(release_text(release).as_str());
            },
            Bound::Specifiers(specifiers) => {
                requires_python.append(specifiers.as_str());
            },
            Bound::AtLeastInterpreter => {
                requires_python.append(">=");
                requires_python.append(release_text(&minor).as_str());
            },
        }
        assert(requires_python@ =~= bound_text(self@.bound, found));
        let pin = match &self.pin {
            Pin::Unpinned => None,
            Pin::Release(release) => Some(release_text(release)),
            Pin::Interpreter => Some(release_text(&minor)),
        };
        Some(PythonSettings { requires_python, pin })
    }
}

/// Where the interpreter request of a script comes from.
#[derive(Debug, Clone, PartialEq, Eq)]
pub enum ScriptPython {
    /// The caller's own request.
    Explicit(String),
    /// The request of a version file.
    VersionFile(String),
    /// The range that the script's metadata declares.
    Range(String),
}

/// The mathematical value of a [`ScriptPython`].
pub ghost enum ScriptPythonView {
    Explicit(Seq<char>),
    VersionFile(Seq<char>),
    Range(Seq<char>),
}

impl View for ScriptPython {
    type V = ScriptPythonView;

    open spec fn view(&self) -> ScriptPythonView {
        match *self {
            ScriptPython::Explicit(request) => ScriptPythonView::Explicit(request@),
            ScriptPython::VersionFile(request) => ScriptPythonView::VersionFile(request@),
            ScriptPython::Range(specifiers) => ScriptPythonView::Range(specifiers@),
        }
    }
}

/// The value of an optional script request.
pub open spec fn opt_script_python(request: Option<ScriptPython>) -> Option<ScriptPythonView> {
    match request {
        Some(found) => Some(found@),
        None => None,
    }
}

/// The interpreter request for a script: the caller's, else that of a
/// version file, else the range of the script's metadata, else none.
pub open spec fn script_python_of(
    explicit: Option<Seq<char>>,
    version_file: Option<Seq<char>>,
    requires_python: Option<Seq<char>>,
) -> Option<ScriptPythonView> {
    match explicit {
        Some(request) => Some(ScriptPythonView::Explicit(request)),
        None => match version_file {
            Some(request) => Some(ScriptPythonView::VersionFile(request)),
            None => match requires_python {
                Some(specifiers) => Some(ScriptPythonView::Range(specifiers)),
                None => None,
            },
        },
    }
}

/// Chooses the interpreter request for a script.
pub fn script_python(
    explicit: Option<String>,
    version_file: Option<String>,
    requires_python: Option<String>,
) -> (request: Option<ScriptPython>)
    ensures
        opt_script_python(request) == script_python_of(
            opt_text(explicit),
            opt_text(version_file),
            opt_text(requires_python),
        ),
{
    match explicit {
        Some(request) => Some(ScriptPython::Explicit(request)),
        None => match version_file {
            Some(request) => Some(ScriptPython::VersionFile(request)),
            None => match requires_python {
                Some(specifiers) => Some(ScriptPython::Range(specifiers)),
                None => None,
            },
        },
    }
}

} // verus!
