//! The start-up protocol of a hosted interpreter, as a state machine.
//!
//! The host creates the interpreter, installs each native extension (define
//! the class, then evaluate its in-language source), converts and freezes
//! each process argument in order, binds the collection to the global
//! constant for process arguments, evaluates the top-level script, reports a
//! script error as a backtrace, and closes the interpreter. A script error
//! that is reported ends in success; a report that cannot be written ends in
//! failure, after the interpreter is closed. The machine makes
//! every decision; the host performs each `Action` and answers with an `Event`.

use vstd::prelude::*;
use crate::class_spec::ExtensionError;

verus! {

/// The outcome of the action that the host last performed.
#[derive(Clone, Copy, Debug, PartialEq, Eq, Structural)]
pub enum Event {
    Done,
    Failed,
}

/// Why the bootstrap ended with a failure status.
#[derive(Clone, Copy, Debug, PartialEq, Eq, Structural)]
pub enum BootError {
    /// The interpreter could not be created.
    Create,
    /// Installing the extension at this index failed.
    Extension(usize, ExtensionError),
    /// Converting the process argument at this index failed.
    ArgConversion(usize),
    /// Freezing the converted process argument at this index failed.
    ArgFreeze(usize),
    /// The argument collection could not be bound to its global constant.
    ArgvBinding,
    /// The backtrace of a script error could not be written to the error stream.
    Report,
}

/// What the host is to do next.
#[derive(Clone, Copy, Debug, PartialEq, Eq, Structural)]
pub enum Action {
    CreateInterpreter,
    /// Hand the class specification of extension `i` to the interpreter.
    /// Defining a class name that is already defined is left to the
    /// interpreter; the host should not rely on the two being merged.
    DefineClass(usize),
    /// Evaluate the in-language source of extension `i`.
    EvalClassSource(usize),
    /// Convert process argument `i` (a byte string) to a guest value.
    ConvertArg(usize),
    /// Freeze the guest value converted from process argument `i`, then
    /// append it to the argument collection.
    FreezeArg(usize),
    /// Bind the argument collection to the global constant for process arguments.
    BindArgv,
    EvalScript,
    /// Render the script error as a backtrace on the error stream.
    ReportBacktrace,
    /// Release the interpreter.
    Close,
    /// Stop, with success when no failure is given.
    Exit(Option<BootError>),
}

/// Where the bootstrap stands: each stage waits for the outcome of one action.
#[derive(Clone, Copy, Debug, PartialEq, Eq, Structural)]
pub enum Stage {
    Creating,
    Defining(usize),
    Evaluating(usize),
    Converting(usize),
    Freezing(usize),
    Binding,
    Running,
    Reporting,
    Closing,
    Finished,
}

/// The bootstrap of one interpreter, for `n_ext` extensions and `n_args`
/// process arguments.
#[derive(Clone, Copy, Debug)]
pub struct Boot {
    pub stage: Stage,
    pub n_ext: usize,
    pub n_args: usize,
    pub failure: Option<BootError>,
}

/// The interpreter exists and has not been released yet.
pub open spec fn live(s: Stage) -> bool {
    match s {
        Stage::Creating | Stage::Closing | Stage::Finished => false,
        _ => true,
    }
}

impl Boot {
    /// Stage indices are in range, and no failure is recorded before closing.
    pub open spec fn wf(self) -> bool {
        &&& match self.stage {
            Stage::Defining(i) => i < self.n_ext,
            Stage::Evaluating(i) => i < self.n_ext,
            Stage::Converting(i) => i < self.n_args,
            Stage::Freezing(i) => i < self.n_args,
            _ => true,
        }
        &&& (live(self.stage) || self.stage == Stage::Creating) ==> self.failure is None
    }

    /// The same bootstrap, moved to stage `s`.
    pub open spec fn with_stage(self, s: Stage) -> Boot {
        Boot { stage: s, n_ext: self.n_ext, n_args: self.n_args, failure: self.failure }
    }
}

/// The state and first action of a new bootstrap.
pub open spec fn start(n_ext: usize, n_args: usize) -> (Boot, Action) {
    (
        Boot { stage: Stage::Creating, n_ext, n_args, failure: None },
        Action::CreateInterpreter,
    )
}

/// Once the extensions are installed: convert the first argument, or bind an
/// empty collection when there is none.
pub open spec fn after_extensions(m: Boot) -> (Boot, Action) {
    if m.n_args > 0 {
        (m.with_stage(Stage::Converting(0)), Action::ConvertArg(0))
    } else {
        (m.with_stage(Stage::Binding), Action::BindArgv)
    }
}

/// A failure after creation: record it and release the interpreter.
pub open spec fn abort(m: Boot, e: BootError) -> (Boot, Action) {
    (
        Boot { stage: Stage::Closing, n_ext: m.n_ext, n_args: m.n_args, failure: Some(e) },
        Action::Close,
    )
}

/// The transition of the bootstrap on the outcome of the last action.
pub open spec fn next(m: Boot, e: Event) -> (Boot, Action) {
    let ok = e == Event::Done;
    match m.stage {
        Stage::Creating => if !ok {
            (
                Boot {
                    stage: Stage::Finished,
                    n_ext: m.n_ext,
                    n_args: m.n_args,
                    failure: Some(BootError::Create),
                },
                Action::Exit(Some(BootError::Create)),
            )
        } else if m.n_ext > 0 {
            (m.with_stage(Stage::Defining(0)), Action::DefineClass(0))
        } else {
            after_extensions(m)
        },
        Stage::Defining(i) => if ok {
            (m.with_stage(Stage::Evaluating(i)), Action::EvalClassSource(i))
        } else {
            abort(m, BootError::Extension(i, ExtensionError::SpecInvalid))
        },
        Stage::Evaluating(i) => if !ok {
            abort(m, BootError::Extension(i, ExtensionError::EvalFailed))
        } else if i + 1 < m.n_ext {
            (m.with_stage(Stage::Defining((i + 1) as usize)), Action::DefineClass((i + 1) as usize))
        } else {
            after_extensions(m)
        },
        Stage::Converting(i) => if ok {
            (m.with_stage(Stage::Freezing(i)), Action::FreezeArg(i))
        } else {
            abort(m, BootError::ArgConversion(i))
        },
        Stage::Freezing(i) => if !ok {
            abort(m, BootError::ArgFreeze(i))
        } else if i + 1 < m.n_args {
            (m.with_stage(Stage::Converting((i + 1) as usize)), Action::ConvertArg((i + 1) as usize))
        } else {
            (m.with_stage(Stage::Binding), Action::BindArgv)
        },
        Stage::Binding => if ok {
            (m.with_stage(Stage::Running), Action::EvalScript)
        } else {
            abort(m, BootError::ArgvBinding)
        },
        Stage::Running => if ok {
            (m.with_stage(Stage::Closing), Action::Close)
        } else {
            (m.with_stage(Stage::Reporting), Action::ReportBacktrace)
        },
        Stage::Reporting => if ok {
            (m.with_stage(Stage::Closing), Action::Close)
        } else {
            abort(m, BootError::Report)
        },
        Stage::Closing => (m.with_stage(Stage::Finished), Action::Exit(m.failure)),
        Stage::Finished => (m, Action::Exit(m.failure)),
    }
}

impl Boot {
    /// A new bootstrap, and its first action: create the interpreter.
    pub fn begin(n_ext: usize, n_args: usize) -> (r: (Boot, Action))
        ensures
            r == start(n_ext, n_args),
            r.0.wf(),
    {
        (Boot { stage: Stage::Creating, n_ext, n_args, failure: None }, Action::CreateInterpreter)
    }

    fn after_extensions(&mut self) -> (a: Action)
        ensures
            (*final(self), a) == after_extensions(*old(self)),
    {
        if self.n_args > 0 {
            self.stage = Stage::Converting(0);
            Action::ConvertArg(0)
        } else {
            self.stage = Stage::Binding;
            Action::BindArgv
        }
    }

    fn abort(&mut self, e: BootError) -> (a: Action)
        ensures
            (*final(self), a) == abort(*old(self), e),
    {
        self.stage = Stage::Closing;
        self.failure = Some(e);
        Action::Close
    }

    /// Takes the outcome of the last action and gives the next one.
    pub fn step(&mut self, e: Event) -> (a: Action)
        ensures
            (*final(self), a) == next(*old(self), e),
    {
        let ok = match e {
            Event::Done => true,
            Event::Failed => false,
        };
        match self.stage {
            Stage::Creating => if !ok {
                self.stage = Stage::Finished;
                self.failure = Some(BootError::Create);
                Action::Exit(Some(BootError::Create))
            } else if self.n_ext > 0 {
                self.stage = Stage::Defining(0);
                Action::DefineClass(0)
            } else {
                self.after_extensions()
            },
            Stage::Defining(i) => if ok {
                self.stage = Stage::Evaluating(i);
                Action::EvalClassSource(i)
            } else {
                self.abort(BootError::Extension(i, ExtensionError::SpecInvalid))
            },
            Stage::Evaluating(i) => if !ok {
                self.abort(BootError::Extension(i, ExtensionError::EvalFailed))
            } else if i < self.n_ext && self.n_ext - i > 1 {
                self.stage = Stage::Defining(i + 1);
                Action::DefineClass(i + 1)
            } else {
                self.after_extensions()
            },
            Stage::Converting(i) => if ok {
                self.stage = Stage::Freezing(i);
                Action::FreezeArg(i)
            } else {
                self.abort(BootError::ArgConversion(i))
            },
            Stage::Freezing(i) => if !ok {
                self.abort(BootError::ArgFreeze(i))
            } else if i < self.n_args && self.n_args - i > 1 {
                self.stage = Stage::Converting(i + 1);
                Action::ConvertArg(i + 1)
            } else {
                self.stage = Stage::Binding;
                Action::BindArgv
            },
            Stage::Binding => if ok {
                self.stage = Stage::Running;
                Action::EvalScript
            } else {
                self.abort(BootError::ArgvBinding)
            },
            Stage::Running => if ok {
                self.stage = Stage::Closing;
                Action::Close
            } else {
                self.stage = Stage::Reporting;
                Action::ReportBacktrace
            },
            Stage::Reporting => if ok {
                self.stage = Stage::Closing;
                Action::Close
            } else {
                self.abort(BootError::Report)
            },
            Stage::Closing => {
                self.stage = Stage::Finished;
                Action::Exit(self.failure)
            },
            Stage::Finished => Action::Exit(self.failure),
        }
    }
}

/// The state reached and the actions emitted when the host answers with `evs`.
pub open spec fn run(m: Boot, evs: Seq<Event>) -> (Boot, Seq<Action>)
    decreases evs.len(),
{
    if evs.len() == 0 {
        (m, Seq::empty())
    } else {
        let (m1, a) = next(m, evs[0]);
        let (mf, rest) = run(m1, evs.drop_first());
        (mf, seq![a] + rest)
    }
}

/// How many times `acts` releases the interpreter.
pub open spec fn count_close(acts: Seq<Action>) -> nat
    decreases acts.len(),
{
    if acts.len() == 0 {
        0
    } else {
        (if acts[0] == Action::Close { 1nat } else { 0nat }) + count_close(acts.drop_first())
    }
}

/// An upper bound on the steps left before the bootstrap is finished.
pub open spec fn steps_left(m: Boot) -> nat {
    let a = m.n_args as int;
    let x = m.n_ext as int;
    (match m.stage {
        Stage::Creating => 5 + 2 * a + 2 * x,
        Stage::Defining(i) => 4 + 2 * a + 2 * (x - i),
        Stage::Evaluating(i) => 3 + 2 * a + 2 * (x - i),
        Stage::Converting(i) => 4 + 2 * (a - i),
        Stage::Freezing(i) => 3 + 2 * (a - i),
        Stage::Binding => 4,
        Stage::Running => 3,
        Stage::Reporting => 2,
        Stage::Closing => 1,
        Stage::Finished => 0,
    }) as nat
}

/// Each transition keeps the machine well formed and brings it closer to the end.
proof fn lemma_next(m: Boot, e: Event)
    requires
        m.wf(),
    ensures
        next(m, e).0.wf(),
        next(m, e).0.n_ext == m.n_ext,
        next(m, e).0.n_args == m.n_args,
        m.stage == Stage::Finished ==> next(m, e).0 == m,
        m.stage != Stage::Finished ==> steps_left(next(m, e).0) < steps_left(m),
        next(m, e).1 == Action::Close <==> (live(m.stage) || m.stage == Stage::Creating) && next(
            m,
            e,
        ).0.stage == Stage::Closing,
        live(next(m, e).0.stage) ==> live(m.stage) || m.stage == Stage::Creating,
        m.stage == Stage::Creating ==> (live(next(m, e).0.stage) <==> e == Event::Done),
{
}

/// From a created interpreter, or one already released: a long enough run
/// finishes, and releases the interpreter once if it was live, else never.
proof fn lemma_run_from(m: Boot, evs: Seq<Event>)
    requires
        m.wf(),
        m.stage != Stage::Creating,
        evs.len() >= steps_left(m),
    ensures
        run(m, evs).0.stage == Stage::Finished,
        count_close(run(m, evs).1) == (if live(m.stage) { 1nat } else { 0nat }),
    decreases evs.len(),
{
    if evs.len() > 0 {
        let (m1, a) = next(m, evs[0]);
        lemma_next(m, evs[0]);
        lemma_run_from(m1, evs.drop_first());
        let rest = run(m1, evs.drop_first()).1;
        assert((seq![a] + rest).drop_first() =~= rest);
    }
}

/// Whatever the outcome of each action, a bootstrap that is given enough
/// outcomes finishes; it releases the interpreter exactly once when the
/// interpreter was created, and never when creation failed.
pub proof fn lemma_closed_exactly_once(n_ext: usize, n_args: usize, evs: Seq<Event>)
    requires
        evs.len() >= 5 + 2 * n_ext + 2 * n_args,
    ensures
        run(start(n_ext, n_args).0, evs).0.stage == Stage::Finished,
        count_close(run(start(n_ext, n_args).0, evs).1) == (if evs[0] == Event::Done {
            1nat
        } else {
            0nat
        }),
{
    let m = start(n_ext, n_args).0;
    let (m1, a) = next(m, evs[0]);
    lemma_next(m, evs[0]);
    lemma_run_from(m1, evs.drop_first());
    let rest = run(m1, evs.drop_first()).1;
    assert((seq![a] + rest).drop_first() =~= rest);
}

/// `n` outcomes that all succeed.
pub open spec fn all_done(n: nat) -> Seq<Event> {
    Seq::new(n, |k: int| Event::Done)
}

/// The action at place `k` of a bootstrap in which every action succeeds.
pub open spec fn ok_action(n_ext: usize, n_args: usize, k: int) -> Action {
    let x = 2 * n_ext;
    let y = x + 2 * n_args;
    if k < x {
        if k % 2 == 0 {
            Action::DefineClass((k / 2) as usize)
        } else {
            Action::EvalClassSource((k / 2) as usize)
        }
    } else if k < y {
        if (k - x) % 2 == 0 {
            Action::ConvertArg(((k - x) / 2) as usize)
        } else {
            Action::FreezeArg(((k - x) / 2) as usize)
        }
    } else if k == y {
        Action::BindArgv
    } else if k == y + 1 {
        Action::EvalScript
    } else if k == y + 2 {
        Action::Close
    } else {
        Action::Exit(None)
    }
}

/// The actions, after creation, of a bootstrap in which every action succeeds:
/// define then evaluate each extension in order; convert then freeze each
/// argument in order; bind the collection; run the script; close; exit with
/// success.
pub open spec fn ok_trace(n_ext: usize, n_args: usize) -> Seq<Action> {
    Seq::new((2 * n_ext + 2 * n_args + 4) as nat, |k: int| ok_action(n_ext, n_args, k))
}

/// The stage that waits for the outcome of `ok_action(n_ext, n_args, k)`.
pub open spec fn ok_stage(n_ext: usize, n_args: usize, k: int) -> Stage {
    let x = 2 * n_ext;
    let y = x + 2 * n_args;
    if k < x {
        if k % 2 == 0 {
            Stage::Defining((k / 2) as usize)
        } else {
            Stage::Evaluating((k / 2) as usize)
        }
    } else if k < y {
        if (k - x) % 2 == 0 {
            Stage::Converting(((k - x) / 2) as usize)
        } else {
            Stage::Freezing(((k - x) / 2) as usize)
        }
    } else if k == y {
        Stage::Binding
    } else if k == y + 1 {
        Stage::Running
    } else if k == y + 2 {
        Stage::Closing
    } else {
        Stage::Finished
    }
}

/// A run on one more outcome takes one more transition.
proof fn lemma_run_push(m: Boot, evs: Seq<Event>, e: Event)
    ensures
        run(m, evs.push(e)).0 == next(run(m, evs).0, e).0,
        run(m, evs.push(e)).1 == run(m, evs).1.push(next(run(m, evs).0, e).1),
    decreases evs.len(),
{
    let evs1 = evs.push(e);
    assert(evs1.len() > 0);
    if evs.len() == 0 {
        assert(evs1[0] == e);
        assert(evs1.drop_first() =~= Seq::<Event>::empty());
        let (m1, a) = next(m, e);
        assert(run(m1, Seq::<Event>::empty()) == (m1, Seq::<Action>::empty()));
        assert(run(m, evs1) == (m1, seq![a] + Seq::<Action>::empty()));
        assert(seq![a] + Seq::<Action>::empty() =~= Seq::<Action>::empty().push(a));
    } else {
        assert(evs1[0] == evs[0]);
        let (m1, a) = next(m, evs[0]);
        assert(evs1.drop_first() =~= evs.drop_first().push(e));
        lemma_run_push(m1, evs.drop_first(), e);
        let rest = run(m1, evs.drop_first()).1;
        let last = next(run(m1, evs.drop_first()).0, e).1;
        assert(run(m, evs1).1 == seq![a] + run(m1, evs.drop_first().push(e)).1);
        assert(run(m, evs).1 == seq![a] + rest);
        assert(seq![a] + rest.push(last) =~= (seq![a] + rest).push(last));
    }
}

/// One successful outcome moves the machine from `ok_stage(k)` to
/// `ok_stage(k + 1)` and emits `ok_action(k + 1)`.
proof fn lemma_ok_step(n_ext: usize, n_args: usize, k: int)
    requires
        -1 <= k,
        k + 1 < 2 * n_ext + 2 * n_args + 4,
    ensures
        ({
            let m0 = start(n_ext, n_args).0;
            let m = if k == -1 { m0 } else { m0.with_stage(ok_stage(n_ext, n_args, k)) };
            next(m, Event::Done) == (
                m0.with_stage(ok_stage(n_ext, n_args, k + 1)),
                ok_action(n_ext, n_args, k + 1),
            )
        }),
{
    let x = 2 * n_ext;
    let y = x + 2 * n_args;
    let k1 = k + 1;
    if k == -1 {
    } else if k < x {
        assert(k % 2 == 0 ==> k1 % 2 == 1 && k1 / 2 == k / 2);
        assert(k % 2 == 1 ==> k1 % 2 == 0 && k1 / 2 == k / 2 + 1);
    } else if k < y {
        let r = k - x;
        assert(r % 2 == 0 ==> (r + 1) % 2 == 1 && (r + 1) / 2 == r / 2);
        assert(r % 2 == 1 ==> (r + 1) % 2 == 0 && (r + 1) / 2 == r / 2 + 1);
        assert(k1 - x == r + 1);
    }
}

/// After `k + 1` successful outcomes the machine waits at `ok_stage(k)`,
/// having emitted the first `k + 1` actions of `ok_trace`.
proof fn lemma_ok_prefix(n_ext: usize, n_args: usize, k: nat)
    requires
        k < 2 * n_ext + 2 * n_args + 4,
    ensures
        run(start(n_ext, n_args).0, all_done(k + 1)).0 == start(n_ext, n_args).0.with_stage(
            ok_stage(n_ext, n_args, k as int),
        ),
        run(start(n_ext, n_args).0, all_done(k + 1)).1 =~= ok_trace(n_ext, n_args).take(
            k + 1 as int,
        ),
    decreases k,
{
    let m0 = start(n_ext, n_args).0;
    let t = ok_trace(n_ext, n_args);
    lemma_ok_step(n_ext, n_args, k - 1);
    assert(all_done(k + 1) =~= all_done(k).push(Event::Done));
    lemma_run_push(m0, all_done(k), Event::Done);
    if k == 0 {
        assert(all_done(0) =~= Seq::<Event>::empty());
        assert(run(m0, all_done(0)) == (m0, Seq::<Action>::empty()));
        assert(t.take(1) =~= Seq::<Action>::empty().push(ok_action(n_ext, n_args, 0)));
    } else {
        lemma_ok_prefix(n_ext, n_args, (k - 1) as nat);
        assert(t.take(k + 1 as int) =~= t.take(k as int).push(ok_action(n_ext, n_args, k as int)));
    }
}

/// When every action succeeds, the bootstrap installs the extensions in order,
/// each class defined before its in-language source is evaluated; converts
/// and freezes every process argument, one after the other and in their
/// order, before the collection is bound; then runs the script, closes the
/// interpreter and exits with success.
pub proof fn lemma_ok_run(n_ext: usize, n_args: usize)
    ensures
        run(start(n_ext, n_args).0, all_done((2 * n_ext + 2 * n_args + 4) as nat)).1 == ok_trace(
            n_ext,
            n_args,
        ),
{
    let n = (2 * n_ext + 2 * n_args + 3) as nat;
    lemma_ok_prefix(n_ext, n_args, n);
    assert(ok_trace(n_ext, n_args).take(n + 1 as int) =~= ok_trace(n_ext, n_args));
}

/// Once a failure `f` is recorded, the only actions left are the release of
/// the interpreter and an exit that reports `f`.
pub open spec fn after_failure(a: Action, f: BootError) -> bool {
    a == Action::Close || a == Action::Exit(Some(f))
}

/// A recorded failure is final: no class is defined, no source or script is
/// evaluated and no argument is converted after it, and the bootstrap exits
/// reporting it.
pub proof fn lemma_failure_is_final(m: Boot, evs: Seq<Event>, f: BootError)
    requires
        m.wf(),
        m.failure == Some(f),
    ensures
        run(m, evs).0.failure == Some(f),
        forall|k: int|
            0 <= k < run(m, evs).1.len() ==> after_failure(#[trigger] run(m, evs).1[k], f),
    decreases evs.len(),
{
    if evs.len() > 0 {
        let (m1, a) = next(m, evs[0]);
        lemma_next(m, evs[0]);
        lemma_failure_is_final(m1, evs.drop_first(), f);
        let rest = run(m1, evs.drop_first()).1;
        assert(run(m, evs).1 == seq![a] + rest);
        assert forall|k: int| 0 <= k < run(m, evs).1.len() implies after_failure(
            #[trigger] run(m, evs).1[k],
            f,
        ) by {
            if k > 0 {
                assert(run(m, evs).1[k] == rest[k - 1]);
            }
        }
    }
}

/// When the script raises after a successful start, the bootstrap reports
/// the error and closes the interpreter; it then exits with success if the
/// report was written, and with `BootError::Report` if writing it failed.
pub proof fn lemma_script_error_outcome(n_ext: usize, n_args: usize, report: Event)
    ensures
        ({
            let k = (2 * n_ext + 2 * n_args + 2) as nat;
            let evs = all_done(k).push(Event::Failed).push(report).push(Event::Done);
            let acts = run(start(n_ext, n_args).0, evs).1;
            &&& acts.len() == k + 3
            &&& acts[k as int] == Action::ReportBacktrace
            &&& acts[k + 1 as int] == Action::Close
            &&& acts[k + 2 as int] == Action::Exit(
                if report == Event::Done {
                    None
                } else {
                    Some(BootError::Report)
                },
            )
        }),
{
    let m0 = start(n_ext, n_args).0;
    let k = (2 * n_ext + 2 * n_args + 2) as nat;
    lemma_ok_prefix(n_ext, n_args, (k - 1) as nat);
    let e1 = all_done(k).push(Event::Failed);
    let e2 = e1.push(report);
    lemma_run_push(m0, all_done(k), Event::Failed);
    lemma_run_push(m0, e1, report);
    lemma_run_push(m0, e2, Event::Done);
}

} // verus!
