//! The interpreter abstraction: the capability set every script interpreter
//! offers, the factory registry contract, and the action protocol of the
//! external-process interpreter (the part of it that computes; the process
//! plumbing lives outside the core).

use vstd::prelude::*;
use crate::SyncTime;
use crate::protocol::ConcreteEvent;
use crate::scene::Script;
use crate::vm::{EvaluationContext, StackVM, Variable, VariableValue, cv_set, CtxView};

verus! {

/// The sentinel byte that ends one step's action stream of the external
/// interpreter protocol.
pub const EXTERNAL_DONE_CHAR: u8 = 7;

/// What a script interpreter can do: advance one step against a context,
/// yielding an optional event and an optional delay; report termination;
/// and stop.
pub trait Interpreter {
    /// Advance one step.
    fn execute_next(&mut self, ctx: &mut EvaluationContext)
        -> (Option<ConcreteEvent>, Option<SyncTime>);

    /// Whether the interpreter has ended.
    fn has_terminated(&self) -> bool;

    /// Stop the interpreter.
    fn stop(&mut self);
}

impl Interpreter for StackVM {
    fn execute_next(&mut self, ctx: &mut EvaluationContext)
        -> (Option<ConcreteEvent>, Option<SyncTime>)
    {
        if ctx.locals.len() == 0 || ctx.tempo > 0x7FFF_FFFF_FFFF_FFFF
            || ctx.frame_len > 0x7FFF_FFFF_FFFF_FFFF {
            // An ill-formed context stops the interpreter instead of
            // advancing it.
            self.stop();
            return (None, None);
        }
        StackVM::execute_next(self, ctx)
    }

    fn has_terminated(&self) -> bool {
        StackVM::has_terminated(self)
    }

    fn stop(&mut self) {
        StackVM::stop(self)
    }
}

/// Makes interpreter instances for one language; a process-wide registry
/// maps language names to factories.
pub trait InterpreterFactory {
    /// The interpreter an instance runs.
    type Instance;

    /// The language name the factory serves.
    fn name(&self) -> &'static str;

    /// Build an interpreter for a script; a script the factory cannot serve
    /// is an error carrying a report.
    fn make_instance(&self, script: &Script) -> Result<Self::Instance, crate::ErrorKind>;
}

/// The factory of the built-in stack-machine interpreter.
pub struct VmInterpreterFactory;

impl InterpreterFactory for VmInterpreterFactory {
    type Instance = StackVM;

    fn name(&self) -> &'static str {
        "dummy"
    }

    fn make_instance(&self, script: &Script) -> Result<StackVM, crate::ErrorKind> {
        match crate::dummylang::compile_script(script) {
            Ok(program) => Ok(StackVM::new(program)),
            Err(e) => Err(e),
        }
    }
}

/// One action of the external interpreter protocol: an external process
/// reads the serialized context from its input and writes back a stream of
/// these, ended by the sentinel byte.
pub enum ExternalAction {
    /// Bind a variable.
    Var(Variable, VariableValue),
    /// Replace the whole stack.
    Stack(Vec<VariableValue>),
    /// Emit an event.
    Event(ConcreteEvent),
    /// Request a delay, in microseconds.
    Delay(SyncTime),
    /// End the execution.
    Terminate,
}

/// What one step of the external interpreter came to: the context changes
/// were applied; the last event and delay of the stream, and whether the
/// stream asked to terminate, are reported.
pub struct ExternalStep {
    /// The last event the stream emitted, when any.
    pub event: Option<ConcreteEvent>,
    /// The last delay the stream requested, when any.
    pub delay: Option<SyncTime>,
    /// Whether the stream asked to terminate.
    pub terminate: bool,
}

/// The context state after an action stream was applied, in order: a `Var`
/// action binds its variable, a `Stack` action replaces the whole stack,
/// and the other actions leave the context alone.
pub open spec fn spec_apply_actions(c: CtxView, actions: Seq<ExternalAction>) -> CtxView
    decreases actions.len(),
{
    if actions.len() == 0 {
        c
    } else {
        let c2 = match actions[0] {
            ExternalAction::Var(v, x) => cv_set(c, v, x),
            ExternalAction::Stack(s) => CtxView { stack: s@, ..c },
            _ => c,
        };
        spec_apply_actions(c2, actions.drop_first())
    }
}

/// The last event of an action stream, when one was emitted.
pub open spec fn spec_last_event(actions: Seq<ExternalAction>) -> Option<ConcreteEvent>
    decreases actions.len(),
{
    if actions.len() == 0 {
        None
    } else {
        match actions.last() {
            ExternalAction::Event(e) => Some(e),
            _ => spec_last_event(actions.drop_last()),
        }
    }
}

/// The last delay of an action stream, when one was requested.
pub open spec fn spec_last_delay(actions: Seq<ExternalAction>) -> Option<SyncTime>
    decreases actions.len(),
{
    if actions.len() == 0 {
        None
    } else {
        match actions.last() {
            ExternalAction::Delay(d) => Some(d),
            _ => spec_last_delay(actions.drop_last()),
        }
    }
}

/// Whether an action stream asks to terminate.
pub open spec fn spec_wants_terminate(actions: Seq<ExternalAction>) -> bool {
    exists|i: int| 0 <= i < actions.len() && (#[trigger] actions[i]) is Terminate
}

/// Apply one action stream to a context, as the external interpreter does
/// after reading a step's actions: bindings and stack replacements apply in
/// order; the last event and the last delay win; a terminate request is
/// reported.
pub fn apply_external_actions(ctx: &mut EvaluationContext, actions: Vec<ExternalAction>)
    -> (r: ExternalStep)
    requires
        old(ctx).wf(),
    ensures
        final(ctx).wf(),
        final(ctx).view_ctx() == spec_apply_actions(old(ctx).view_ctx(), actions@),
        r.event == spec_last_event(actions@),
        r.delay == spec_last_delay(actions@),
        r.terminate == spec_wants_terminate(actions@),
{
    let ghost all = actions@;
    let mut event: Option<ConcreteEvent> = None;
    let mut delay: Option<SyncTime> = None;
    let mut terminate = false;
    let mut actions = actions;
    let ghost mut k: int = 0;
    loop
        invariant
            ctx.wf(),
            0 <= k <= all.len(),
            actions@ == all.skip(k),
            spec_apply_actions(old(ctx).view_ctx(), all)
                == spec_apply_actions(ctx.view_ctx(), all.skip(k)),
            event == spec_last_event(all.take(k)),
            delay == spec_last_delay(all.take(k)),
            terminate == spec_wants_terminate(all.take(k)),
        ensures
            ctx.wf(),
            k == all.len(),
            spec_apply_actions(old(ctx).view_ctx(), all)
                == spec_apply_actions(ctx.view_ctx(), all.skip(k)),
            event == spec_last_event(all.take(k)),
            delay == spec_last_delay(all.take(k)),
            terminate == spec_wants_terminate(all.take(k)),
        decreases actions@.len(),
    {
        if actions.len() == 0 {
            proof {
                assert(all.skip(k).len() == 0);
                assert(k == all.len());
            }
            break;
        }
        let ghost pre_view = ctx.view_ctx();
        proof {
            assert(all.skip(k)[0] == all[k]);
            assert(all.skip(k).drop_first() =~= all.skip(k + 1));
            assert(all.take(k + 1).drop_last() =~= all.take(k));
            assert(all.take(k + 1).last() == all[k]);
        }
        let act = actions.remove(0);
        match act {
            ExternalAction::Var(v, x) => {
                ctx.set_var(&v, x);
            },
            ExternalAction::Stack(stack) => {
                ctx.stack = stack;
                proof {
                    assert(ctx.view_ctx() =~~= (CtxView { stack: ctx.stack@, ..pre_view }));
                }
            },
            ExternalAction::Event(e) => {
                event = Some(e);
            },
            ExternalAction::Delay(d) => {
                delay = Some(d);
            },
            ExternalAction::Terminate => {
                terminate = true;
            },
        }
        proof {
            if terminate && !spec_wants_terminate(all.take(k + 1)) {
                if all[k] is Terminate {
                    assert(all.take(k + 1)[k] == all[k]);
                    assert(false);
                } else {
                    let w = choose|w: int| 0 <= w < all.take(k).len()
                        && (#[trigger] all.take(k)[w]) is Terminate;
                    assert(all.take(k + 1)[w] == all.take(k)[w]);
                    assert(false);
                }
            }
            if !terminate && spec_wants_terminate(all.take(k + 1)) {
                let w = choose|w: int| 0 <= w < all.take(k + 1).len()
                    && (#[trigger] all.take(k + 1)[w]) is Terminate;
                if w < k {
                    assert(all.take(k)[w] == all.take(k + 1)[w]);
                } else {
                    assert(all.take(k + 1)[w] == all[k]);
                }
                assert(false);
            }
            k = k + 1;
        }
    }
    proof {
        assert(all.take(all.len() as int) =~= all);
        assert(all.skip(all.len() as int).len() == 0);
    }
    ExternalStep { event, delay, terminate }
}

/// Split one step's bytes off an external interpreter's output: everything
/// before the first sentinel byte, and the rest after it. Without a
/// sentinel the step is not complete and nothing is consumed.
pub fn split_at_sentinel(buf: &Vec<u8>) -> (r: Option<(Vec<u8>, Vec<u8>)>)
    ensures
        match r {
            Some((step, rest)) => exists|i: int| 0 <= i < buf@.len()
                && (#[trigger] buf@[i]) == EXTERNAL_DONE_CHAR
                && (forall|j: int| 0 <= j < i ==> buf@[j] != EXTERNAL_DONE_CHAR)
                && step@ == buf@.subrange(0, i)
                && rest@ == buf@.subrange(i + 1, buf@.len() as int),
            None => forall|j: int| 0 <= j < buf@.len()
                ==> (#[trigger] buf@[j]) != EXTERNAL_DONE_CHAR,
        },
{
    let n = buf.len();
    let mut i: usize = 0;
    while i < n
        invariant
            i <= n,
            n == buf@.len(),
            forall|j: int| 0 <= j < i ==> (#[trigger] buf@[j]) != EXTERNAL_DONE_CHAR,
        decreases n - i,
    {
        if buf[i] == EXTERNAL_DONE_CHAR {
            let step = copy_bytes(buf, 0, i);
            let rest = copy_bytes(buf, i + 1, n);
            proof {
                assert(buf@[i as int] == EXTERNAL_DONE_CHAR);
            }
            return Some((step, rest));
        }
        i = i + 1;
    }
    None
}

/// Copy a byte span.
fn copy_bytes(v: &Vec<u8>, from: usize, to: usize) -> (r: Vec<u8>)
    requires
        from <= to <= v@.len(),
    ensures
        r@ == v@.subrange(from as int, to as int),
{
    let mut r: Vec<u8> = Vec::new();
    let mut i: usize = from;
    while i < to
        invariant
            from <= i <= to <= v@.len(),
            r@ =~= v@.subrange(from as int, i as int),
        decreases to - i,
    {
        r.push(v[i]);
        proof {
            assert(r@ =~= v@.subrange(from as int, i + 1));
        }
        i = i + 1;
    }
    proof {
        assert(r@ =~= v@.subrange(from as int, to as int));
    }
    r
}

} // verus!
