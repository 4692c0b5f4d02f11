//! The stack-machine virtual machine: dynamic values, scoped variable
//! stores, the instruction set, and a small-step interpreter that yields
//! events and delays to the scheduler.

use vstd::prelude::*;
use crate::SyncTime;
use crate::protocol::ConcreteEvent;

verus! {

/// A dynamic value: a tagged union with explicit conversions. Values are
/// scalars and strings; programs are invoked through the program's
/// linker-resolved procedure table, not carried as values.
pub enum VariableValue {
    /// No value.
    Unit,
    /// A boolean.
    Bool(bool),
    /// A signed integer.
    Int(i64),
    /// A fixed-point number in millionths.
    Fix(i64),
    /// A string.
    Str(String),
}

/// A variable reference, or a literal carried inline.
pub enum Variable {
    /// The innermost local scope, falling back to frame, line and global.
    Instance(String),
    /// The current frame's scope.
    Frame(String),
    /// The current line's scope.
    Line(String),
    /// The process-wide scope.
    Global(String),
    /// The top of the stack: reads pop, writes push.
    StackBack,
    /// A literal value.
    Value(VariableValue),
}

/// A binary operation consuming two stack values.
#[derive(Clone, Copy, PartialEq, Eq, Structural, Debug)]
pub enum BinOp {
    /// Saturating addition.
    Add,
    /// Saturating subtraction.
    Sub,
    /// Saturating multiplication.
    Mul,
    /// Division; division by zero yields zero.
    Div,
    /// Greater-than on integers.
    Gt,
    /// Less-than on integers.
    Lt,
    /// Equality on integers, booleans and strings.
    Eq,
    /// Boolean conjunction.
    And,
    /// Boolean disjunction.
    Or,
}

/// One instruction of the virtual machine.
pub enum ControlASM {
    /// Do nothing.
    Nop,
    /// Push a literal or a variable's value.
    Push(Variable),
    /// Pop the stack into a variable.
    Pop(Variable),
    /// Copy the source into the destination.
    Mov(Variable, Variable),
    /// Call an environment function; arguments are on the stack in reverse
    /// order, the result (or the yielded event) replaces them.
    CallFunction(String),
    /// Call the procedure at an instruction index of the program's
    /// linker-resolved table, entering a new local scope.
    CallProcedure(usize),
    /// Leave the current procedure; an optional result stays on the stack.
    Return,
    /// Apply a binary operation to the two topmost stack values.
    BinaryOp(BinOp),
}

/// A compiled program.
pub type Program = Vec<ControlASM>;

/// The first value bound to `name` in a scope, newest binding first.
pub open spec fn spec_lookup(env: Seq<(String, VariableValue)>, name: Seq<char>)
    -> Option<VariableValue>
    decreases env.len(),
{
    if env.len() == 0 {
        None
    } else if env[0].0@ == name {
        Some(env[0].1)
    } else {
        spec_lookup(env.drop_first(), name)
    }
}

/// Look a name up in a scope.
pub fn lookup<'a>(env: &'a Vec<(String, VariableValue)>, name: &String) -> (r: Option<&'a VariableValue>)
    ensures
        match r {
            Some(v) => spec_lookup(env@, name@) == Some(*v),
            None => spec_lookup(env@, name@) == None::<VariableValue>,
        },
{
    let n = env.len();
    let mut i: usize = 0;
    proof {
        assert(env@.skip(0) =~= env@);
    }
    while i < n
        invariant
            i <= n,
            n == env@.len(),
            spec_lookup(env@, name@) == spec_lookup(env@.skip(i as int), name@),
        decreases n - i,
    {
        proof {
            assert(env@.skip(i as int)[0] == env@[i as int]);
            assert(env@.skip(i as int).drop_first() =~= env@.skip(i + 1));
        }
        if env[i].0.eq(name) {
            return Some(&env[i].1);
        }
        i = i + 1;
    }
    proof {
        assert(env@.skip(i as int).len() == 0);
    }
    None
}

/// Bind a name in a scope: the new binding shadows any older one.
pub fn store(env: &mut Vec<(String, VariableValue)>, name: &String, v: VariableValue)
    ensures
        final(env)@ == old(env)@.insert(0, (*name, v)),
        spec_lookup(final(env)@, name@) == Some(v),
        forall|n: Seq<char>| n != name@
            ==> #[trigger] spec_lookup(final(env)@, n) == spec_lookup(old(env)@, n),
{
    env.insert(0, (name.clone(), v));
    proof {
        assert(final(env)@[0].0@ == name@);
        assert(final(env)@.drop_first() =~= old(env)@);
    }
}

/// The per-step state a script evaluates against: a stack, the variable
/// scopes, and the clock snapshot values of this tick.
pub struct EvaluationContext {
    /// The operand stack; the last element is the top.
    pub stack: Vec<VariableValue>,
    /// The local scopes, one per live procedure call; the last is the
    /// innermost. Never empty.
    pub locals: Vec<Vec<(String, VariableValue)>>,
    /// Variables of the current frame.
    pub frame_vars: Vec<(String, VariableValue)>,
    /// Variables of the current line.
    pub line_vars: Vec<(String, VariableValue)>,
    /// Process-wide variables.
    pub globals: Vec<(String, VariableValue)>,
    /// Tempo snapshot of this tick, in microseconds per beat.
    pub tempo: u64,
    /// The current frame's length, in microbeats.
    pub frame_len: u64,
}

impl EvaluationContext {
    /// There is always an innermost local scope.
    pub open spec fn wf(self) -> bool {
        self.locals@.len() >= 1
    }

    /// The value a name resolves to: innermost locals first, then the
    /// frame, the line, and the globals; unbound names read as no value.
    pub open spec fn spec_resolve(self, name: Seq<char>) -> VariableValue {
        match spec_lookup(self.locals@.last()@, name) {
            Some(v) => v,
            None => match spec_lookup(self.frame_vars@, name) {
                Some(v) => v,
                None => match spec_lookup(self.line_vars@, name) {
                    Some(v) => v,
                    None => match spec_lookup(self.globals@, name) {
                        Some(v) => v,
                        None => VariableValue::Unit,
                    },
                },
            },
        }
    }

    /// A fresh context with empty scopes.
    pub fn new(tempo: u64, frame_len: u64) -> (c: EvaluationContext)
        ensures
            c.wf(),
            c.stack@.len() == 0,
            c.locals@.len() == 1,
            c.locals@[0]@.len() == 0,
            c.frame_vars@.len() == 0,
            c.line_vars@.len() == 0,
            c.globals@.len() == 0,
            c.tempo == tempo,
            c.frame_len == frame_len,
    {
        let mut locals: Vec<Vec<(String, VariableValue)>> = Vec::new();
        locals.push(Vec::new());
        EvaluationContext {
            stack: Vec::new(),
            locals,
            frame_vars: Vec::new(),
            line_vars: Vec::new(),
            globals: Vec::new(),
            tempo,
            frame_len,
        }
    }

    /// Resolve a name through the scope chain.
    pub fn resolve(&self, name: &String) -> (r: VariableValue)
        requires
            self.wf(),
        ensures
            r == self.spec_resolve(name@),
    {
        let top = &self.locals[self.locals.len() - 1];
        match lookup(top, name) {
            Some(v) => v.clone_value(),
            None => match lookup(&self.frame_vars, name) {
                Some(v) => v.clone_value(),
                None => match lookup(&self.line_vars, name) {
                    Some(v) => v.clone_value(),
                    None => match lookup(&self.globals, name) {
                        Some(v) => v.clone_value(),
                        None => VariableValue::Unit,
                    },
                },
            },
        }
    }
}

impl VariableValue {
    /// A copy of the value.
    pub fn clone_value(&self) -> (r: VariableValue)
        ensures
            r == *self,
    {
        match self {
            VariableValue::Unit => VariableValue::Unit,
            VariableValue::Bool(b) => VariableValue::Bool(*b),
            VariableValue::Int(x) => VariableValue::Int(*x),
            VariableValue::Fix(x) => VariableValue::Fix(*x),
            VariableValue::Str(s) => VariableValue::Str(s.clone()),
        }
    }

    /// The integer reading of a value: integers themselves, fixed-point
    /// numbers rounded toward zero, booleans as zero and one, everything
    /// else zero.
    pub open spec fn spec_as_int(self) -> int {
        match self {
            VariableValue::Int(x) => x as int,
            VariableValue::Fix(x) => if x >= 0 {
                (x as int) / 1_000_000
            } else if x == i64::MIN {
                -9_223_372_036_854int
            } else {
                0 - ((0 - x) / 1_000_000)
            },
            VariableValue::Bool(b) => if b { 1int } else { 0int },
            _ => 0int,
        }
    }

    /// Read the value as an integer.
    pub fn as_integer(&self) -> (r: i64)
        ensures
            r as int == self.spec_as_int(),
    {
        match self {
            VariableValue::Int(x) => *x,
            VariableValue::Fix(x) => {
                if *x >= 0 {
                    *x / 1_000_000
                } else if *x == i64::MIN {
                    -9_223_372_036_854
                } else {
                    let m = -*x;
                    -(m / 1_000_000)
                }
            },
            VariableValue::Bool(b) => if *b { 1 } else { 0 },
            _ => 0,
        }
    }

    /// The non-negative reading of a value, for event fields.
    pub open spec fn spec_as_u64(self) -> int {
        if self.spec_as_int() < 0 {
            0int
        } else {
            self.spec_as_int()
        }
    }

    /// Read the value as a non-negative number.
    pub fn as_u64(&self) -> (r: u64)
        ensures
            r as int == self.spec_as_u64(),
    {
        let x = self.as_integer();
        if x < 0 {
            0
        } else {
            x as u64
        }
    }
}

/// The mathematical state of an evaluation context.
pub ghost struct CtxView {
    /// The operand stack.
    pub stack: Seq<VariableValue>,
    /// The local scopes, innermost last.
    pub locals: Seq<Seq<(String, VariableValue)>>,
    /// The frame scope.
    pub frame_vars: Seq<(String, VariableValue)>,
    /// The line scope.
    pub line_vars: Seq<(String, VariableValue)>,
    /// The global scope.
    pub globals: Seq<(String, VariableValue)>,
    /// Tempo snapshot, microseconds per beat.
    pub tempo: u64,
    /// Current frame length, microbeats.
    pub frame_len: u64,
}

impl EvaluationContext {
    /// The context as a mathematical state.
    pub open spec fn view_ctx(self) -> CtxView {
        CtxView {
            stack: self.stack@,
            locals: self.locals@.map_values(|s: Vec<(String, VariableValue)>| s@),
            frame_vars: self.frame_vars@,
            line_vars: self.line_vars@,
            globals: self.globals@,
            tempo: self.tempo,
            frame_len: self.frame_len,
        }
    }
}

/// A scope read, or no value for an unbound name.
pub open spec fn spec_lookup_or_unit(env: Seq<(String, VariableValue)>, name: Seq<char>)
    -> VariableValue {
    match spec_lookup(env, name) {
        Some(v) => v,
        None => VariableValue::Unit,
    }
}

/// Name resolution over a context state: innermost locals, then frame, line
/// and globals.
pub open spec fn cv_resolve(c: CtxView, name: Seq<char>) -> VariableValue {
    match spec_lookup(c.locals.last(), name) {
        Some(v) => v,
        None => match spec_lookup(c.frame_vars, name) {
            Some(v) => v,
            None => match spec_lookup(c.line_vars, name) {
                Some(v) => v,
                None => spec_lookup_or_unit(c.globals, name),
            },
        },
    }
}

/// The value a variable reference reads in a context state. An `Instance`
/// name resolves through the scope chain; the other scope names read their
/// scope directly; the stack top reads the last stack value (or no value
/// when the stack is empty); a literal reads itself.
pub open spec fn cv_eval(c: CtxView, var: Variable) -> VariableValue {
    match var {
        Variable::Instance(n) => cv_resolve(c, n@),
        Variable::Frame(n) => spec_lookup_or_unit(c.frame_vars, n@),
        Variable::Line(n) => spec_lookup_or_unit(c.line_vars, n@),
        Variable::Global(n) => spec_lookup_or_unit(c.globals, n@),
        Variable::StackBack => if c.stack.len() > 0 {
            c.stack.last()
        } else {
            VariableValue::Unit
        },
        Variable::Value(v) => v,
    }
}

/// The stack after a variable reference was read: reading the stack top
/// consumes it, every other read leaves the stack alone.
pub open spec fn cv_eval_stack(c: CtxView, var: Variable) -> Seq<VariableValue> {
    match var {
        Variable::StackBack => if c.stack.len() > 0 {
            c.stack.drop_last()
        } else {
            c.stack
        },
        _ => c.stack,
    }
}

/// The context state after a value is written to a variable reference:
/// scope names bind (shadowing any older binding); the stack top as a
/// destination pushes; writing to a literal changes nothing.
pub open spec fn cv_set(c: CtxView, var: Variable, v: VariableValue) -> CtxView {
    match var {
        Variable::Instance(n) => CtxView {
            locals: c.locals.update(
                c.locals.len() - 1,
                c.locals.last().insert(0, (n, v)),
            ),
            ..c
        },
        Variable::Frame(n) => CtxView { frame_vars: c.frame_vars.insert(0, (n, v)), ..c },
        Variable::Line(n) => CtxView { line_vars: c.line_vars.insert(0, (n, v)), ..c },
        Variable::Global(n) => CtxView { globals: c.globals.insert(0, (n, v)), ..c },
        Variable::StackBack => CtxView { stack: c.stack.push(v), ..c },
        Variable::Value(_) => c,
    }
}

impl EvaluationContext {
    /// Read a variable reference; reading the stack top consumes it.
    pub fn evaluate(&mut self, var: &Variable) -> (r: VariableValue)
        requires
            old(self).wf(),
        ensures
            final(self).wf(),
            r == cv_eval(old(self).view_ctx(), *var),
            final(self).view_ctx() == (CtxView {
                stack: cv_eval_stack(old(self).view_ctx(), *var),
                ..old(self).view_ctx()
            }),
    {
        let ghost c0 = self.view_ctx();
        match var {
            Variable::Instance(n) => {
                let r = self.resolve(n);
                proof {
                    assert(self.view_ctx() =~~= c0);
                    assert(self.locals@.map_values(
                        |s: Vec<(String, VariableValue)>| s@).last()
                        == self.locals@.last()@);
                }
                r
            },
            Variable::Frame(n) => {
                let r = match lookup(&self.frame_vars, n) {
                    Some(v) => v.clone_value(),
                    None => VariableValue::Unit,
                };
                proof {
                    assert(self.view_ctx() =~~= c0);
                }
                r
            },
            Variable::Line(n) => {
                let r = match lookup(&self.line_vars, n) {
                    Some(v) => v.clone_value(),
                    None => VariableValue::Unit,
                };
                proof {
                    assert(self.view_ctx() =~~= c0);
                }
                r
            },
            Variable::Global(n) => {
                let r = match lookup(&self.globals, n) {
                    Some(v) => v.clone_value(),
                    None => VariableValue::Unit,
                };
                proof {
                    assert(self.view_ctx() =~~= c0);
                }
                r
            },
            Variable::StackBack => {
                let r = match self.stack.pop() {
                    Some(v) => v,
                    None => VariableValue::Unit,
                };
                proof {
                    assert(self.view_ctx() =~~= (CtxView {
                        stack: cv_eval_stack(c0, Variable::StackBack),
                        ..c0
                    }));
                }
                r
            },
            Variable::Value(v) => {
                let r = v.clone_value();
                proof {
                    assert(self.view_ctx() =~~= c0);
                }
                r
            },
        }
    }

    /// Write a value to a variable reference.
    pub fn set_var(&mut self, var: &Variable, v: VariableValue)
        requires
            old(self).wf(),
        ensures
            final(self).wf(),
            final(self).view_ctx() == cv_set(old(self).view_ctx(), *var, v),
    {
        let ghost c0 = self.view_ctx();
        match var {
            Variable::Instance(n) => {
                let last = self.locals.len() - 1;
                let ghost pre = self.locals@;
                let top = &mut self.locals[last];
                store(top, n, v);
                proof {
                    assert(self.locals@ =~= pre.update(
                        last as int, self.locals@[last as int]));
                    assert(c0.locals.len() == pre.len());
                    assert(c0.locals.last() == pre[last as int]@);
                    assert(self.locals@[last as int]@
                        == pre[last as int]@.insert(0, (*n, v)));
                    assert(self.view_ctx().locals =~~= cv_set(c0, *var, v).locals);
                    assert(self.view_ctx() =~~= cv_set(c0, *var, v));
                }
            },
            Variable::Frame(n) => {
                store(&mut self.frame_vars, n, v);
                proof {
                    assert(self.view_ctx() =~~= cv_set(c0, *var, v));
                }
            },
            Variable::Line(n) => {
                store(&mut self.line_vars, n, v);
                proof {
                    assert(self.view_ctx() =~~= cv_set(c0, *var, v));
                }
            },
            Variable::Global(n) => {
                store(&mut self.globals, n, v);
                proof {
                    assert(self.view_ctx() =~~= cv_set(c0, *var, v));
                }
            },
            Variable::StackBack => {
                self.stack.push(v);
                proof {
                    assert(self.view_ctx() =~~= cv_set(c0, *var, v));
                }
            },
            Variable::Value(_) => {
                proof {
                    assert(self.view_ctx() =~~= cv_set(c0, *var, v));
                }
            },
        }
    }
}

/// A copy of a variable reference.
pub fn clone_variable(v: &Variable) -> (r: Variable)
    ensures
        r == *v,
{
    match v {
        Variable::Instance(s) => Variable::Instance(s.clone()),
        Variable::Frame(s) => Variable::Frame(s.clone()),
        Variable::Line(s) => Variable::Line(s.clone()),
        Variable::Global(s) => Variable::Global(s.clone()),
        Variable::StackBack => Variable::StackBack,
        Variable::Value(x) => Variable::Value(x.clone_value()),
    }
}

/// A copy of one instruction.
pub fn clone_instruction(c: &ControlASM) -> (r: ControlASM)
    ensures
        r == *c,
{
    match c {
        ControlASM::Nop => ControlASM::Nop,
        ControlASM::Push(v) => ControlASM::Push(clone_variable(v)),
        ControlASM::Pop(v) => ControlASM::Pop(clone_variable(v)),
        ControlASM::Mov(a, b) => ControlASM::Mov(clone_variable(a), clone_variable(b)),
        ControlASM::CallFunction(s) => ControlASM::CallFunction(s.clone()),
        ControlASM::CallProcedure(i) => ControlASM::CallProcedure(*i),
        ControlASM::Return => ControlASM::Return,
        ControlASM::BinaryOp(op) => ControlASM::BinaryOp(*op),
    }
}

/// A signed value clamped into the representable range.
pub open spec fn spec_sat_i64(x: int) -> int {
    if x > i64::MAX {
        i64::MAX as int
    } else if x < i64::MIN {
        i64::MIN as int
    } else {
        x
    }
}

/// Truncating signed division (toward zero) of `a` by a nonzero `b`.
pub open spec fn spec_trunc_div(a: int, b: int) -> int {
    if a >= 0 && b > 0 {
        a / b
    } else if a < 0 && b > 0 {
        0 - ((0 - a) / b)
    } else if a >= 0 && b < 0 {
        0 - (a / (0 - b))
    } else {
        (0 - a) / (0 - b)
    }
}

/// What a binary operation produces from two operands: saturating integer
/// arithmetic on integers and fixed-point values of the same kind, ordering
/// on integers, equality on matching scalar kinds and strings, boolean
/// connectives on booleans; anything else yields no value.
pub open spec fn spec_binop(op: BinOp, a: VariableValue, b: VariableValue) -> VariableValue {
    match op {
        BinOp::Add => match (a, b) {
            (VariableValue::Int(x), VariableValue::Int(y)) =>
                VariableValue::Int(spec_sat_i64(x + y) as i64),
            (VariableValue::Fix(x), VariableValue::Fix(y)) =>
                VariableValue::Fix(spec_sat_i64(x + y) as i64),
            _ => VariableValue::Unit,
        },
        BinOp::Sub => match (a, b) {
            (VariableValue::Int(x), VariableValue::Int(y)) =>
                VariableValue::Int(spec_sat_i64(x - y) as i64),
            (VariableValue::Fix(x), VariableValue::Fix(y)) =>
                VariableValue::Fix(spec_sat_i64(x - y) as i64),
            _ => VariableValue::Unit,
        },
        BinOp::Mul => match (a, b) {
            (VariableValue::Int(x), VariableValue::Int(y)) =>
                VariableValue::Int(spec_sat_i64(x * y) as i64),
            _ => VariableValue::Unit,
        },
        BinOp::Div => match (a, b) {
            (VariableValue::Int(x), VariableValue::Int(y)) => if y == 0 {
                VariableValue::Int(0)
            } else {
                VariableValue::Int(spec_sat_i64(spec_trunc_div(x as int, y as int)) as i64)
            },
            _ => VariableValue::Unit,
        },
        BinOp::Gt => match (a, b) {
            (VariableValue::Int(x), VariableValue::Int(y)) => VariableValue::Bool(x > y),
            _ => VariableValue::Unit,
        },
        BinOp::Lt => match (a, b) {
            (VariableValue::Int(x), VariableValue::Int(y)) => VariableValue::Bool(x < y),
            _ => VariableValue::Unit,
        },
        BinOp::Eq => match (a, b) {
            (VariableValue::Int(x), VariableValue::Int(y)) => VariableValue::Bool(x == y),
            (VariableValue::Fix(x), VariableValue::Fix(y)) => VariableValue::Bool(x == y),
            (VariableValue::Bool(x), VariableValue::Bool(y)) => VariableValue::Bool(x == y),
            (VariableValue::Str(x), VariableValue::Str(y)) => VariableValue::Bool(x@ == y@),
            (VariableValue::Unit, VariableValue::Unit) => VariableValue::Bool(true),
            _ => VariableValue::Bool(false),
        },
        BinOp::And => match (a, b) {
            (VariableValue::Bool(x), VariableValue::Bool(y)) => VariableValue::Bool(x && y),
            _ => VariableValue::Unit,
        },
        BinOp::Or => match (a, b) {
            (VariableValue::Bool(x), VariableValue::Bool(y)) => VariableValue::Bool(x || y),
            _ => VariableValue::Unit,
        },
    }
}

/// Saturating addition.
fn sat_add(x: i64, y: i64) -> (r: i64)
    ensures
        r as int == spec_sat_i64(x + y),
{
    match x.checked_add(y) {
        Some(v) => v,
        None => if y >= 0 {
            i64::MAX
        } else {
            i64::MIN
        },
    }
}

/// Saturating subtraction.
fn sat_sub(x: i64, y: i64) -> (r: i64)
    ensures
        r as int == spec_sat_i64(x - y),
{
    match x.checked_sub(y) {
        Some(v) => v,
        None => if y <= 0 {
            i64::MAX
        } else {
            i64::MIN
        },
    }
}

/// Saturating multiplication.
fn sat_mul(x: i64, y: i64) -> (r: i64)
    ensures
        r as int == spec_sat_i64(x * y),
{
    match x.checked_mul(y) {
        Some(v) => v,
        None => {
            proof {
                assert(x != 0 && y != 0);
                if x > 0 && y > 0 {
                    assert(x * y > 0) by (nonlinear_arith)
                        requires x > 0, y > 0;
                } else if x < 0 && y < 0 {
                    assert(x * y > 0) by (nonlinear_arith)
                        requires x < 0, y < 0;
                } else if x > 0 && y < 0 {
                    assert(x * y < 0) by (nonlinear_arith)
                        requires x > 0, y < 0;
                } else {
                    assert(x * y < 0) by (nonlinear_arith)
                        requires x < 0, y > 0;
                }
            }
            if (x > 0) == (y > 0) {
                i64::MAX
            } else {
                i64::MIN
            }
        },
    }
}

/// The magnitude of a signed value.
fn magnitude(x: i64) -> (r: u64)
    ensures
        r as int == (if x >= 0 { x as int } else { 0 - x }),
{
    if x >= 0 {
        x as u64
    } else if x == i64::MIN {
        9_223_372_036_854_775_808
    } else {
        (-x) as u64
    }
}

/// Saturating truncating division by a nonzero divisor.
fn sat_div(x: i64, y: i64) -> (r: i64)
    requires
        y != 0,
    ensures
        r as int == spec_sat_i64(spec_trunc_div(x as int, y as int)),
{
    let mx = magnitude(x);
    let my = magnitude(y);
    let q = mx / my;
    let negative = (x < 0) != (y < 0);
    proof {
        vstd::arithmetic::div_mod::lemma_div_is_ordered(0, mx as int, my as int);
        vstd::arithmetic::div_mod::lemma_div_is_ordered_by_denominator(mx as int, 1, my as int);
    }
    if negative {
        if q >= 9_223_372_036_854_775_808 {
            i64::MIN
        } else {
            -(q as i64)
        }
    } else {
        if q > i64::MAX as u64 {
            i64::MAX
        } else {
            q as i64
        }
    }
}

/// Apply a binary operation.
pub fn binop(op: BinOp, a: &VariableValue, b: &VariableValue) -> (r: VariableValue)
    ensures
        r == spec_binop(op, *a, *b),
{
    match op {
        BinOp::Add => match (a, b) {
            (VariableValue::Int(x), VariableValue::Int(y)) => VariableValue::Int(sat_add(*x, *y)),
            (VariableValue::Fix(x), VariableValue::Fix(y)) => VariableValue::Fix(sat_add(*x, *y)),
            _ => VariableValue::Unit,
        },
        BinOp::Sub => match (a, b) {
            (VariableValue::Int(x), VariableValue::Int(y)) => VariableValue::Int(sat_sub(*x, *y)),
            (VariableValue::Fix(x), VariableValue::Fix(y)) => VariableValue::Fix(sat_sub(*x, *y)),
            _ => VariableValue::Unit,
        },
        BinOp::Mul => match (a, b) {
            (VariableValue::Int(x), VariableValue::Int(y)) => VariableValue::Int(sat_mul(*x, *y)),
            _ => VariableValue::Unit,
        },
        BinOp::Div => match (a, b) {
            (VariableValue::Int(x), VariableValue::Int(y)) => if *y == 0 {
                VariableValue::Int(0)
            } else {
                VariableValue::Int(sat_div(*x, *y))
            },
            _ => VariableValue::Unit,
        },
        BinOp::Gt => match (a, b) {
            (VariableValue::Int(x), VariableValue::Int(y)) => VariableValue::Bool(*x > *y),
            _ => VariableValue::Unit,
        },
        BinOp::Lt => match (a, b) {
            (VariableValue::Int(x), VariableValue::Int(y)) => VariableValue::Bool(*x < *y),
            _ => VariableValue::Unit,
        },
        BinOp::Eq => match (a, b) {
            (VariableValue::Int(x), VariableValue::Int(y)) => VariableValue::Bool(*x == *y),
            (VariableValue::Fix(x), VariableValue::Fix(y)) => VariableValue::Bool(*x == *y),
            (VariableValue::Bool(x), VariableValue::Bool(y)) => VariableValue::Bool(*x == *y),
            (VariableValue::Str(x), VariableValue::Str(y)) => VariableValue::Bool(x.eq(y)),
            (VariableValue::Unit, VariableValue::Unit) => VariableValue::Bool(true),
            _ => VariableValue::Bool(false),
        },
        BinOp::And => match (a, b) {
            (VariableValue::Bool(x), VariableValue::Bool(y)) => VariableValue::Bool(*x && *y),
            _ => VariableValue::Unit,
        },
        BinOp::Or => match (a, b) {
            (VariableValue::Bool(x), VariableValue::Bool(y)) => VariableValue::Bool(*x || *y),
            _ => VariableValue::Unit,
        },
    }
}

/// Relies on `rand::random_range`: a uniform value within the given
/// half-open range; it panics on an empty range, which the precondition
/// rules out.
#[verifier::external_body]
pub(crate) fn random_range_u64(lo: u64, hi: u64) -> (r: u64)
    requires
        lo < hi,
    ensures
        lo <= r < hi,
{
    rand::random_range(lo..hi)
}

/// Relies on `rand::random`: an arbitrary byte.
#[verifier::external_body]
pub(crate) fn random_u8() -> (r: u8) {
    rand::random::<u8>()
}

/// Relies on `rand::random`: an arbitrary integer.
#[verifier::external_body]
pub(crate) fn random_i64() -> (r: i64) {
    rand::random::<i64>()
}

/// The built-in environment functions that yield values.
pub enum EnvironmentFunc {
    /// The tempo snapshot, in microseconds per beat.
    GetTempo,
    /// An arbitrary byte.
    RandomU8,
    /// An arbitrary integer.
    RandomInt,
    /// A fixed-point value drawn from the unit interval.
    RandomFix,
    /// The current frame's length, in microbeats.
    FrameLen,
}

/// The environment function a name denotes, when any.
pub open spec fn spec_env_func(name: Seq<char>) -> Option<EnvironmentFunc> {
    if name == "tempo"@ {
        Some(EnvironmentFunc::GetTempo)
    } else if name == "rand_u8"@ {
        Some(EnvironmentFunc::RandomU8)
    } else if name == "rand_int"@ {
        Some(EnvironmentFunc::RandomInt)
    } else if name == "rand_fix"@ {
        Some(EnvironmentFunc::RandomFix)
    } else if name == "frame_len"@ {
        Some(EnvironmentFunc::FrameLen)
    } else {
        None
    }
}

impl EnvironmentFunc {
    /// Resolve a function name.
    pub fn from_name(name: &String) -> (r: Option<EnvironmentFunc>)
        ensures
            r == spec_env_func(name@),
    {
        if name.eq(&String::from_str("tempo")) {
            Some(EnvironmentFunc::GetTempo)
        } else if name.eq(&String::from_str("rand_u8")) {
            Some(EnvironmentFunc::RandomU8)
        } else if name.eq(&String::from_str("rand_int")) {
            Some(EnvironmentFunc::RandomInt)
        } else if name.eq(&String::from_str("rand_fix")) {
            Some(EnvironmentFunc::RandomFix)
        } else if name.eq(&String::from_str("frame_len")) {
            Some(EnvironmentFunc::FrameLen)
        } else {
            None
        }
    }

    /// Compute the function's value against the context. Clock-derived
    /// functions return the snapshot exactly; random functions return a
    /// value within their documented range, whatever the draw.
    pub fn execute(&self, ctx: &EvaluationContext) -> (r: VariableValue)
        requires
            ctx.tempo <= i64::MAX,
            ctx.frame_len <= i64::MAX,
        ensures
            match *self {
                EnvironmentFunc::GetTempo => r == VariableValue::Int(ctx.tempo as i64),
                EnvironmentFunc::FrameLen => r == VariableValue::Int(ctx.frame_len as i64),
                EnvironmentFunc::RandomU8 => (r matches VariableValue::Int(x) && 0 <= x < 256),
                EnvironmentFunc::RandomInt => r is Int,
                EnvironmentFunc::RandomFix =>
                    (r matches VariableValue::Fix(x) && 0 <= x < 1_000_000),
            },
    {
        match self {
            EnvironmentFunc::GetTempo => VariableValue::Int(ctx.tempo as i64),
            EnvironmentFunc::FrameLen => VariableValue::Int(ctx.frame_len as i64),
            EnvironmentFunc::RandomU8 => VariableValue::Int(random_u8() as i64),
            EnvironmentFunc::RandomInt => VariableValue::Int(random_i64()),
            EnvironmentFunc::RandomFix => VariableValue::Fix(
                random_range_u64(0, 1_000_000) as i64,
            ),
        }
    }
}

/// The note event read from the top five stack values: note, velocity,
/// channel, duration and target device, the note on top.
pub open spec fn spec_note_event(s: Seq<VariableValue>) -> ConcreteEvent {
    ConcreteEvent::MidiNote {
        note: s[s.len() - 1].spec_as_u64() as u64,
        velocity: s[s.len() - 2].spec_as_u64() as u64,
        channel: s[s.len() - 3].spec_as_u64() as u64,
        duration: s[s.len() - 4].spec_as_u64() as u64,
        device_id: spec_device_of(s[s.len() - 5]),
    }
}

/// A device identifier read from a value, clamped into address range.
pub open spec fn spec_device_of(v: VariableValue) -> usize {
    if v.spec_as_u64() > usize::MAX {
        usize::MAX
    } else {
        v.spec_as_u64() as usize
    }
}

/// Read a device identifier from a value.
pub fn device_of(v: &VariableValue) -> (r: usize)
    ensures
        r == spec_device_of(*v),
{
    let d = v.as_u64();
    if d > usize::MAX as u64 {
        usize::MAX
    } else {
        d as usize
    }
}

/// The stack-machine interpreter state: the compiled program, the program
/// counter, the return addresses of live procedure calls, and the
/// termination flag.
pub struct StackVM {
    /// The compiled program.
    pub program: Vec<ControlASM>,
    /// The next instruction to execute.
    pub pc: usize,
    /// Return addresses of live procedure calls.
    pub ret_stack: Vec<usize>,
    /// Set when the program has ended or was stopped.
    pub terminated: bool,
}

impl StackVM {
    /// A fresh machine at the start of a program.
    pub fn new(program: Vec<ControlASM>) -> (vm: StackVM)
        ensures
            vm.program == program,
            vm.pc == 0,
            vm.ret_stack@.len() == 0,
            !vm.terminated,
    {
        StackVM { program, pc: 0, ret_stack: Vec::new(), terminated: false }
    }

    /// Whether the machine has ended.
    pub fn has_terminated(&self) -> (r: bool)
        ensures
            r == self.terminated,
    {
        self.terminated
    }

    /// Stop the machine; nothing else changes.
    pub fn stop(&mut self)
        ensures
            *final(self) == (StackVM { terminated: true, ..*old(self) }),
    {
        self.terminated = true;
    }

    /// Execute one instruction. Returns an emitted event and a requested
    /// delay, when the instruction produced them. A machine whose program
    /// counter has passed the end of the program, or that hits a runtime
    /// fault (an exhausted stack, a procedure target outside the program),
    /// terminates and emits nothing; the scheduler drops it at the next
    /// pump.
    pub fn execute_next(&mut self, ctx: &mut EvaluationContext)
        -> (r: (Option<ConcreteEvent>, Option<SyncTime>))
        requires
            old(ctx).wf(),
            old(ctx).tempo <= i64::MAX,
            old(ctx).frame_len <= i64::MAX,
        ensures
            final(ctx).wf(),
            final(self).program == old(self).program,
            final(ctx).tempo == old(ctx).tempo,
            final(ctx).frame_len == old(ctx).frame_len,
            (old(self).terminated || old(self).pc >= old(self).program@.len()) ==> {
                &&& final(self).terminated
                &&& final(self).pc == old(self).pc
                &&& final(ctx).view_ctx() == old(ctx).view_ctx()
                &&& r == (None::<ConcreteEvent>, None::<SyncTime>)
            },
            (!old(self).terminated && old(self).pc < old(self).program@.len()) ==> {
                let c0 = old(ctx).view_ctx();
                let pc = old(self).pc as int;
                match old(self).program@[pc] {
                    ControlASM::Nop => final(self).pc == pc + 1
                        && !final(self).terminated
                        && final(self).ret_stack == old(self).ret_stack
                        && final(ctx).view_ctx() == c0
                        && r == (None::<ConcreteEvent>, None::<SyncTime>),
                    ControlASM::Push(var) => final(self).pc == pc + 1
                        && !final(self).terminated
                        && final(self).ret_stack == old(self).ret_stack
                        && final(ctx).view_ctx() == (CtxView {
                            stack: cv_eval_stack(c0, var).push(cv_eval(c0, var)),
                            ..c0
                        })
                        && r == (None::<ConcreteEvent>, None::<SyncTime>),
                    ControlASM::Pop(var) => final(self).pc == pc + 1
                        && !final(self).terminated
                        && final(self).ret_stack == old(self).ret_stack
                        && final(ctx).view_ctx() == cv_set(
                            (CtxView { stack: cv_eval_stack(c0, Variable::StackBack), ..c0 }),
                            var,
                            cv_eval(c0, Variable::StackBack),
                        )
                        && r == (None::<ConcreteEvent>, None::<SyncTime>),
                    ControlASM::Mov(src, dst) => final(self).pc == pc + 1
                        && !final(self).terminated
                        && final(self).ret_stack == old(self).ret_stack
                        && final(ctx).view_ctx() == cv_set(
                            (CtxView { stack: cv_eval_stack(c0, src), ..c0 }),
                            dst,
                            cv_eval(c0, src),
                        )
                        && r == (None::<ConcreteEvent>, None::<SyncTime>),
                    ControlASM::CallProcedure(t) => if t < old(self).program@.len() {
                        final(self).pc == t
                            && !final(self).terminated
                            && final(self).ret_stack@ == old(self).ret_stack@.push(
                                (pc + 1) as usize)
                            && final(ctx).view_ctx() == (CtxView {
                                locals: c0.locals.push(Seq::empty()),
                                ..c0
                            })
                            && r == (None::<ConcreteEvent>, None::<SyncTime>)
                    } else {
                        final(self).terminated
                            && final(ctx).view_ctx() == c0
                            && r == (None::<ConcreteEvent>, None::<SyncTime>)
                    },
                    ControlASM::Return => if old(self).ret_stack@.len() > 0 {
                        final(self).pc == old(self).ret_stack@.last()
                            && !final(self).terminated
                            && final(self).ret_stack@ == old(self).ret_stack@.drop_last()
                            && final(ctx).view_ctx() == (CtxView {
                                locals: if c0.locals.len() > 1 {
                                    c0.locals.drop_last()
                                } else {
                                    c0.locals
                                },
                                ..c0
                            })
                            && r == (None::<ConcreteEvent>, None::<SyncTime>)
                    } else {
                        final(self).terminated
                            && final(ctx).view_ctx() == c0
                            && r == (None::<ConcreteEvent>, None::<SyncTime>)
                    },
                    ControlASM::BinaryOp(op) => if c0.stack.len() >= 2 {
                        final(self).pc == pc + 1
                            && !final(self).terminated
                            && final(self).ret_stack == old(self).ret_stack
                            && final(ctx).view_ctx() == (CtxView {
                                stack: c0.stack.drop_last().drop_last().push(spec_binop(
                                    op,
                                    c0.stack[c0.stack.len() - 2],
                                    c0.stack.last(),
                                )),
                                ..c0
                            })
                            && r == (None::<ConcreteEvent>, None::<SyncTime>)
                    } else {
                        final(self).terminated
                            && final(ctx).view_ctx() == c0
                            && r == (None::<ConcreteEvent>, None::<SyncTime>)
                    },
                    ControlASM::CallFunction(name) => if name@ == "note"@ {
                        if c0.stack.len() >= 5 {
                            final(self).pc == pc + 1
                                && !final(self).terminated
                                && final(ctx).view_ctx() == (CtxView {
                                    stack: c0.stack.subrange(0, c0.stack.len() - 5),
                                    ..c0
                                })
                                && r == (Some(spec_note_event(c0.stack)), None::<SyncTime>)
                        } else {
                            final(self).terminated
                                && final(ctx).view_ctx() == c0
                                && r == (None::<ConcreteEvent>, None::<SyncTime>)
                        }
                    } else if name@ == "sleep"@ {
                        if c0.stack.len() >= 1 {
                            final(self).pc == pc + 1
                                && !final(self).terminated
                                && final(ctx).view_ctx() == (CtxView {
                                    stack: c0.stack.drop_last(),
                                    ..c0
                                })
                                && r == (
                                    None::<ConcreteEvent>,
                                    Some((c0.stack.last().spec_as_u64()) as u64),
                                )
                        } else {
                            final(self).terminated
                                && final(ctx).view_ctx() == c0
                                && r == (None::<ConcreteEvent>, None::<SyncTime>)
                        }
                    } else {
                        match spec_env_func(name@) {
                            Some(f) => final(self).pc == pc + 1
                                && !final(self).terminated
                                && final(ctx).view_ctx().stack.len() == c0.stack.len() + 1
                                && final(ctx).view_ctx().stack.drop_last() == c0.stack
                                && (CtxView {
                                    stack: c0.stack,
                                    ..final(ctx).view_ctx()
                                }) == c0
                                && (match f {
                                    EnvironmentFunc::GetTempo => final(ctx).view_ctx().stack.last()
                                        == VariableValue::Int(c0.tempo as i64),
                                    EnvironmentFunc::FrameLen => final(ctx).view_ctx().stack.last()
                                        == VariableValue::Int(c0.frame_len as i64),
                                    EnvironmentFunc::RandomU8 =>
                                        (final(ctx).view_ctx().stack.last()
                                            matches VariableValue::Int(x) && 0 <= x < 256),
                                    EnvironmentFunc::RandomInt =>
                                        final(ctx).view_ctx().stack.last() is Int,
                                    EnvironmentFunc::RandomFix =>
                                        (final(ctx).view_ctx().stack.last()
                                            matches VariableValue::Fix(x)
                                            && 0 <= x < 1_000_000),
                                })
                                && r == (None::<ConcreteEvent>, None::<SyncTime>),
                            None => final(self).pc == pc + 1
                                && !final(self).terminated
                                && final(ctx).view_ctx() == (CtxView {
                                    stack: c0.stack.push(VariableValue::Unit),
                                    ..c0
                                })
                                && r == (None::<ConcreteEvent>, None::<SyncTime>),
                        }
                    },
                }
            },
    {
        let ghost c0 = ctx.view_ctx();
        if self.terminated || self.pc >= self.program.len() {
            self.terminated = true;
            return (None, None);
        }
        let inst = clone_instruction(&self.program[self.pc]);
        match inst {
            ControlASM::Nop => {
                self.pc = self.pc + 1;
                (None, None)
            },
            ControlASM::Push(var) => {
                let v = ctx.evaluate(&var);
                ctx.stack.push(v);
                self.pc = self.pc + 1;
                proof {
                    assert(ctx.view_ctx() =~~= (CtxView {
                        stack: cv_eval_stack(c0, var).push(cv_eval(c0, var)),
                        ..c0
                    }));
                }
                (None, None)
            },
            ControlASM::Pop(var) => {
                let v = ctx.evaluate(&Variable::StackBack);
                ctx.set_var(&var, v);
                self.pc = self.pc + 1;
                (None, None)
            },
            ControlASM::Mov(src, dst) => {
                let v = ctx.evaluate(&src);
                ctx.set_var(&dst, v);
                self.pc = self.pc + 1;
                (None, None)
            },
            ControlASM::CallProcedure(t) => {
                if t < self.program.len() {
                    self.ret_stack.push(self.pc + 1);
                    self.pc = t;
                    let ghost pre = ctx.locals@;
                    ctx.locals.push(Vec::new());
                    proof {
                        let lv = ctx.locals@.map_values(
                            |sc: Vec<(String, VariableValue)>| sc@);
                        let target = c0.locals.push(Seq::empty());
                        assert(lv.len() == target.len());
                        assert forall|i: int| 0 <= i < lv.len()
                            implies lv[i] == target[i]
                        by {
                            if i < pre.len() {
                                assert(ctx.locals@[i] == pre[i]);
                                assert(lv[i] == pre[i]@);
                                assert(target[i] == c0.locals[i]);
                            } else {
                                assert(ctx.locals@[i]@
                                    =~= Seq::<(String, VariableValue)>::empty());
                                assert(lv[i] =~= target[i]);
                            }
                        }
                        assert(lv =~= target);
                        assert(ctx.view_ctx() =~~= (CtxView {
                            locals: c0.locals.push(Seq::empty()),
                            ..c0
                        }));
                    }
                    (None, None)
                } else {
                    self.terminated = true;
                    (None, None)
                }
            },
            ControlASM::Return => {
                match self.ret_stack.pop() {
                    Some(back) => {
                        self.pc = back;
                        if ctx.locals.len() > 1 {
                            let ghost pre = ctx.locals@;
                            let _ = ctx.locals.pop();
                            proof {
                                assert(ctx.locals@.len() >= 1);
                                assert(ctx.locals@ =~= pre.drop_last());
                                let lv = ctx.locals@.map_values(
                                    |sc: Vec<(String, VariableValue)>| sc@);
                                let target = c0.locals.drop_last();
                                assert(lv.len() == target.len());
                                assert forall|i: int| 0 <= i < lv.len()
                                    implies lv[i] == target[i]
                                by {
                                    assert(ctx.locals@[i] == pre[i]);
                                    assert(lv[i] == pre[i]@);
                                    assert(target[i] == c0.locals[i]);
                                }
                                assert(lv =~= target);
                                assert(ctx.view_ctx() =~~= (CtxView {
                                    locals: c0.locals.drop_last(),
                                    ..c0
                                }));
                            }
                        } else {
                            proof {
                                assert(ctx.view_ctx() =~~= c0);
                            }
                        }
                        (None, None)
                    },
                    None => {
                        self.terminated = true;
                        (None, None)
                    },
                }
            },
            ControlASM::BinaryOp(op) => {
                if ctx.stack.len() >= 2 {
                    let b = match ctx.stack.pop() {
                        Some(v) => v,
                        None => VariableValue::Unit,
                    };
                    let a = match ctx.stack.pop() {
                        Some(v) => v,
                        None => VariableValue::Unit,
                    };
                    let v = binop(op, &a, &b);
                    ctx.stack.push(v);
                    self.pc = self.pc + 1;
                    proof {
                        assert(ctx.view_ctx() =~~= (CtxView {
                            stack: c0.stack.drop_last().drop_last().push(spec_binop(
                                op,
                                c0.stack[c0.stack.len() - 2],
                                c0.stack.last(),
                            )),
                            ..c0
                        }));
                    }
                    (None, None)
                } else {
                    self.terminated = true;
                    (None, None)
                }
            },
            ControlASM::CallFunction(name) => {
                if name.eq(&String::from_str("note")) {
                    if ctx.stack.len() >= 5 {
                        let note = match ctx.stack.pop() {
                            Some(v) => v,
                            None => VariableValue::Unit,
                        };
                        let velocity = match ctx.stack.pop() {
                            Some(v) => v,
                            None => VariableValue::Unit,
                        };
                        let channel = match ctx.stack.pop() {
                            Some(v) => v,
                            None => VariableValue::Unit,
                        };
                        let duration = match ctx.stack.pop() {
                            Some(v) => v,
                            None => VariableValue::Unit,
                        };
                        let device = match ctx.stack.pop() {
                            Some(v) => v,
                            None => VariableValue::Unit,
                        };
                        let ev = ConcreteEvent::MidiNote {
                            note: note.as_u64(),
                            velocity: velocity.as_u64(),
                            channel: channel.as_u64(),
                            duration: duration.as_u64(),
                            device_id: device_of(&device),
                        };
                        self.pc = self.pc + 1;
                        proof {
                            assert(ctx.stack@ =~= c0.stack.subrange(0, c0.stack.len() - 5)) by {
                                assert(ctx.stack@ =~= c0.stack.drop_last().drop_last()
                                    .drop_last().drop_last().drop_last());
                            }
                            assert(ctx.view_ctx() =~~= (CtxView {
                                stack: c0.stack.subrange(0, c0.stack.len() - 5),
                                ..c0
                            }));
                            assert(ev == spec_note_event(c0.stack));
                        }
                        (Some(ev), None)
                    } else {
                        self.terminated = true;
                        (None, None)
                    }
                } else if name.eq(&String::from_str("sleep")) {
                    if ctx.stack.len() >= 1 {
                        let d = match ctx.stack.pop() {
                            Some(v) => v,
                            None => VariableValue::Unit,
                        };
                        self.pc = self.pc + 1;
                        proof {
                            assert(ctx.view_ctx() =~~= (CtxView {
                                stack: c0.stack.drop_last(),
                                ..c0
                            }));
                        }
                        (None, Some(d.as_u64()))
                    } else {
                        self.terminated = true;
                        (None, None)
                    }
                } else {
                    match EnvironmentFunc::from_name(&name) {
                        Some(f) => {
                            let v = f.execute(ctx);
                            ctx.stack.push(v);
                            self.pc = self.pc + 1;
                            proof {
                                assert(ctx.view_ctx().stack =~= c0.stack.push(v));
                                assert((CtxView {
                                    stack: c0.stack,
                                    ..ctx.view_ctx()
                                }) =~~= c0);
                            }
                            (None, None)
                        },
                        None => {
                            ctx.stack.push(VariableValue::Unit);
                            self.pc = self.pc + 1;
                            proof {
                                assert(ctx.view_ctx() =~~= (CtxView {
                                    stack: c0.stack.push(VariableValue::Unit),
                                    ..c0
                                }));
                            }
                            (None, None)
                        },
                    }
                }
            },
        }
    }
}

} // verus!
