//! The expression-language compiler: it lowers a parsed script tree to
//! machine instructions for the stack machine. Parsing the language's text
//! is outside the engine's core contract (a compiler's only contract is
//! text and arguments to bytecode); what lives here is the lowering of the
//! tree, the function table, and the link step that resolves calls.

use vstd::prelude::*;
use crate::ErrorKind;
use crate::vm::{ControlASM, Program, Variable, VariableValue};

verus! {

/// Which scope a property access names.
#[derive(Clone, Copy, PartialEq, Eq, Structural, Debug)]
pub enum ScopeName {
    /// The process-wide scope.
    Global,
    /// The current line's scope.
    Line,
    /// The current frame's scope.
    Frame,
}

/// One expression of the parsed script tree.
pub enum ScriptExpr {
    /// The unit constant.
    Unit,
    /// A boolean constant.
    BoolConst(bool),
    /// An integer constant.
    IntConst(i64),
    /// A fixed-point constant, in millionths.
    FixConst(i64),
    /// A string constant.
    StrConst(String),
    /// A variable of the innermost scope.
    Variable(String),
    /// A property of a named scope.
    ScopedVar(ScopeName, String),
    /// A function call with its arguments.
    FnCall(String, Vec<ScriptExpr>),
}

/// One statement of the parsed script tree.
pub enum ScriptStmt {
    /// No effect.
    Noop,
    /// Bind a variable to an expression's value.
    Var(String, ScriptExpr),
    /// Call a function for its effect.
    FnCall(String, Vec<ScriptExpr>),
    /// Leave the enclosing function, optionally with a value.
    Return(Option<ScriptExpr>),
}

/// A function definition of the script tree.
pub struct ScriptFnDef {
    /// The function's name.
    pub name: String,
    /// Its parameter names, in order.
    pub params: Vec<String>,
    /// Its body.
    pub body: Vec<ScriptStmt>,
}

/// A parsed script: its function definitions and its top-level statements.
pub struct ScriptAst {
    /// The function definitions.
    pub functions: Vec<ScriptFnDef>,
    /// The top-level statements.
    pub statements: Vec<ScriptStmt>,
}

/// Whether the function table binds a name.
pub open spec fn spec_name_known(defs: Seq<(String, usize)>, name: Seq<char>) -> bool {
    exists|d: int| 0 <= d < defs.len() && (#[trigger] defs[d]).0@ == name
}

/// The compiler from script trees to machine programs.
pub struct RhaiCompiler;

impl RhaiCompiler {
    /// Lower a function call: the arguments are pushed in reverse order, so
    /// the first argument ends on top, then the call instruction follows.
    pub fn write_fn_call(compiled: &mut Program, name: &String, args: &Vec<ScriptExpr>)
        ensures
            final(compiled)@.len() > old(compiled)@.len(),
            forall|j: int| 0 <= j < old(compiled)@.len()
                ==> (#[trigger] final(compiled)@[j]) == old(compiled)@[j],
            (final(compiled)@.last() matches ControlASM::CallFunction(n) && n@ == name@),
        decreases args@.len(), 1int, 0int,
    {
        let mut i = args.len();
        while i > 0
            invariant
                i <= args@.len(),
                compiled@.len() >= old(compiled)@.len(),
                forall|j: int| 0 <= j < old(compiled)@.len()
                    ==> (#[trigger] compiled@[j]) == old(compiled)@[j],
            decreases i,
        {
            i = i - 1;
            let _ = Self::push_expr(compiled, &args[i], true);
        }
        compiled.push(ControlASM::CallFunction(name.clone()));
    }

    /// Lower one expression. A constant is returned as a literal reference
    /// unless a push is forced; a variable or a call leaves its value on
    /// the stack and returns nothing.
    pub fn push_expr(compiled: &mut Program, expr: &ScriptExpr, force_push: bool)
        -> (r: Option<Variable>)
        ensures
            final(compiled)@.len() >= old(compiled)@.len(),
            forall|j: int| 0 <= j < old(compiled)@.len()
                ==> (#[trigger] final(compiled)@[j]) == old(compiled)@[j],
        decreases expr, 0int, 0int,
    {
        let lit: Option<VariableValue> = match expr {
            ScriptExpr::Unit => Some(VariableValue::Unit),
            ScriptExpr::BoolConst(b) => Some(VariableValue::Bool(*b)),
            ScriptExpr::IntConst(x) => Some(VariableValue::Int(*x)),
            ScriptExpr::FixConst(x) => Some(VariableValue::Fix(*x)),
            ScriptExpr::StrConst(st) => Some(VariableValue::Str(st.clone())),
            _ => None,
        };
        match lit {
            Some(v) => {
                if force_push {
                    compiled.push(ControlASM::Push(Variable::Value(v)));
                    None
                } else {
                    Some(Variable::Value(v))
                }
            },
            None => {
                match expr {
                    ScriptExpr::Variable(n) => {
                        compiled.push(ControlASM::Push(Variable::Instance(n.clone())));
                        None
                    },
                    ScriptExpr::ScopedVar(scope, n) => {
                        let var = match scope {
                            ScopeName::Global => Variable::Global(n.clone()),
                            ScopeName::Line => Variable::Line(n.clone()),
                            ScopeName::Frame => Variable::Frame(n.clone()),
                        };
                        compiled.push(ControlASM::Push(var));
                        None
                    },
                    ScriptExpr::FnCall(name, args) => {
                        Self::write_call_of(compiled, name, args);
                        None
                    },
                    _ => None,
                }
            },
        }
    }

    /// Lower a call expression's arguments and call.
    fn write_call_of(compiled: &mut Program, name: &String, args: &Vec<ScriptExpr>)
        ensures
            final(compiled)@.len() >= old(compiled)@.len(),
            forall|j: int| 0 <= j < old(compiled)@.len()
                ==> (#[trigger] final(compiled)@[j]) == old(compiled)@[j],
        decreases args, 1int, 1int,
    {
        let mut i = args.len();
        while i > 0
            invariant
                i <= args@.len(),
                compiled@.len() >= old(compiled)@.len(),
                forall|j: int| 0 <= j < old(compiled)@.len()
                    ==> (#[trigger] compiled@[j]) == old(compiled)@[j],
            decreases i,
        {
            i = i - 1;
            let _ = Self::push_expr(compiled, &args[i], true);
        }
        compiled.push(ControlASM::CallFunction(name.clone()));
    }

    /// Lower a statement list into the program.
    pub fn write_stmt_block(compiled: &mut Program, block: &Vec<ScriptStmt>)
        ensures
            final(compiled)@.len() >= old(compiled)@.len(),
            forall|j: int| 0 <= j < old(compiled)@.len()
                ==> (#[trigger] final(compiled)@[j]) == old(compiled)@[j],
    {
        let n = block.len();
        let mut i: usize = 0;
        while i < n
            invariant
                i <= n,
                n == block@.len(),
                compiled@.len() >= old(compiled)@.len(),
                forall|j: int| 0 <= j < old(compiled)@.len()
                    ==> (#[trigger] compiled@[j]) == old(compiled)@[j],
            decreases n - i,
        {
            match &block[i] {
                ScriptStmt::Noop => {
                    compiled.push(ControlASM::Nop);
                },
                ScriptStmt::Var(name, e) => {
                    match Self::push_expr(compiled, e, false) {
                        None => {
                            compiled.push(ControlASM::Pop(Variable::Instance(name.clone())));
                        },
                        Some(src) => {
                            compiled.push(ControlASM::Mov(
                                src, Variable::Instance(name.clone())));
                        },
                    }
                },
                ScriptStmt::FnCall(name, args) => {
                    Self::write_fn_call(compiled, name, args);
                },
                ScriptStmt::Return(e) => {
                    match e {
                        Some(e) => {
                            let _ = Self::push_expr(compiled, e, true);
                        },
                        None => {},
                    }
                    compiled.push(ControlASM::Return);
                },
            }
            i = i + 1;
        }
    }

    /// Resolve every recorded call site against the function table: each
    /// `(site, name)` pair is rewritten to a procedure call at the named
    /// function's entry. An unknown name is a link error.
    pub fn link_calls(compiled: &mut Program, calls: &Vec<(usize, String)>,
        defs: &Vec<(String, usize)>) -> (r: Result<(), ErrorKind>)
        ensures
            final(compiled)@.len() == old(compiled)@.len(),
            match r {
                Ok(()) => (forall|k: int| 0 <= k < calls@.len()
                        ==> spec_name_known(defs@, (#[trigger] calls@[k]).1@))
                    && (forall|k: int| 0 <= k < calls@.len()
                        && (#[trigger] calls@[k]).0 < old(compiled)@.len()
                        ==> final(compiled)@[calls@[k].0 as int] is CallProcedure),
                Err(e) => e == ErrorKind::CompileError,
            },
    {
        let n = calls.len();
        let mut k: usize = 0;
        while k < n
            invariant
                k <= n,
                n == calls@.len(),
                compiled@.len() == old(compiled)@.len(),
                forall|j: int| 0 <= j < k
                    ==> spec_name_known(defs@, (#[trigger] calls@[j]).1@),
                forall|j: int| 0 <= j < k && (#[trigger] calls@[j]).0 < old(compiled)@.len()
                    ==> compiled@[calls@[j].0 as int] is CallProcedure,
            decreases n - k,
        {
            let site = calls[k].0;
            let mut found: Option<usize> = None;
            let m = defs.len();
            let mut d: usize = 0;
            while d < m
                invariant
                    d <= m,
                    m == defs@.len(),
                    k < n,
                    n == calls@.len(),
                    match found {
                        Some(t) => exists|w: int| 0 <= w < defs@.len()
                            && (#[trigger] defs@[w]).0@ == calls@[k as int].1@
                            && defs@[w].1 == t,
                        None => true,
                    },
                decreases m - d,
            {
                if defs[d].0.eq(&calls[k].1) {
                    found = Some(defs[d].1);
                }
                d = d + 1;
            }
            proof {
                if found is Some {
                    let w = choose|w: int| 0 <= w < defs@.len()
                        && (#[trigger] defs@[w]).0@ == calls@[k as int].1@
                        && defs@[w].1 == found->0;
                    assert(defs@[w].0@ == calls@[k as int].1@);
                    assert(spec_name_known(defs@, calls@[k as int].1@));
                }
            }
            match found {
                None => {
                    return Err(ErrorKind::CompileError);
                },
                Some(target) => {
                    if site < compiled.len() {
                        let ghost pre = compiled@;
                        compiled.set(site, ControlASM::CallProcedure(target));
                        proof {
                            assert(compiled@ =~= pre.update(
                                site as int, ControlASM::CallProcedure(target)));
                            assert forall|j: int| 0 <= j < k + 1
                                && (#[trigger] calls@[j]).0 < old(compiled)@.len()
                                implies compiled@[calls@[j].0 as int] is CallProcedure
                            by {
                                if j < k && calls@[j].0 != site {
                                    assert(compiled@[calls@[j].0 as int]
                                        == pre[calls@[j].0 as int]);
                                }
                            }
                        }
                    }
                },
            }
            k = k + 1;
        }
        Ok(())
    }

    /// Lower every function definition and record the table of entries: the
    /// compiled body of each function is appended behind a guard return, and
    /// the table maps its name to its first instruction.
    pub fn compile_functions(compiled: &mut Program, ast: &ScriptAst)
        -> (r: Vec<(String, usize)>)
        ensures
            final(compiled)@.len() >= old(compiled)@.len(),
            forall|j: int| 0 <= j < old(compiled)@.len()
                ==> (#[trigger] final(compiled)@[j]) == old(compiled)@[j],
    {
        let mut table: Vec<(String, usize)> = Vec::new();
        let n = ast.functions.len();
        let mut i: usize = 0;
        while i < n
            invariant
                i <= n,
                n == ast.functions@.len(),
                compiled@.len() >= old(compiled)@.len(),
                forall|j: int| 0 <= j < old(compiled)@.len()
                    ==> (#[trigger] compiled@[j]) == old(compiled)@[j],
            decreases n - i,
        {
            let f = &ast.functions[i];
            let entry = compiled.len();
            // Each parameter is popped into the new scope, first parameter
            // first, matching the reverse push order of call sites.
            let np = f.params.len();
            let mut p: usize = 0;
            while p < np
                invariant
                    p <= np,
                    np == f.params@.len(),
                    compiled@.len() >= old(compiled)@.len(),
                    forall|j: int| 0 <= j < old(compiled)@.len()
                        ==> (#[trigger] compiled@[j]) == old(compiled)@[j],
                decreases np - p,
            {
                compiled.push(ControlASM::Pop(Variable::Instance(f.params[p].clone())));
                p = p + 1;
            }
            Self::write_stmt_block(compiled, &f.body);
            compiled.push(ControlASM::Return);
            table.push((f.name.clone(), entry));
            i = i + 1;
        }
        table
    }

    /// Lower a whole script: the top-level statements come first and end the
    /// program; the function bodies follow, reached only through resolved
    /// procedure calls.
    pub fn compile_ast(ast: &ScriptAst) -> (r: Program)
    {
        let mut compiled: Program = Vec::new();
        Self::write_stmt_block(&mut compiled, &ast.statements);
        compiled.push(ControlASM::Return);
        let _ = Self::compile_functions(&mut compiled, ast);
        compiled
    }
}

} // verus!
