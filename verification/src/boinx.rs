//! The boinx language's runtime pieces: its item values, identifier
//! qualifiers, the environment functions its scripts call, and the
//! interpreter shell. Source-language compilers are outside the engine's
//! core contract; what lives here is the data and the evaluation against
//! the context.

use vstd::prelude::*;
use rand::seq::SliceRandom;
use crate::vm::{EvaluationContext, Variable, VariableValue, random_range_u64};

verus! {

/// One value of the boinx language.
pub enum BoinxItem {
    /// A note number.
    Note(i64),
    /// A fixed-point number in millionths.
    Number(i64),
    /// A sequence of values played one after another.
    Sequence(Vec<BoinxItem>),
    /// Silence.
    Mute,
}

/// A composition: how a group of items plays.
pub enum BoinxAtomicCompo {
    /// One after another.
    Sequence(Vec<BoinxItem>),
    /// All together.
    Simultaneous(Vec<BoinxItem>),
    /// A single item.
    Item(BoinxItem),
}

/// A composition with its grouping.
pub struct BoinxCompo {
    /// The grouped items.
    pub compo: BoinxAtomicCompo,
}

/// A composition routed to a device and channel.
pub struct BoinxOutput {
    /// What plays.
    pub compo: BoinxCompo,
    /// The target device name, when named.
    pub device: Option<String>,
    /// The target channel, when named.
    pub channel: Option<String>,
}

/// A named binding of an output.
pub struct BoinxAssign {
    /// The variable bound.
    pub var: String,
    /// The output bound to it.
    pub value: BoinxOutput,
}

/// One statement of the language.
pub enum BoinxStatement {
    /// Play a composition on a device and channel.
    Output(BoinxCompo, Option<String>, Option<String>),
    /// Bind an output to a variable.
    Assign(String, BoinxOutput),
}

/// A condition comparing two items by a named operator.
pub struct BoinxCondition {
    /// Left operand.
    pub left: BoinxItem,
    /// The comparison operator's name.
    pub op: String,
    /// Right operand.
    pub right: BoinxItem,
}

/// A conditional pair of statement lists.
pub struct BoinxIfElse {
    /// The condition.
    pub condition: BoinxCondition,
    /// The statements when it holds.
    pub when_true: Vec<BoinxStatement>,
    /// The statements when it does not.
    pub when_false: Vec<BoinxStatement>,
}

/// How an identifier resolves.
#[derive(Clone, Copy, PartialEq, Eq, Structural, Debug)]
pub enum BoinxIdentQualif {
    /// An ordinary local variable.
    LocalVar,
    /// A sequence variable, shared across the scene.
    SeqVar,
    /// An environment function.
    EnvFunc,
}

/// An identifier with its qualifier.
pub struct BoinxIdent {
    /// The bare name, without its marker.
    pub name: String,
    /// How the name resolves.
    pub qualifier: BoinxIdentQualif,
}

/// The item reading of a dynamic value: integers are notes, fixed-point
/// numbers are numbers, everything else is silence.
pub open spec fn spec_item_of_value(v: VariableValue) -> BoinxItem {
    match v {
        VariableValue::Int(x) => BoinxItem::Note(x),
        VariableValue::Fix(x) => BoinxItem::Number(x),
        _ => BoinxItem::Mute,
    }
}

/// The dynamic value of an item: notes are integers, numbers fixed-point,
/// everything else no value.
pub open spec fn spec_value_of_item(i: BoinxItem) -> VariableValue {
    match i {
        BoinxItem::Note(x) => VariableValue::Int(x),
        BoinxItem::Number(x) => VariableValue::Fix(x),
        _ => VariableValue::Unit,
    }
}

impl BoinxIdent {
    /// The variable reference of the identifier: local names read the
    /// instance scope, sequence names the global scope. Environment
    /// functions carry no storage; they read as the instance scope too, so
    /// that loading one is defined.
    pub open spec fn spec_variable(self) -> Variable {
        match self.qualifier {
            BoinxIdentQualif::LocalVar => Variable::Instance(self.name),
            BoinxIdentQualif::SeqVar => Variable::Global(self.name),
            BoinxIdentQualif::EnvFunc => Variable::Instance(self.name),
        }
    }

    /// Read the identifier's item from the context.
    pub fn load_item(&self, ctx: &EvaluationContext) -> (r: BoinxItem)
        requires
            ctx.wf(),
        ensures
            r == spec_item_of_value(crate::vm::cv_eval(
                ctx.view_ctx(), self.spec_variable())),
    {
        let var = match self.qualifier {
            BoinxIdentQualif::LocalVar => Variable::Instance(self.name.clone()),
            BoinxIdentQualif::SeqVar => Variable::Global(self.name.clone()),
            BoinxIdentQualif::EnvFunc => Variable::Instance(self.name.clone()),
        };
        let v = match &var {
            Variable::Instance(n) => ctx.resolve(n),
            Variable::Global(n) => {
                match crate::vm::lookup(&ctx.globals, n) {
                    Some(v) => v.clone_value(),
                    None => VariableValue::Unit,
                }
            },
            _ => VariableValue::Unit,
        };
        match v {
            VariableValue::Int(x) => BoinxItem::Note(x),
            VariableValue::Fix(x) => BoinxItem::Number(x),
            _ => BoinxItem::Mute,
        }
    }

    /// Bind the identifier to an item's value in the context.
    pub fn set(&self, ctx: &mut EvaluationContext, value: BoinxItem)
        requires
            old(ctx).wf(),
        ensures
            final(ctx).wf(),
            final(ctx).view_ctx() == crate::vm::cv_set(
                old(ctx).view_ctx(), self.spec_variable(), spec_value_of_item(value)),
    {
        let var = match self.qualifier {
            BoinxIdentQualif::LocalVar => Variable::Instance(self.name.clone()),
            BoinxIdentQualif::SeqVar => Variable::Global(self.name.clone()),
            BoinxIdentQualif::EnvFunc => Variable::Instance(self.name.clone()),
        };
        let v = match value {
            BoinxItem::Note(x) => VariableValue::Int(x),
            BoinxItem::Number(x) => VariableValue::Fix(x),
            _ => VariableValue::Unit,
        };
        ctx.set_var(&var, v);
    }

    /// Read an identifier from its written form: a leading underscore marks
    /// an environment function, a leading section sign a sequence variable,
    /// anything else a local variable.
    pub fn from_text(text: &str) -> (r: BoinxIdent)
        ensures
            text@.len() > 0 && text@[0] == '_'
                ==> r.qualifier == BoinxIdentQualif::EnvFunc
                    && r.name@ == text@.skip(1),
            text@.len() > 0 && text@[0] == '\u{a7}'
                ==> r.qualifier == BoinxIdentQualif::SeqVar
                    && r.name@ == text@.skip(1),
            text@.len() == 0 || (text@[0] != '_' && text@[0] != '\u{a7}')
                ==> r.qualifier == BoinxIdentQualif::LocalVar
                    && r.name@ == text@,
    {
        let chars = crate::text::str_to_chars(text);
        if chars.len() > 0 && (chars[0] == '_' || chars[0] == '\u{a7}') {
            let rest = copy_tail(&chars, 1);
            let qualifier = if chars[0] == '_' {
                BoinxIdentQualif::EnvFunc
            } else {
                BoinxIdentQualif::SeqVar
            };
            BoinxIdent { name: crate::text::chars_to_string(&rest), qualifier }
        } else {
            BoinxIdent {
                name: crate::text::chars_to_string(&chars),
                qualifier: BoinxIdentQualif::LocalVar,
            }
        }
    }
}

/// Copy the characters from `from` on.
fn copy_tail(v: &Vec<char>, from: usize) -> (r: Vec<char>)
    requires
        from <= v@.len(),
    ensures
        r@ == v@.skip(from as int),
{
    let mut r: Vec<char> = Vec::new();
    let mut i: usize = from;
    while i < v.len()
        invariant
            from <= i <= v@.len(),
            r@ =~= v@.subrange(from as int, i as int),
        decreases v@.len() - i,
    {
        r.push(v[i]);
        proof {
            assert(r@ =~= v@.subrange(from as int, i + 1));
        }
        i = i + 1;
    }
    proof {
        assert(r@ =~= v@.skip(from as int));
    }
    r
}

/// The integer reading of an item.
pub open spec fn spec_item_int(i: BoinxItem) -> int {
    match i {
        BoinxItem::Note(x) => x as int,
        BoinxItem::Number(x) => VariableValue::Fix(x).spec_as_int(),
        _ => 0int,
    }
}

/// A bound clamped into the range the functions accept.
pub open spec fn spec_clamp_note(x: int) -> int {
    if x < -1_000_000_000 {
        -1_000_000_000int
    } else if x > 1_000_000_000 {
        1_000_000_000int
    } else {
        x
    }
}

/// The bounds a function's arguments name: two arguments are the bounds,
/// one is an upper bound from zero, none is an empty range.
pub open spec fn spec_range_bounds(args: Seq<BoinxItem>) -> (int, int) {
    if args.len() >= 2 {
        (spec_clamp_note(spec_item_int(args[0])), spec_clamp_note(spec_item_int(args[1])))
    } else if args.len() == 1 {
        (0int, spec_clamp_note(spec_item_int(args[0])))
    } else {
        (0int, 0int)
    }
}

/// Run a built-in function of the boinx environment on its arguments.
/// `choice` picks one argument, `shuffle` reorders them, `range` lists the
/// notes between its bounds, `randrange` draws a number and `irandrange` a
/// note from between its bounds; an unknown name is silence.
pub fn execute_boinx_function(ctx: &EvaluationContext, name: &String, args: Vec<BoinxItem>)
    -> (r: BoinxItem)
    ensures
        name@ == "choice"@ && args@.len() > 0
            ==> exists|i: int| 0 <= i < args@.len() && r == args@[i],
        name@ == "shuffle"@
            ==> (r matches BoinxItem::Sequence(s)
                && s@.to_multiset() == args@.to_multiset()),
        name@ == "range"@
            ==> (r matches BoinxItem::Sequence(s) && {
                let (lo, hi) = spec_range_bounds(args@);
                &&& s@.len() == (if hi > lo { hi - lo } else { 0int })
                &&& forall|i: int| 0 <= i < s@.len()
                    ==> s@[i] == BoinxItem::Note((lo + i) as i64)
            }),
        name@ == "randrange"@
            ==> (r matches BoinxItem::Number(v) && {
                let (lo, hi) = spec_range_bounds(args@);
                if lo < hi {
                    lo * 1_000_000 <= v < hi * 1_000_000
                } else {
                    v == lo * 1_000_000
                }
            }),
        name@ == "irandrange"@
            ==> (r matches BoinxItem::Note(v) && {
                let (lo, hi) = spec_range_bounds(args@);
                if lo < hi {
                    lo <= v < hi
                } else {
                    v == lo
                }
            }),
{
    proof {
        reveal_strlit("choice");
        reveal_strlit("shuffle");
        reveal_strlit("range");
        reveal_strlit("randrange");
        reveal_strlit("irandrange");
        assert("choice"@.len() == 6 && "shuffle"@.len() == 7 && "range"@.len() == 5
            && "randrange"@.len() == 9 && "irandrange"@.len() == 10);
    }
    let mut args = args;
    if name.eq(&String::from_str("choice")) {
        proof {
            assert("choice"@.len() == 6 && "shuffle"@.len() == 7);
            assert(name@ != "shuffle"@);
        }
        if args.len() == 0 {
            return BoinxItem::Mute;
        }
        let ghost pre = args@;
        let i = random_range_u64(0, args.len() as u64) as usize;
        let r = args.remove(i);
        proof {
            assert(r == pre[i as int]);
        }
        return r;
    }
    if name.eq(&String::from_str("shuffle")) {
        let shuffled = shuffle_items(args);
        return BoinxItem::Sequence(shuffled);
    }
    if name.eq(&String::from_str("range")) {
        let (lo, hi) = range_bounds(&args);
        let mut notes: Vec<BoinxItem> = Vec::new();
        let mut i = lo;
        while i < hi
            invariant
                lo <= i <= hi || (lo >= hi && i == lo),
                -1_000_000_000 <= lo <= 1_000_000_000,
                -1_000_000_000 <= hi <= 1_000_000_000,
                notes@.len() == i - lo,
                forall|k: int| 0 <= k < notes@.len()
                    ==> notes@[k] == BoinxItem::Note((lo + k) as i64),
            decreases hi - i,
        {
            notes.push(BoinxItem::Note(i));
            i = i + 1;
        }
        return BoinxItem::Sequence(notes);
    }
    if name.eq(&String::from_str("randrange")) {
        let (lo, hi) = range_bounds(&args);
        if lo >= hi {
            return BoinxItem::Number(lo * 1_000_000);
        }
        let span = (hi - lo) as u64;
        let off = random_range_u64(0, span);
        return BoinxItem::Number((lo + off as i64) * 1_000_000);
    }
    if name.eq(&String::from_str("irandrange")) {
        let (lo, hi) = range_bounds(&args);
        if lo >= hi {
            return BoinxItem::Note(lo);
        }
        let span = (hi - lo) as u64;
        let off = random_range_u64(0, span);
        return BoinxItem::Note(lo + off as i64);
    }
    let _ = ctx;
    BoinxItem::Mute
}

/// The integer bounds of a function's arguments: two arguments are the
/// bounds themselves, one argument is an upper bound from zero, none is an
/// empty range. Bounds are kept small so that spans stay representable.
fn range_bounds(args: &Vec<BoinxItem>) -> (r: (i64, i64))
    ensures
        -1_000_000_000 <= r.0 <= 1_000_000_000,
        -1_000_000_000 <= r.1 <= 1_000_000_000,
        (r.0 as int, r.1 as int) == spec_range_bounds(args@),
{
    let a = if args.len() >= 1 {
        clamp_note(item_int(&args[0]))
    } else {
        0
    };
    let b = if args.len() >= 2 {
        clamp_note(item_int(&args[1]))
    } else {
        0
    };
    if args.len() >= 2 {
        (a, b)
    } else {
        (0, a)
    }
}

/// The integer of an item.
fn item_int(i: &BoinxItem) -> (r: i64)
    ensures
        r as int == spec_item_int(*i),
{
    match i {
        BoinxItem::Note(x) => *x,
        BoinxItem::Number(x) => VariableValue::Fix(*x).as_integer(),
        _ => 0,
    }
}

/// Clamp a bound into a small range.
fn clamp_note(x: i64) -> (r: i64)
    ensures
        -1_000_000_000 <= r <= 1_000_000_000,
        r as int == spec_clamp_note(x as int),
{
    if x < -1_000_000_000 {
        -1_000_000_000
    } else if x > 1_000_000_000 {
        1_000_000_000
    } else {
        x
    }
}

/// Relies on the slice `shuffle` of the `rand` crate: the result holds the
/// same elements, rearranged.
#[verifier::external_body]
fn shuffle_items(items: Vec<BoinxItem>) -> (r: Vec<BoinxItem>)
    ensures
        r@.to_multiset() == items@.to_multiset(),
{
    let mut items = items;
    items.shuffle(&mut rand::rng());
    items
}

/// The boinx interpreter shell: it runs its compiled program on the
/// stack machine.
pub struct BoinxInterpreter {
    /// The machine running the compiled script.
    pub vm: crate::vm::StackVM,
}

/// The factory of the boinx interpreter.
pub struct BoinxInterpreterFactory;

impl crate::interp::InterpreterFactory for BoinxInterpreterFactory {
    type Instance = BoinxInterpreter;

    fn name(&self) -> &'static str {
        "boinx"
    }

    fn make_instance(&self, script: &crate::scene::Script)
        -> Result<BoinxInterpreter, crate::ErrorKind>
    {
        match crate::dummylang::compile_script(script) {
            Ok(program) => Ok(BoinxInterpreter { vm: crate::vm::StackVM::new(program) }),
            Err(e) => Err(e),
        }
    }
}

} // verus!
