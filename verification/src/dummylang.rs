//! The built-in "dummy" language: a flat text of commands, each a letter
//! followed by numbers, compiled into virtual-machine programs. `N` plays a
//! note (note, length, pause), `C` a chord (notes…, length, pause), `A` an
//! arpeggio (notes…, length, pause); lengths and pauses are in tenths of a
//! second. The language has a stable printed form: compiling a program's
//! disassembly returns the same program.

use vstd::prelude::*;
use crate::ErrorKind;
use crate::text::{all_digits, dec_val, dec_chars_of, dec_chars, parse_dec, str_to_chars,
    chars_to_string, lemma_dec_chars_roundtrip, is_dec_digit};
use crate::vm::{ControlASM, Variable, VariableValue, Program};

verus! {

/// Scale from the language's time unit to microseconds.
pub const TIME_FACTOR: u64 = 100_000;

/// Largest number a script may write.
pub const MAX_DUMMY_VALUE: u64 = 1_000_000_000_000;

/// Most numbers one statement may carry.
pub const MAX_DUMMY_NUMS: usize = 1_000;

/// One statement of the language.
pub enum Inst {
    /// Play the notes one after another: notes…, then length and pause.
    EventPlayArpeggio(Vec<u64>),
    /// Play the notes together: notes…, then length and pause.
    EventPlayChord(Vec<u64>),
    /// Play one note: note, then optional length and pause.
    EventPlayNote(Vec<u64>),
}

/// A parsed program of the language.
pub struct Prog {
    /// The statements in order.
    pub instructions: Vec<Inst>,
}

impl Inst {
    /// The numbers of the statement.
    pub open spec fn spec_nums(self) -> Seq<u64> {
        match self {
            Inst::EventPlayArpeggio(s) => s@,
            Inst::EventPlayChord(s) => s@,
            Inst::EventPlayNote(s) => s@,
        }
    }

    /// Well-formedness: a note carries one to three numbers, a chord or an
    /// arpeggio at least three; every number is within range.
    pub open spec fn wf(self) -> bool {
        &&& (match self {
            Inst::EventPlayNote(s) => 1 <= s@.len() <= 3,
            Inst::EventPlayChord(s) => 3 <= s@.len() <= MAX_DUMMY_NUMS,
            Inst::EventPlayArpeggio(s) => 3 <= s@.len() <= MAX_DUMMY_NUMS,
        })
        &&& (forall|i: int| 0 <= i < self.spec_nums().len()
            ==> (#[trigger] self.spec_nums()[i]) <= MAX_DUMMY_VALUE)
    }
}

impl Prog {
    /// Every statement is well formed.
    pub open spec fn wf(self) -> bool {
        forall|i: int| 0 <= i < self.instructions@.len()
            ==> (#[trigger] self.instructions@[i]).wf()
    }

    /// A program of one statement.
    pub fn new(i: Inst) -> (p: Prog)
        ensures
            p.instructions@ == seq![i],
    {
        let mut instructions: Vec<Inst> = Vec::new();
        instructions.push(i);
        proof {
            assert(instructions@ =~= seq![i]);
        }
        Prog { instructions }
    }

    /// Append a statement.
    pub fn add_instruction(&mut self, i: Inst)
        ensures
            final(self).instructions@ == old(self).instructions@.push(i),
    {
        self.instructions.push(i);
    }
}

// ---------------------------------------------------------------------------
// Printing: program -> tokens -> text.

/// Tokens joined with single spaces.
pub open spec fn spec_join(ts: Seq<Seq<char>>) -> Seq<char>
    decreases ts.len(),
{
    if ts.len() == 0 {
        Seq::empty()
    } else if ts.len() == 1 {
        ts[0]
    } else {
        ts[0] + seq![' '] + spec_join(ts.drop_first())
    }
}

/// A printable token: non-empty, without spaces.
pub open spec fn tok_wf(t: Seq<char>) -> bool {
    t.len() >= 1 && forall|i: int| 0 <= i < t.len() ==> (#[trigger] t[i]) != ' '
}

// ---------------------------------------------------------------------------
// Reading: text -> tokens -> program.

/// Length of the leading run of non-space characters.
pub open spec fn spec_nonspace_run(s: Seq<char>) -> int
    decreases s.len(),
{
    if s.len() == 0 || s[0] == ' ' {
        0
    } else {
        1 + spec_nonspace_run(s.drop_first())
    }
}

/// The leading non-space run is within the text, and non-empty when the
/// text starts with a non-space.
pub proof fn lemma_nonspace_run_bounds(s: Seq<char>)
    ensures
        0 <= spec_nonspace_run(s) <= s.len(),
        s.len() > 0 && s[0] != ' ' ==> spec_nonspace_run(s) >= 1,
    decreases s.len(),
{
    if s.len() > 0 && s[0] != ' ' {
        lemma_nonspace_run_bounds(s.drop_first());
    }
}

/// The tokens of a text: maximal runs of non-space characters.
pub open spec fn spec_tokenize(s: Seq<char>) -> Seq<Seq<char>>
    decreases s.len(),
    via spec_tokenize_dec
{
    if s.len() == 0 {
        Seq::empty()
    } else if s[0] == ' ' {
        spec_tokenize(s.drop_first())
    } else {
        let k = spec_nonspace_run(s);
        seq![s.take(k)] + spec_tokenize(s.skip(k))
    }
}

#[via_fn]
proof fn spec_tokenize_dec(s: Seq<char>) {
    if s.len() > 0 && s[0] != ' ' {
        lemma_nonspace_run_bounds(s);
    }
}

/// A numeric token of the language.
pub open spec fn tok_is_num(t: Seq<char>) -> bool {
    t.len() >= 1 && all_digits(t) && dec_val(t) <= MAX_DUMMY_VALUE
}

/// Length of the leading run of numeric tokens.
pub open spec fn spec_num_run(ts: Seq<Seq<char>>) -> int
    decreases ts.len(),
{
    if ts.len() == 0 || !tok_is_num(ts[0]) {
        0
    } else {
        1 + spec_num_run(ts.drop_first())
    }
}

/// The leading numeric run is within the token list.
pub proof fn lemma_num_run_bounds(ts: Seq<Seq<char>>)
    ensures
        0 <= spec_num_run(ts) <= ts.len(),
    decreases ts.len(),
{
    if ts.len() > 0 && tok_is_num(ts[0]) {
        lemma_num_run_bounds(ts.drop_first());
    }
}

/// The numbers of a run of numeric tokens.
pub open spec fn spec_nums_of(ts: Seq<Seq<char>>, k: int) -> Seq<u64>
    decreases k,
{
    if k <= 0 {
        Seq::empty()
    } else {
        seq![dec_val(ts[0]) as u64] + spec_nums_of(ts.drop_first(), k - 1)
    }
}

/// The mathematical reading of one statement: its kind and numbers.
pub ghost enum InstModel {
    /// An arpeggio statement.
    Arp(Seq<u64>),
    /// A chord statement.
    Chord(Seq<u64>),
    /// A note statement.
    Note(Seq<u64>),
}

impl Inst {
    /// The statement as a mathematical value.
    pub open spec fn model(self) -> InstModel {
        match self {
            Inst::EventPlayArpeggio(s) => InstModel::Arp(s@),
            Inst::EventPlayChord(s) => InstModel::Chord(s@),
            Inst::EventPlayNote(s) => InstModel::Note(s@),
        }
    }
}

impl InstModel {
    /// The numbers of the statement.
    pub open spec fn nums(self) -> Seq<u64> {
        match self {
            InstModel::Arp(s) => s,
            InstModel::Chord(s) => s,
            InstModel::Note(s) => s,
        }
    }

    /// Well-formedness of the mathematical statement.
    pub open spec fn wf(self) -> bool {
        &&& (match self {
            InstModel::Note(s) => 1 <= s.len() <= 3,
            InstModel::Chord(s) => 3 <= s.len() <= MAX_DUMMY_NUMS,
            InstModel::Arp(s) => 3 <= s.len() <= MAX_DUMMY_NUMS,
        })
        &&& (forall|i: int| 0 <= i < self.nums().len()
            ==> (#[trigger] self.nums()[i]) <= MAX_DUMMY_VALUE)
    }

    /// The printed tokens of the statement: its letter, then its numbers.
    pub open spec fn print(self) -> Seq<Seq<char>> {
        match self {
            InstModel::Note(s) => seq!["N"@] + s.map_values(|n: u64| dec_chars_of(n as int)),
            InstModel::Chord(s) => seq!["C"@] + s.map_values(|n: u64| dec_chars_of(n as int)),
            InstModel::Arp(s) => seq!["A"@] + s.map_values(|n: u64| dec_chars_of(n as int)),
        }
    }
}

/// The printed tokens of a statement list.
pub open spec fn spec_print_models(ms: Seq<InstModel>) -> Seq<Seq<char>>
    decreases ms.len(),
{
    if ms.len() == 0 {
        Seq::empty()
    } else {
        ms[0].print() + spec_print_models(ms.drop_first())
    }
}

/// Parse a token list into statements; every token must be consumed. Each
/// statement is a command letter followed by its run of numeric tokens: one
/// to three for a note, at least three for a chord or an arpeggio.
pub open spec fn spec_parse_tokens(ts: Seq<Seq<char>>) -> Option<Seq<InstModel>>
    decreases ts.len(),
    via spec_parse_tokens_dec
{
    if ts.len() == 0 {
        Some(Seq::empty())
    } else {
        let k = spec_num_run(ts.drop_first());
        let nums = spec_nums_of(ts.drop_first(), k);
        let rest = spec_parse_tokens(ts.drop_first().skip(k));
        if ts[0] == "N"@ {
            if 1 <= k <= 3 {
                match rest {
                    Some(is) => Some(seq![InstModel::Note(nums)] + is),
                    None => None,
                }
            } else {
                None
            }
        } else if ts[0] == "C"@ {
            if 3 <= k <= MAX_DUMMY_NUMS {
                match rest {
                    Some(is) => Some(seq![InstModel::Chord(nums)] + is),
                    None => None,
                }
            } else {
                None
            }
        } else if ts[0] == "A"@ {
            if 3 <= k <= MAX_DUMMY_NUMS {
                match rest {
                    Some(is) => Some(seq![InstModel::Arp(nums)] + is),
                    None => None,
                }
            } else {
                None
            }
        } else {
            None
        }
    }
}

#[via_fn]
proof fn spec_parse_tokens_dec(ts: Seq<Seq<char>>) {
    if ts.len() > 0 {
        lemma_num_run_bounds(ts.drop_first());
    }
}

// ---------------------------------------------------------------------------
// Executable reading.

/// Length of the leading non-space run starting at `from`.
fn nonspace_run(v: &Vec<char>, from: usize) -> (r: usize)
    requires
        from <= v@.len(),
    ensures
        r as int == spec_nonspace_run(v@.skip(from as int)),
        from + r <= v@.len(),
    decreases v@.len() - from,
{
    if from == v.len() {
        proof {
            assert(v@.skip(from as int).len() == 0);
        }
        0
    } else if v[from] == ' ' {
        proof {
            assert(v@.skip(from as int)[0] == ' ');
        }
        0
    } else {
        proof {
            assert(v@.skip(from as int)[0] != ' ');
            assert(v@.skip(from as int).drop_first() =~= v@.skip(from + 1));
        }
        1 + nonspace_run(v, from + 1)
    }
}

/// Copy the characters of `[from, to)` into a fresh token.
fn copy_span(v: &Vec<char>, from: usize, to: usize) -> (r: Vec<char>)
    requires
        from <= to <= v@.len(),
    ensures
        r@ == v@.subrange(from as int, to as int),
{
    let mut r: Vec<char> = Vec::new();
    let mut i: usize = from;
    while i < to
        invariant
            from <= i <= to <= v@.len(),
            r@ =~= v@.subrange(from as int, i as int),
        decreases to - i,
    {
        r.push(v[i]);
        proof {
            assert(r@ =~= v@.subrange(from as int, i + 1));
        }
        i = i + 1;
    }
    proof {
        assert(r@ =~= v@.subrange(from as int, to as int));
    }
    r
}

/// Split a text into its space-separated tokens.
fn tokenize_from(v: &Vec<char>, from: usize) -> (r: Vec<Vec<char>>)
    requires
        from <= v@.len(),
    ensures
        r@.map_values(|t: Vec<char>| t@) == spec_tokenize(v@.skip(from as int)),
    decreases v@.len() - from,
{
    if from == v.len() {
        let r: Vec<Vec<char>> = Vec::new();
        proof {
            assert(v@.skip(from as int).len() == 0);
            assert(r@.map_values(|t: Vec<char>| t@) =~= spec_tokenize(v@.skip(from as int)));
        }
        r
    } else if v[from] == ' ' {
        proof {
            assert(v@.skip(from as int)[0] == ' ');
            assert(v@.skip(from as int).drop_first() =~= v@.skip(from + 1));
        }
        tokenize_from(v, from + 1)
    } else {
        let k = nonspace_run(v, from);
        proof {
            lemma_nonspace_run_bounds(v@.skip(from as int));
            assert(v@.skip(from as int)[0] == v@[from as int]);
            assert(k >= 1);
        }
        let tok = copy_span(v, from, from + k);
        let mut rest = tokenize_from(v, from + k);
        let mut r: Vec<Vec<char>> = Vec::new();
        r.push(tok);
        let ghost rest_view = rest@;
        r.append(&mut rest);
        proof {
            let s = v@.skip(from as int);
            assert(s[0] != ' ');
            assert(s.take(spec_nonspace_run(s)) =~= v@.subrange(from as int, from + k));
            assert(s.skip(spec_nonspace_run(s)) =~= v@.skip(from + k));
            assert(r@ =~= seq![tok].add(rest_view));
            assert(r@.map_values(|t: Vec<char>| t@)
                =~= seq![tok@] + rest_view.map_values(|t: Vec<char>| t@));
            assert(r@.map_values(|t: Vec<char>| t@) =~= spec_tokenize(s));
        }
        r
    }
}

/// Split a text into tokens.
pub fn tokenize(v: &Vec<char>) -> (r: Vec<Vec<char>>)
    ensures
        r@.map_values(|t: Vec<char>| t@) == spec_tokenize(v@),
{
    proof {
        assert(v@.skip(0) =~= v@);
    }
    tokenize_from(v, 0)
}

/// Read a token as a number of the language.
fn num_tok(t: &Vec<char>) -> (r: Option<u64>)
    ensures
        match r {
            Some(x) => tok_is_num(t@) && x == dec_val(t@),
            None => !tok_is_num(t@),
        },
{
    if t.len() == 0 {
        return None;
    }
    proof {
        assert(t@.subrange(0, t@.len() as int) =~= t@);
    }
    match parse_dec(t, 0, t.len()) {
        None => None,
        Some(x) => if x <= MAX_DUMMY_VALUE {
            Some(x)
        } else {
            None
        },
    }
}

/// Length of the leading run of numeric tokens starting at `from`.
fn num_run(ts: &Vec<Vec<char>>, from: usize) -> (r: usize)
    requires
        from <= ts@.len(),
    ensures
        r as int == spec_num_run(ts@.map_values(|t: Vec<char>| t@).skip(from as int)),
        from + r <= ts@.len(),
    decreases ts@.len() - from,
{
    let ghost tv = ts@.map_values(|t: Vec<char>| t@);
    if from == ts.len() {
        proof {
            assert(tv.skip(from as int).len() == 0);
        }
        return 0;
    }
    proof {
        assert(tv.skip(from as int)[0] == tv[from as int]);
        assert(tv[from as int] == ts@[from as int]@);
        assert(tv.skip(from as int).drop_first() =~= tv.skip(from + 1));
    }
    match num_tok(&ts[from]) {
        None => 0,
        Some(_) => 1 + num_run(ts, from + 1),
    }
}

/// Read the numbers of `k` numeric tokens starting at `from`.
fn read_nums(ts: &Vec<Vec<char>>, from: usize, k: usize) -> (r: Option<Vec<u64>>)
    requires
        from + k <= ts@.len(),
    ensures
        match r {
            Some(nums) => nums@ == spec_nums_of(
                ts@.map_values(|t: Vec<char>| t@).skip(from as int), k as int)
                && nums@.len() == k
                && (forall|i: int| 0 <= i < nums@.len()
                    ==> (#[trigger] nums@[i]) <= MAX_DUMMY_VALUE),
            None => !(spec_num_run(ts@.map_values(|t: Vec<char>| t@).skip(from as int)) >= k),
        },
    decreases k,
{
    let ghost tv = ts@.map_values(|t: Vec<char>| t@);
    if k == 0 {
        let r: Vec<u64> = Vec::new();
        proof {
            assert(r@ =~= spec_nums_of(tv.skip(from as int), 0));
        }
        return Some(r);
    }
    let n = ts.len();
    proof {
        assert(k >= 1);
        assert(from + 1 <= n);
        assert(tv.skip(from as int)[0] == ts@[from as int]@);
        assert(tv.skip(from as int).drop_first() =~= tv.skip(from + 1));
    }
    match num_tok(&ts[from]) {
        None => None,
        Some(x) => {
            match read_nums(ts, from + 1, k - 1) {
                None => None,
                Some(rest) => {
                    let mut r: Vec<u64> = Vec::new();
                    r.push(x);
                    let ghost rest_view = rest@;
                    let mut rest = rest;
                    r.append(&mut rest);
                    proof {
                        assert(r@ =~= seq![x] + rest_view);
                        assert(r@ =~= spec_nums_of(tv.skip(from as int), k as int));
                    }
                    Some(r)
                },
            }
        },
    }
}

/// Parse the tokens from `from` into statements.
fn parse_tokens_from(ts: &Vec<Vec<char>>, from: usize) -> (r: Result<Vec<Inst>, ErrorKind>)
    requires
        from <= ts@.len(),
    ensures
        match r {
            Ok(is) => spec_parse_tokens(ts@.map_values(|t: Vec<char>| t@).skip(from as int))
                == Some(is@.map_values(|i: Inst| i.model()))
                && (forall|i: int| 0 <= i < is@.len() ==> (#[trigger] is@[i]).wf()),
            Err(e) => e == ErrorKind::CompileError
                && spec_parse_tokens(ts@.map_values(|t: Vec<char>| t@).skip(from as int))
                    is None,
        },
    decreases ts@.len() - from,
{
    let ghost tv = ts@.map_values(|t: Vec<char>| t@);
    if from == ts.len() {
        let r: Vec<Inst> = Vec::new();
        proof {
            assert(tv.skip(from as int).len() == 0);
            assert(r@.map_values(|i: Inst| i.model()) =~= Seq::<InstModel>::empty());
        }
        return Ok(r);
    }
    let cmd = &ts[from];
    proof {
        assert(tv.skip(from as int)[0] == ts@[from as int]@);
        assert(tv.skip(from as int).drop_first() =~= tv.skip(from + 1));
        reveal_strlit("N");
        reveal_strlit("C");
        reveal_strlit("A");
    }
    let is_n = cmd.len() == 1 && cmd[0] == 'N';
    let is_c = cmd.len() == 1 && cmd[0] == 'C';
    let is_a = cmd.len() == 1 && cmd[0] == 'A';
    proof {
        if is_n {
            assert(cmd@ =~= "N"@);
        } else {
            assert(cmd@ != "N"@) by {
                if cmd@ == "N"@ {
                    assert(cmd@.len() == 1 && cmd@[0] == 'N');
                }
            }
        }
        if is_c {
            assert(cmd@ =~= "C"@);
        } else {
            assert(cmd@ != "C"@) by {
                if cmd@ == "C"@ {
                    assert(cmd@.len() == 1 && cmd@[0] == 'C');
                }
            }
        }
        if is_a {
            assert(cmd@ =~= "A"@);
        } else {
            assert(cmd@ != "A"@) by {
                if cmd@ == "A"@ {
                    assert(cmd@.len() == 1 && cmd@[0] == 'A');
                }
            }
        }
    }
    if !is_n && !is_c && !is_a {
        return Err(ErrorKind::CompileError);
    }
    let k = num_run(ts, from + 1);
    proof {
        assert(tv.skip(from + 1).skip(k as int) =~= tv.skip(from + 1 + k));
    }
    if is_n && !(1 <= k && k <= 3) {
        return Err(ErrorKind::CompileError);
    }
    if (is_c || is_a) && (k < 3 || k > MAX_DUMMY_NUMS) {
        return Err(ErrorKind::CompileError);
    }
    let nums = match read_nums(ts, from + 1, k) {
        None => {
            return Err(ErrorKind::CompileError);
        },
        Some(nums) => nums,
    };
    let rest = match parse_tokens_from(ts, from + 1 + k) {
        Err(e) => {
            return Err(e);
        },
        Ok(rest) => rest,
    };
    let inst = if is_n {
        Inst::EventPlayNote(nums)
    } else if is_c {
        Inst::EventPlayChord(nums)
    } else {
        Inst::EventPlayArpeggio(nums)
    };
    let mut r: Vec<Inst> = Vec::new();
    r.push(inst);
    let ghost rest_view = rest@;
    let mut rest = rest;
    r.append(&mut rest);
    proof {
        assert(r@ =~= seq![inst] + rest_view);
        assert(r@.map_values(|i: Inst| i.model())
            =~= seq![inst.model()] + rest_view.map_values(|i: Inst| i.model()));
    }
    Ok(r)
}

/// Compile a text of the language into a parsed program.
pub fn compile(text: &str) -> (r: Result<Prog, ErrorKind>)
    ensures
        match r {
            Ok(p) => spec_parse_tokens(spec_tokenize(text@))
                == Some(p.instructions@.map_values(|i: Inst| i.model()))
                && p.wf(),
            Err(e) => e == ErrorKind::CompileError
                && spec_parse_tokens(spec_tokenize(text@)) is None,
        },
{
    let chars = str_to_chars(text);
    let tokens = tokenize(&chars);
    proof {
        assert(tokens@.map_values(|t: Vec<char>| t@).skip(0)
            =~= tokens@.map_values(|t: Vec<char>| t@));
    }
    match parse_tokens_from(&tokens, 0) {
        Ok(is) => Ok(Prog { instructions: is }),
        Err(e) => Err(e),
    }
}


// ---------------------------------------------------------------------------
// Assembling into virtual-machine programs.

/// The shape of one assembled machine instruction.
pub ghost enum AsmStep {
    /// Push an integer literal.
    PushInt(i64),
    /// Call the note environment function.
    CallNote,
    /// Call the sleep environment function.
    CallSleep,
}

/// Whether a machine instruction has the given shape.
pub open spec fn asm_matches(c: ControlASM, m: AsmStep) -> bool {
    match m {
        AsmStep::PushInt(x) => c == ControlASM::Push(
            Variable::Value(VariableValue::Int(x))),
        AsmStep::CallNote => (c matches ControlASM::CallFunction(s) && s@ == "note"@),
        AsmStep::CallSleep => (c matches ControlASM::CallFunction(s) && s@ == "sleep"@),
    }
}

/// The machine steps that play one note and then rest: push the target
/// device, the duration, the channel, the velocity and the note, emit the
/// note, then push the pause and sleep for it.
pub open spec fn spec_note_steps(note: u64, dur_us: u64, pause_us: u64) -> Seq<AsmStep> {
    seq![
        AsmStep::PushInt(0),
        AsmStep::PushInt(dur_us as i64),
        AsmStep::PushInt(1),
        AsmStep::PushInt(100),
        AsmStep::PushInt(note as i64),
        AsmStep::CallNote,
        AsmStep::PushInt(pause_us as i64),
        AsmStep::CallSleep,
    ]
}

/// The machine steps of one statement. A note plays once and rests for its
/// pause; a chord plays each of its notes for the common length with no
/// pause between them, then rests; an arpeggio plays each note for the
/// common length, resting the pause after each.
pub open spec fn spec_steps_of(m: InstModel) -> Seq<AsmStep> {
    match m {
        InstModel::Note(s) => {
            let dur = if s.len() >= 2 { s[1] } else { 0 };
            let pause = if s.len() >= 3 { s[2] } else { 0 };
            spec_note_steps(s[0], (dur * TIME_FACTOR) as u64, (pause * TIME_FACTOR) as u64)
        },
        InstModel::Chord(s) => spec_chord_steps(
            s.take(s.len() - 2),
            (s[s.len() - 2] * TIME_FACTOR) as u64,
            (s[s.len() - 1] * TIME_FACTOR) as u64,
        ),
        InstModel::Arp(s) => spec_arp_steps(
            s.take(s.len() - 2),
            (s[s.len() - 2] * TIME_FACTOR) as u64,
            (s[s.len() - 1] * TIME_FACTOR) as u64,
        ),
    }
}

/// Chord steps: each note with the common length and no pause, then one
/// rest for the pause.
pub open spec fn spec_chord_steps(notes: Seq<u64>, dur_us: u64, pause_us: u64) -> Seq<AsmStep>
    decreases notes.len(),
{
    if notes.len() == 0 {
        seq![AsmStep::PushInt(pause_us as i64), AsmStep::CallSleep]
    } else {
        spec_note_steps(notes[0], dur_us, 0).take(6)
            + spec_chord_steps(notes.drop_first(), dur_us, pause_us)
    }
}

/// Arpeggio steps: each note with the common length, resting the pause
/// after each.
pub open spec fn spec_arp_steps(notes: Seq<u64>, dur_us: u64, pause_us: u64) -> Seq<AsmStep>
    decreases notes.len(),
{
    if notes.len() == 0 {
        Seq::empty()
    } else {
        spec_note_steps(notes[0], dur_us, pause_us)
            + spec_arp_steps(notes.drop_first(), dur_us, pause_us)
    }
}

/// Scale a script time value to microseconds.
fn scale_time(x: u64) -> (r: u64)
    requires
        x <= MAX_DUMMY_VALUE,
    ensures
        r == x * TIME_FACTOR,
        r <= i64::MAX,
{
    proof {
        assert(x * TIME_FACTOR <= MAX_DUMMY_VALUE * TIME_FACTOR) by (nonlinear_arith)
            requires x <= MAX_DUMMY_VALUE;
    }
    x * TIME_FACTOR
}

/// Push the eight machine instructions that play one note and rest.
fn push_note_asm(out: &mut Vec<ControlASM>, note: u64, dur_us: u64, pause_us: u64)
    requires
        note <= MAX_DUMMY_VALUE,
        dur_us <= i64::MAX,
        pause_us <= i64::MAX,
    ensures
        final(out)@.len() == old(out)@.len() + 8,
        forall|j: int| 0 <= j < old(out)@.len()
            ==> (#[trigger] final(out)@[j]) == old(out)@[j],
        forall|j: int| 0 <= j < 8 ==> asm_matches(
            #[trigger] final(out)@[old(out)@.len() + j],
            spec_note_steps(note, dur_us, pause_us)[j],
        ),
{
    out.push(ControlASM::Push(Variable::Value(VariableValue::Int(0))));
    out.push(ControlASM::Push(Variable::Value(VariableValue::Int(dur_us as i64))));
    out.push(ControlASM::Push(Variable::Value(VariableValue::Int(1))));
    out.push(ControlASM::Push(Variable::Value(VariableValue::Int(100))));
    out.push(ControlASM::Push(Variable::Value(VariableValue::Int(note as i64))));
    out.push(ControlASM::CallFunction(String::from_str("note")));
    out.push(ControlASM::Push(Variable::Value(VariableValue::Int(pause_us as i64))));
    out.push(ControlASM::CallFunction(String::from_str("sleep")));
    proof {
        reveal_strlit("note");
        reveal_strlit("sleep");
    }
}

impl Inst {
    /// Assemble one statement into machine instructions whose shapes follow
    /// the statement's step sequence.
    pub fn as_asm(&self) -> (r: Vec<ControlASM>)
        requires
            self.wf(),
        ensures
            r@.len() == spec_steps_of(self.model()).len(),
            forall|j: int| 0 <= j < r@.len()
                ==> asm_matches(#[trigger] r@[j], spec_steps_of(self.model())[j]),
    {
        let mut out: Vec<ControlASM> = Vec::new();
        match self {
            Inst::EventPlayNote(s) => {
                proof {
                    assert(self.spec_nums() == s@);
                    assert(forall|j: int| 0 <= j < s@.len()
                        ==> (#[trigger] s@[j]) <= MAX_DUMMY_VALUE);
                }
                let dur = if s.len() >= 2 { s[1] } else { 0 };
                let pause = if s.len() >= 3 { s[2] } else { 0 };
                let dur_us = scale_time(dur);
                let pause_us = scale_time(pause);
                push_note_asm(&mut out, s[0], dur_us, pause_us);
                proof {
                    assert(spec_steps_of(self.model())
                        == spec_note_steps(s@[0], dur_us, pause_us));
                    assert(out@.len() == spec_steps_of(self.model()).len());
                    assert forall|j: int| 0 <= j < out@.len()
                        implies asm_matches(#[trigger] out@[j], spec_steps_of(self.model())[j])
                    by {
                        assert(asm_matches(out@[0 + j],
                            spec_note_steps(s@[0], dur_us, pause_us)[j]));
                    }
                }
            },
            Inst::EventPlayChord(s) => {
                proof {
                    assert(self.spec_nums() == s@);
                    assert(forall|j: int| 0 <= j < s@.len()
                        ==> (#[trigger] s@[j]) <= MAX_DUMMY_VALUE);
                }
                let n_notes = s.len() - 2;
                let dur = scale_time(s[s.len() - 2]);
                let pause = scale_time(s[s.len() - 1]);
                let ghost notes = s@.take(s@.len() - 2);
                let mut i: usize = 0;
                while i < n_notes
                    invariant
                        i <= n_notes,
                        n_notes == s@.len() - 2,
                        3 <= s@.len() <= MAX_DUMMY_NUMS,
                        notes == s@.take(s@.len() - 2),
                        forall|j: int| 0 <= j < s@.len()
                            ==> (#[trigger] s@[j]) <= MAX_DUMMY_VALUE,
                        dur == s@[s@.len() - 2] * TIME_FACTOR,
                        pause == s@[s@.len() - 1] * TIME_FACTOR,
                        dur <= i64::MAX,
                        pause <= i64::MAX,
                        out@.len() == 6 * i,
                        forall|j: int| 0 <= j < out@.len() ==> asm_matches(
                            #[trigger] out@[j],
                            spec_chord_steps(notes, dur as u64, pause as u64)[j],
                        ),
                    decreases n_notes - i,
                {
                    proof {
                        lemma_chord_steps_index(notes, dur as u64, pause as u64, i as int);
                    }
                    let before = out.len();
                    push_note_asm(&mut out, s[i], dur, 0);
                    let ghost mid = out@;
                    // The first six steps of a note group are its play; the
                    // rest wait, which a chord defers to its shared pause.
                    out.truncate(before + 6);
                    proof {
                        assert(out@ =~= mid.subrange(0, before + 6));
                        assert(out@.len() == 6 * (i + 1));
                        assert(notes[i as int] == s@[i as int]);
                        assert forall|j: int| 0 <= j < out@.len() implies asm_matches(
                            #[trigger] out@[j],
                            spec_chord_steps(notes, dur as u64, pause as u64)[j],
                        ) by {
                            lemma_chord_steps_index(notes, dur as u64, pause as u64, i as int);
                            assert(out@[j] == mid[j]);
                            if j >= before {
                                assert(asm_matches(mid[j],
                                    spec_note_steps(s@[i as int], dur as u64, 0)[j - before]));
                                assert(j - before < 6);
                                assert(spec_chord_steps(notes, dur as u64, pause as u64)[j]
                                    == spec_note_steps(notes[i as int], dur as u64, 0)[
                                        j - before]);
                            }
                        }
                    }
                    i = i + 1;
                }
                proof {
                    lemma_chord_steps_tail(notes, dur as u64, pause as u64);
                }
                let ghost body = out@;
                out.push(ControlASM::Push(Variable::Value(VariableValue::Int(pause as i64))));
                out.push(ControlASM::CallFunction(String::from_str("sleep")));
                proof {
                    reveal_strlit("sleep");
                    lemma_chord_steps_len(notes, dur as u64, pause as u64);
                    assert(out@.len() == 6 * notes.len() + 2);
                    assert forall|j: int| 0 <= j < out@.len() implies asm_matches(
                        #[trigger] out@[j],
                        spec_chord_steps(notes, dur as u64, pause as u64)[j],
                    ) by {
                        if j < body.len() {
                            assert(out@[j] == body[j]);
                        } else if j == body.len() {
                            assert(out@[j] == ControlASM::Push(
                                Variable::Value(VariableValue::Int(pause as i64))));
                        }
                    }
                    assert(out@.len() == spec_steps_of(self.model()).len());
                    assert(forall|j: int| 0 <= j < out@.len()
                        ==> asm_matches(#[trigger] out@[j], spec_steps_of(self.model())[j]));
                }
            },
            Inst::EventPlayArpeggio(s) => {
                proof {
                    assert(self.spec_nums() == s@);
                    assert(forall|j: int| 0 <= j < s@.len()
                        ==> (#[trigger] s@[j]) <= MAX_DUMMY_VALUE);
                }
                let n_notes = s.len() - 2;
                let dur = scale_time(s[s.len() - 2]);
                let pause = scale_time(s[s.len() - 1]);
                let ghost notes = s@.take(s@.len() - 2);
                let mut i: usize = 0;
                while i < n_notes
                    invariant
                        i <= n_notes,
                        n_notes == s@.len() - 2,
                        3 <= s@.len() <= MAX_DUMMY_NUMS,
                        notes == s@.take(s@.len() - 2),
                        forall|j: int| 0 <= j < s@.len()
                            ==> (#[trigger] s@[j]) <= MAX_DUMMY_VALUE,
                        dur == s@[s@.len() - 2] * TIME_FACTOR,
                        pause == s@[s@.len() - 1] * TIME_FACTOR,
                        dur <= i64::MAX,
                        pause <= i64::MAX,
                        out@.len() == 8 * i,
                        forall|j: int| 0 <= j < out@.len() ==> asm_matches(
                            #[trigger] out@[j],
                            spec_arp_steps(notes, dur as u64, pause as u64)[j],
                        ),
                    decreases n_notes - i,
                {
                    proof {
                        lemma_arp_steps_index(notes, dur as u64, pause as u64, i as int);
                    }
                    let before = out.len();
                    push_note_asm(&mut out, s[i], dur, pause);
                    proof {
                        assert(out@.len() == 8 * (i + 1));
                        assert(notes[i as int] == s@[i as int]);
                        assert forall|j: int| 0 <= j < out@.len() implies asm_matches(
                            #[trigger] out@[j],
                            spec_arp_steps(notes, dur as u64, pause as u64)[j],
                        ) by {
                            lemma_arp_steps_index(notes, dur as u64, pause as u64, i as int);
                            if j >= before {
                                assert(asm_matches(out@[j],
                                    spec_note_steps(s@[i as int], dur as u64,
                                        pause as u64)[j - before]));
                                assert(spec_arp_steps(notes, dur as u64, pause as u64)[j]
                                    == spec_note_steps(notes[i as int], dur as u64,
                                        pause as u64)[j - before]);
                            }
                        }
                    }
                    i = i + 1;
                }
                proof {
                    lemma_arp_steps_len(notes, dur as u64, pause as u64);
                    assert(out@.len() == spec_steps_of(self.model()).len());
                    assert(forall|j: int| 0 <= j < out@.len()
                        ==> asm_matches(#[trigger] out@[j], spec_steps_of(self.model())[j]));
                }
            },
        }
        out
    }
}

/// Chord steps are six per note plus a final rest of two.
proof fn lemma_chord_steps_len(notes: Seq<u64>, dur_us: u64, pause_us: u64)
    ensures
        spec_chord_steps(notes, dur_us, pause_us).len() == 6 * notes.len() + 2,
    decreases notes.len(),
{
    if notes.len() > 0 {
        lemma_chord_steps_len(notes.drop_first(), dur_us, pause_us);
    }
}

/// The chord step at an offset within the group of note `i`.
proof fn lemma_chord_steps_index(notes: Seq<u64>, dur_us: u64, pause_us: u64, i: int)
    requires
        0 <= i < notes.len(),
    ensures
        forall|j: int| 0 <= j < 6
            ==> spec_chord_steps(notes, dur_us, pause_us)[6 * i + j]
                == spec_note_steps(notes[i], dur_us, 0)[j],
    decreases i,
{
    lemma_chord_steps_len(notes.drop_first(), dur_us, pause_us);
    if i == 0 {
        assert forall|j: int| 0 <= j < 6
            implies spec_chord_steps(notes, dur_us, pause_us)[j]
                == spec_note_steps(notes[0], dur_us, 0)[j]
        by {
            assert(spec_note_steps(notes[0], dur_us, 0).take(6)[j]
                == spec_note_steps(notes[0], dur_us, 0)[j]);
        }
    } else {
        lemma_chord_steps_index(notes.drop_first(), dur_us, pause_us, i - 1);
        assert(notes.drop_first()[i - 1] == notes[i]);
        assert forall|j: int| 0 <= j < 6
            implies spec_chord_steps(notes, dur_us, pause_us)[6 * i + j]
                == spec_note_steps(notes[i], dur_us, 0)[j]
        by {
            assert(6 * i + j - 6 == 6 * (i - 1) + j);
            assert(spec_chord_steps(notes, dur_us, pause_us)[6 * i + j]
                == spec_chord_steps(notes.drop_first(), dur_us, pause_us)[6 * (i - 1) + j]);
        }
    }
}

/// The final two chord steps rest for the shared pause.
proof fn lemma_chord_steps_tail(notes: Seq<u64>, dur_us: u64, pause_us: u64)
    ensures
        spec_chord_steps(notes, dur_us, pause_us)[6 * notes.len() as int]
            == AsmStep::PushInt(pause_us as i64),
        spec_chord_steps(notes, dur_us, pause_us)[6 * notes.len() as int + 1]
            == AsmStep::CallSleep,
    decreases notes.len(),
{
    lemma_chord_steps_len(notes, dur_us, pause_us);
    if notes.len() > 0 {
        lemma_chord_steps_tail(notes.drop_first(), dur_us, pause_us);
        lemma_chord_steps_len(notes.drop_first(), dur_us, pause_us);
        assert(6 * notes.len() as int - 6 == 6 * notes.drop_first().len() as int);
    }
}

/// Arpeggio steps are eight per note.
proof fn lemma_arp_steps_len(notes: Seq<u64>, dur_us: u64, pause_us: u64)
    ensures
        spec_arp_steps(notes, dur_us, pause_us).len() == 8 * notes.len(),
    decreases notes.len(),
{
    if notes.len() > 0 {
        lemma_arp_steps_len(notes.drop_first(), dur_us, pause_us);
    }
}

/// The arpeggio step at an offset within the group of note `i`.
proof fn lemma_arp_steps_index(notes: Seq<u64>, dur_us: u64, pause_us: u64, i: int)
    requires
        0 <= i < notes.len(),
    ensures
        forall|j: int| 0 <= j < 8
            ==> spec_arp_steps(notes, dur_us, pause_us)[8 * i + j]
                == spec_note_steps(notes[i], dur_us, pause_us)[j],
    decreases i,
{
    lemma_arp_steps_len(notes.drop_first(), dur_us, pause_us);
    if i == 0 {
    } else {
        lemma_arp_steps_index(notes.drop_first(), dur_us, pause_us, i - 1);
        assert(notes.drop_first()[i - 1] == notes[i]);
        assert forall|j: int| 0 <= j < 8
            implies spec_arp_steps(notes, dur_us, pause_us)[8 * i + j]
                == spec_note_steps(notes[i], dur_us, pause_us)[j]
        by {
            assert(8 * i + j - 8 == 8 * (i - 1) + j);
            assert(spec_arp_steps(notes, dur_us, pause_us)[8 * i + j]
                == spec_arp_steps(notes.drop_first(), dur_us, pause_us)[8 * (i - 1) + j]);
        }
    }
}

impl Prog {
    /// Assemble the whole program.
    pub fn as_asm(&self) -> (r: Program)
        requires
            self.wf(),
    {
        let mut out: Vec<ControlASM> = Vec::new();
        let n = self.instructions.len();
        let mut i: usize = 0;
        while i < n
            invariant
                i <= n,
                n == self.instructions@.len(),
                self.wf(),
            decreases n - i,
        {
            let mut part = self.instructions[i].as_asm();
            if out.len() as u128 + part.len() as u128 <= usize::MAX as u128 {
                out.append(&mut part);
            }
            i = i + 1;
        }
        out
    }
}

/// Compile a script of the built-in language into a machine program. Only
/// the language the engine ships is accepted; anything else is a compile
/// error, as is ill-formed text.
pub fn compile_script(s: &crate::scene::Script) -> (r: Result<Program, ErrorKind>)
    ensures
        (r is Ok) ==> s.lang@ == "dummy"@
            && spec_parse_tokens(spec_tokenize(s.content@)) is Some,
        (r is Err) ==> (s.lang@ != "dummy"@
            || spec_parse_tokens(spec_tokenize(s.content@)) is None),
{
    if !s.lang.eq(&String::from_str("dummy")) {
        return Err(ErrorKind::CompileError);
    }
    match compile(s.content.as_str()) {
        Err(e) => Err(e),
        Ok(p) => Ok(p.as_asm()),
    }
}


// ---------------------------------------------------------------------------
// The stable printed form.

/// Print the tokens of one statement.
fn print_inst_tokens(inst: &Inst) -> (r: Vec<Vec<char>>)
    requires
        inst.wf(),
    ensures
        r@.map_values(|t: Vec<char>| t@) == inst.model().print(),
{
    let (letter, nums): (char, &Vec<u64>) = match inst {
        Inst::EventPlayNote(s) => ('N', s),
        Inst::EventPlayChord(s) => ('C', s),
        Inst::EventPlayArpeggio(s) => ('A', s),
    };
    let mut r: Vec<Vec<char>> = Vec::new();
    let mut lv: Vec<char> = Vec::new();
    lv.push(letter);
    r.push(lv);
    let n = nums.len();
    let mut i: usize = 0;
    while i < n
        invariant
            i <= n,
            n == nums@.len(),
            r@.len() == 1 + i,
            forall|j: int| 0 <= j < i
                ==> (#[trigger] r@[1 + j])@ == dec_chars_of(nums@[j] as int),
            r@[0]@ =~= seq![(match inst {
                Inst::EventPlayNote(_) => 'N',
                Inst::EventPlayChord(_) => 'C',
                Inst::EventPlayArpeggio(_) => 'A',
            })],
            (match inst {
                Inst::EventPlayNote(s2) => s2 == nums,
                Inst::EventPlayChord(s2) => s2 == nums,
                Inst::EventPlayArpeggio(s2) => s2 == nums,
            }),
        decreases n - i,
    {
        r.push(dec_chars(nums[i]));
        i = i + 1;
    }
    proof {
        reveal_strlit("N");
        reveal_strlit("C");
        reveal_strlit("A");
        let m = inst.model();
        assert(r@.map_values(|t: Vec<char>| t@) =~= m.print()) by {
            assert(r@.map_values(|t: Vec<char>| t@).len() == m.print().len());
            assert forall|j: int| 0 <= j < r@.len()
                implies (#[trigger] r@[j])@ == m.print()[j]
            by {
                if j == 0 {
                } else {
                    let jj = j - 1;
                    assert(r@[1 + jj]@ == dec_chars_of(m.nums()[jj] as int));
                    assert(m.print()[j] == m.nums().map_values(
                        |nn: u64| dec_chars_of(nn as int))[jj]);
                }
            }
        }
    }
    r
}

/// Print the tokens of the statements from `from` on.
fn print_tokens_from(insts: &Vec<Inst>, from: usize) -> (r: Vec<Vec<char>>)
    requires
        from <= insts@.len(),
        forall|i: int| 0 <= i < insts@.len() ==> (#[trigger] insts@[i]).wf(),
    ensures
        r@.map_values(|t: Vec<char>| t@) == spec_print_models(
            insts@.map_values(|i: Inst| i.model()).skip(from as int)),
    decreases insts@.len() - from,
{
    let ghost mv = insts@.map_values(|i: Inst| i.model());
    if from == insts.len() {
        let r: Vec<Vec<char>> = Vec::new();
        proof {
            assert(mv.skip(from as int).len() == 0);
            assert(r@.map_values(|t: Vec<char>| t@) =~= spec_print_models(mv.skip(from as int)));
        }
        return r;
    }
    let mut r = print_inst_tokens(&insts[from]);
    let ghost head_view = r@;
    let mut rest = print_tokens_from(insts, from + 1);
    let ghost rest_view = rest@;
    r.append(&mut rest);
    proof {
        assert(mv.skip(from as int)[0] == insts@[from as int].model());
        assert(mv.skip(from as int).drop_first() =~= mv.skip(from + 1));
        assert(r@ =~= head_view + rest_view);
        assert(r@.map_values(|t: Vec<char>| t@)
            =~= head_view.map_values(|t: Vec<char>| t@)
                + rest_view.map_values(|t: Vec<char>| t@));
        assert(r@.map_values(|t: Vec<char>| t@) =~= spec_print_models(mv.skip(from as int)));
    }
    r
}

/// Join the tokens from `from` on with single spaces.
fn join_tokens(ts: &Vec<Vec<char>>, from: usize) -> (r: Vec<char>)
    requires
        from <= ts@.len(),
    ensures
        r@ == spec_join(ts@.map_values(|t: Vec<char>| t@).skip(from as int)),
    decreases ts@.len() - from,
{
    let ghost tv = ts@.map_values(|t: Vec<char>| t@);
    if from == ts.len() {
        let r: Vec<char> = Vec::new();
        proof {
            assert(tv.skip(from as int).len() == 0);
            assert(r@ =~= spec_join(tv.skip(from as int)));
        }
        return r;
    }
    let mut r = copy_span(&ts[from], 0, ts[from].len());
    proof {
        assert(ts@[from as int]@.subrange(0, ts@[from as int]@.len() as int)
            =~= ts@[from as int]@);
        assert(tv.skip(from as int)[0] == ts@[from as int]@);
        assert(tv.skip(from as int).drop_first() =~= tv.skip(from + 1));
    }
    if from + 1 == ts.len() {
        proof {
            assert(tv.skip(from as int).len() == 1);
            assert(r@ =~= spec_join(tv.skip(from as int)));
        }
        return r;
    }
    r.push(' ');
    let mut rest = join_tokens(ts, from + 1);
    let ghost mid = r@;
    let ghost rest_view = rest@;
    r.append(&mut rest);
    proof {
        assert(r@ =~= ts@[from as int]@ + seq![' '] + rest_view);
        assert(r@ =~= spec_join(tv.skip(from as int)));
    }
    r
}

impl Prog {
    /// The stable printed form of the program: each statement's letter and
    /// numbers, all separated by single spaces. Compiling the result gives
    /// back an equivalent program.
    pub fn disassemble(&self) -> (r: String)
        requires
            self.wf(),
        ensures
            r@ == spec_join(spec_print_models(
                self.instructions@.map_values(|i: Inst| i.model()))),
    {
        let tokens = print_tokens_from(&self.instructions, 0);
        proof {
            assert(self.instructions@.map_values(|i: Inst| i.model()).skip(0)
                =~= self.instructions@.map_values(|i: Inst| i.model()));
            assert(tokens@.map_values(|t: Vec<char>| t@).skip(0)
                =~= tokens@.map_values(|t: Vec<char>| t@));
        }
        let chars = join_tokens(&tokens, 0);
        chars_to_string(&chars)
    }
}

// ---------------------------------------------------------------------------
// Law: the printed form reads back as the same program.

/// A printed letter or numeral is a printable token, and a numeral is a
/// numeric token reading back its number.
proof fn lemma_print_inst_tokens_wf(m: InstModel)
    requires
        m.wf(),
    ensures
        m.print().len() == 1 + m.nums().len(),
        forall|j: int| 0 <= j < m.print().len() ==> tok_wf(#[trigger] m.print()[j]),
        !tok_is_num(m.print()[0]),
        m.print()[0] == "N"@ || m.print()[0] == "C"@ || m.print()[0] == "A"@,
        (m is Note) ==> m.print()[0] == "N"@,
        (m is Chord) ==> m.print()[0] == "C"@,
        (m is Arp) ==> m.print()[0] == "A"@,
        forall|j: int| 1 <= j < m.print().len()
            ==> tok_is_num(#[trigger] m.print()[j])
                && dec_val(m.print()[j]) == m.nums()[j - 1],
{
    reveal_strlit("N");
    reveal_strlit("C");
    reveal_strlit("A");
    let p = m.print();
    assert(p[0] == "N"@ || p[0] == "C"@ || p[0] == "A"@);
    assert(tok_wf(p[0])) by {
        assert(p[0].len() == 1);
        assert(p[0][0] == 'N' || p[0][0] == 'C' || p[0][0] == 'A');
    }
    assert(!tok_is_num(p[0])) by {
        assert(!is_dec_digit(p[0][0]));
    }
    assert forall|j: int| 1 <= j < p.len()
        implies tok_is_num(#[trigger] p[j]) && dec_val(p[j]) == m.nums()[j - 1]
            && tok_wf(p[j])
    by {
        let n = m.nums()[j - 1];
        assert(p[j] == dec_chars_of(n as int));
        lemma_dec_chars_roundtrip(n as int);
        assert(n <= MAX_DUMMY_VALUE);
        assert(tok_wf(p[j])) by {
            assert(forall|c: int| 0 <= c < p[j].len()
                ==> is_dec_digit(#[trigger] p[j][c]) && p[j][c] != ' ');
        }
    }
}

/// The leading non-space run of a token followed by a space or the end is
/// the whole token.
proof fn lemma_run_of_token(t: Seq<char>, rest: Seq<char>)
    requires
        tok_wf(t),
        rest.len() == 0 || rest[0] == ' ',
    ensures
        spec_nonspace_run(t + rest) == t.len(),
    decreases t.len(),
{
    let s = t + rest;
    assert(s[0] == t[0]);
    assert(t[0] != ' ');
    if t.len() == 1 {
        assert(s.drop_first() =~= rest);
        assert(spec_nonspace_run(s) == 1 + spec_nonspace_run(s.drop_first()));
        if rest.len() > 0 {
            assert(spec_nonspace_run(rest) == 0);
        } else {
            assert(spec_nonspace_run(rest) == 0);
        }
    } else {
        let t2 = t.drop_first();
        assert(tok_wf(t2)) by {
            assert(forall|i: int| 0 <= i < t2.len() ==> (#[trigger] t2[i]) == t[i + 1]);
        }
        lemma_run_of_token(t2, rest);
        assert(s.drop_first() =~= t2 + rest);
        assert(spec_nonspace_run(s) == 1 + spec_nonspace_run(s.drop_first()));
    }
}

/// Reading back the joined tokens gives the tokens.
pub proof fn lemma_tokenize_join(ts: Seq<Seq<char>>)
    requires
        forall|i: int| 0 <= i < ts.len() ==> tok_wf(#[trigger] ts[i]),
    ensures
        spec_tokenize(spec_join(ts)) == ts,
    decreases ts.len(),
{
    if ts.len() == 0 {
        assert(spec_tokenize(spec_join(ts)) =~= ts);
    } else if ts.len() == 1 {
        let t = ts[0];
        assert(spec_join(ts) == t);
        assert(t + Seq::<char>::empty() =~= t);
        lemma_run_of_token(t, Seq::empty());
        assert(spec_nonspace_run(t) == t.len());
        assert(t[0] != ' ');
        assert(spec_tokenize(t)
            == seq![t.take(spec_nonspace_run(t))] + spec_tokenize(t.skip(spec_nonspace_run(t))));
        assert(t.take(t.len() as int) =~= t);
        assert(t.skip(t.len() as int).len() == 0);
        assert(spec_tokenize(t.skip(t.len() as int)) =~= Seq::<Seq<char>>::empty());
        assert(spec_tokenize(spec_join(ts)) =~= ts);
    } else {
        let t = ts[0];
        let rest = ts.drop_first();
        let s = spec_join(ts);
        assert(s == t + seq![' '] + spec_join(rest));
        let tail = seq![' '] + spec_join(rest);
        assert(s =~= t + tail);
        assert(tail[0] == ' ');
        lemma_run_of_token(t, tail);
        assert(spec_nonspace_run(s) == t.len());
        assert(s[0] == t[0] && t[0] != ' ');
        assert(s.take(t.len() as int) =~= t);
        assert(s.skip(t.len() as int) =~= tail);
        assert(tail.drop_first() =~= spec_join(rest));
        assert(forall|i: int| 0 <= i < rest.len() ==> tok_wf(#[trigger] rest[i]));
        lemma_tokenize_join(rest);
        assert(spec_tokenize(s)
            == seq![s.take(spec_nonspace_run(s))] + spec_tokenize(s.skip(spec_nonspace_run(s))));
        assert(spec_tokenize(tail) == spec_tokenize(tail.drop_first()));
        assert(spec_tokenize(tail) == rest);
        assert(spec_tokenize(s.skip(t.len() as int)) == rest);
        assert(spec_tokenize(s) =~= seq![t] + rest);
        assert(seq![t] + rest =~= ts);
    }
}

/// A run of numeric tokens followed by a non-numeric token (or nothing) has
/// exactly its own length.
proof fn lemma_num_run_concat(a: Seq<Seq<char>>, b: Seq<Seq<char>>)
    requires
        forall|i: int| 0 <= i < a.len() ==> tok_is_num(#[trigger] a[i]),
        b.len() == 0 || !tok_is_num(b[0]),
    ensures
        spec_num_run(a + b) == a.len(),
    decreases a.len(),
{
    if a.len() == 0 {
        assert(a + b =~= b);
    } else {
        assert((a + b)[0] == a[0]);
        assert((a + b).drop_first() =~= a.drop_first() + b);
        assert(forall|i: int| 0 <= i < a.drop_first().len()
            ==> tok_is_num(#[trigger] a.drop_first()[i]));
        lemma_num_run_concat(a.drop_first(), b);
    }
}

/// Reading the numbers of a printed numeral run gives the numbers back.
proof fn lemma_nums_of_print(nums: Seq<u64>, b: Seq<Seq<char>>)
    requires
        forall|i: int| 0 <= i < nums.len() ==> (#[trigger] nums[i]) <= MAX_DUMMY_VALUE,
    ensures
        spec_nums_of(nums.map_values(|n: u64| dec_chars_of(n as int)) + b, nums.len() as int)
            == nums,
    decreases nums.len(),
{
    let a = nums.map_values(|n: u64| dec_chars_of(n as int));
    if nums.len() == 0 {
        assert(spec_nums_of(a + b, 0) =~= nums);
    } else {
        assert((a + b)[0] == dec_chars_of(nums[0] as int));
        lemma_dec_chars_roundtrip(nums[0] as int);
        assert(dec_val((a + b)[0]) == nums[0]);
        let nums2 = nums.drop_first();
        assert((a + b).drop_first() =~= nums2.map_values(|n: u64| dec_chars_of(n as int)) + b);
        lemma_nums_of_print(nums2, b);
        assert(spec_nums_of(a + b, nums.len() as int)
            =~= seq![nums[0]] + nums2);
        assert(seq![nums[0]] + nums2 =~= nums);
    }
}

/// Reading back the printed tokens gives the statements.
pub proof fn lemma_parse_print_models(ms: Seq<InstModel>)
    requires
        forall|i: int| 0 <= i < ms.len() ==> (#[trigger] ms[i]).wf(),
    ensures
        spec_parse_tokens(spec_print_models(ms)) == Some(ms),
    decreases ms.len(),
{
    if ms.len() == 0 {
        assert(spec_parse_tokens(spec_print_models(ms)) =~= Some(ms));
    } else {
        let m = ms[0];
        lemma_print_inst_tokens_wf(m);
        let head = m.print();
        let rest = spec_print_models(ms.drop_first());
        let ts = head + rest;
        assert(spec_print_models(ms) == ts);
        assert(ts[0] == head[0]);
        let nums_toks = m.nums().map_values(|n: u64| dec_chars_of(n as int));
        assert(ts.drop_first() =~= nums_toks + rest);
        // The numeric run after the letter is exactly the statement's
        // numbers: the next statement's letter (when any) is not numeric.
        assert(forall|i: int| 0 <= i < nums_toks.len()
            ==> tok_is_num(#[trigger] nums_toks[i])) by {
            assert(forall|i: int| 0 <= i < nums_toks.len()
                ==> #[trigger] nums_toks[i] == head[i + 1]);
        }
        if ms.len() > 1 {
            lemma_print_inst_tokens_wf(ms[1]);
            assert(rest == ms[1].print() + spec_print_models(ms.drop_first().drop_first())) by {
                assert(ms.drop_first()[0] == ms[1]);
                assert(ms.drop_first().drop_first() =~= ms.skip(2));
            }
            assert(rest[0] == ms[1].print()[0]);
            assert(!tok_is_num(rest[0]));
        } else {
            assert(ms.drop_first().len() == 0);
            assert(rest.len() == 0);
        }
        lemma_num_run_concat(nums_toks, rest);
        assert(spec_num_run(ts.drop_first()) == m.nums().len());
        lemma_nums_of_print(m.nums(), rest);
        assert(spec_nums_of(ts.drop_first(), m.nums().len() as int) == m.nums());
        assert(ts.drop_first().skip(m.nums().len() as int) =~= rest);
        assert(forall|i: int| 0 <= i < ms.drop_first().len()
            ==> (#[trigger] ms.drop_first()[i]).wf());
        lemma_parse_print_models(ms.drop_first());
        assert(spec_parse_tokens(rest) == Some(ms.drop_first()));
        match m {
            InstModel::Note(s) => {
                assert(ts[0] == "N"@);
                assert(1 <= m.nums().len() <= 3);
                assert(spec_parse_tokens(ts)
                    == Some(seq![InstModel::Note(m.nums())] + ms.drop_first()));
                assert(InstModel::Note(m.nums()) == m);
            },
            InstModel::Chord(s) => {
                assert(ts[0] == "C"@);
                reveal_strlit("N");
                reveal_strlit("C");
                assert(ts[0] != "N"@) by {
                    assert("C"@[0] == 'C' && "N"@[0] == 'N');
                }
                assert(3 <= m.nums().len() <= MAX_DUMMY_NUMS);
                assert(spec_parse_tokens(ts)
                    == Some(seq![InstModel::Chord(m.nums())] + ms.drop_first()));
                assert(InstModel::Chord(m.nums()) == m);
            },
            InstModel::Arp(s) => {
                assert(ts[0] == "A"@);
                reveal_strlit("N");
                reveal_strlit("C");
                reveal_strlit("A");
                assert(ts[0] != "N"@ && ts[0] != "C"@) by {
                    assert("A"@[0] == 'A' && "N"@[0] == 'N' && "C"@[0] == 'C');
                }
                assert(3 <= m.nums().len() <= MAX_DUMMY_NUMS);
                assert(spec_parse_tokens(ts)
                    == Some(seq![InstModel::Arp(m.nums())] + ms.drop_first()));
                assert(InstModel::Arp(m.nums()) == m);
            },
        }
        assert(seq![m] + ms.drop_first() =~= ms);
    }
}

/// The printed tokens of well-formed statements are printable tokens.
proof fn lemma_print_models_wf(ms: Seq<InstModel>)
    requires
        forall|i: int| 0 <= i < ms.len() ==> (#[trigger] ms[i]).wf(),
    ensures
        forall|i: int| 0 <= i < spec_print_models(ms).len()
            ==> tok_wf(#[trigger] spec_print_models(ms)[i]),
    decreases ms.len(),
{
    if ms.len() > 0 {
        lemma_print_inst_tokens_wf(ms[0]);
        lemma_print_models_wf(ms.drop_first());
        assert forall|i: int| 0 <= i < spec_print_models(ms).len()
            implies tok_wf(#[trigger] spec_print_models(ms)[i])
        by {
            let head = ms[0].print();
            if i < head.len() {
                assert(spec_print_models(ms)[i] == head[i]);
            } else {
                assert(spec_print_models(ms)[i]
                    == spec_print_models(ms.drop_first())[i - head.len()]);
            }
        }
    }
}

/// Law: the language has a stable printed form. Compiling the disassembly
/// of any well-formed program reads back the same statements.
pub proof fn lemma_compile_disassemble_roundtrip(ms: Seq<InstModel>)
    requires
        forall|i: int| 0 <= i < ms.len() ==> (#[trigger] ms[i]).wf(),
    ensures
        spec_parse_tokens(spec_tokenize(spec_join(spec_print_models(ms)))) == Some(ms),
{
    lemma_print_models_wf(ms);
    lemma_tokenize_join(spec_print_models(ms));
    lemma_parse_print_models(ms);
}

} // verus!
