//! A GW-BASIC program: its numbered lines kept in order, the flat list of
//! statements that execution walks ("real lines"), the table from line
//! numbers to real lines, and the control-flow bookkeeping of execution
//! (subroutine returns, `WHILE`/`WEND` pairs, `DATA` reading).

use vstd::prelude::*;
use std::collections::HashMap;
use crate::ast::int_text;
use crate::statements::{
    instr_view, line_text, GwGosub, GwGotoStat, GwIf, GwInstruction, GwNext, GwOnGoto, GwReturn,
    GwWend, InstrV, LineV, ProgramLine,
};

verus! {

broadcast use vstd::std_specs::hash::group_hash_axioms;

/// What an instruction is told when it is executed.
pub enum LineExecutionArgument {
    Empty,
    NextIteration,
    SubReturn,
    SupplyPendingResult(String),
}

/// An action that execution waits for.
#[derive(Debug, PartialEq, Eq, Structural, Clone, Copy)]
pub enum AsyncAction {
    ReadLine,
}

/// What executing an instruction asks for next.
pub enum InstructionResult {
    EvaluateNext,
    EvaluateLine(i16),
    EvaluateLineWithArg(i16, LineExecutionArgument),
    EvaluateEnd,
    EvaluateToError(String),
    RequestAsyncAction(AsyncAction),
}

/// Where a run of instructions stopped.
pub enum EvalFragmentAsyncResult {
    YieldToLine(usize, LineExecutionArgument),
    EvaluationEnd,
    ReadLine(usize),
}

/// The outcome of the last executed step.
pub struct StepExecutionInfo {
    pub last_step_result: InstructionResult,
}

/// A statement of the program: the line it is on (an index into the
/// program's lines) and its place there (0 for the first statement, `k`
/// for the `k`-th one after a `:`).
#[derive(Debug, PartialEq, Eq, Structural, Clone, Copy)]
pub struct RealLine {
    pub line_index: usize,
    pub slot: usize,
}

/// A program: its lines in increasing order of their numbers, the real
/// lines that execution walks, and its `DATA` items.
pub struct GwProgram {
    pub lines: Vec<ProgramLine>,
    pub real_lines: Vec<RealLine>,
    pub data: Vec<String>,
}

/// The control-flow part of an evaluation context: the table from line
/// numbers to real lines, the `WHILE`/`WEND` pairs found so far, the `DATA`
/// read position, the return stack of `GOSUB`, and the current real line.
pub struct ControlState {
    pub jump_table: HashMap<i16, i16>,
    pub pair_instruction_table: HashMap<i16, i16>,
    pub data_position: i32,
    pub subroutine_stack: Vec<i16>,
    pub current_real_line: i32,
}

// ----- the program's lines -----

/// The values of the program's lines.
pub open spec fn lines_view(s: Seq<ProgramLine>) -> Seq<LineV> {
    s.map_values(|l: ProgramLine| l@)
}

/// Line numbers strictly increasing.
pub open spec fn sorted_lines(s: Seq<LineV>) -> bool {
    forall|i: int, j: int| 0 <= i < j < s.len() ==> s[i].line < s[j].line
}

/// The position of the first line whose number is not below `n`.
pub open spec fn insert_position(s: Seq<LineV>, n: i16) -> nat
    decreases s.len(),
{
    if s.len() == 0 {
        0
    } else if s[0].line >= n {
        0
    } else {
        1 + insert_position(s.drop_first(), n)
    }
}

/// The lines after adding `l`: it replaces the line of the same number,
/// or goes before the first line with a greater number.
pub open spec fn add_line_spec(s: Seq<LineV>, l: LineV) -> Seq<LineV> {
    let i = insert_position(s, l.line) as int;
    if i < s.len() && s[i].line == l.line {
        s.update(i, l)
    } else {
        s.insert(i, l)
    }
}

/// The position where a line numbered `n` goes in ordered lines: every
/// line before it has a smaller number, the one at it a number not smaller.
pub proof fn lemma_insert_position(s: Seq<LineV>, n: i16)
    ensures
        insert_position(s, n) <= s.len(),
        forall|j: int| 0 <= j < insert_position(s, n) ==> s[j].line < n,
        insert_position(s, n) < s.len() ==> s[insert_position(s, n) as int].line >= n,
    decreases s.len(),
{
    if s.len() > 0 && s[0].line < n {
        lemma_insert_position(s.drop_first(), n);
        assert forall|j: int| 0 <= j < insert_position(s, n) implies s[j].line < n by {
            if j > 0 {
                assert(s[j] == s.drop_first()[j - 1]);
            }
        }
    }
}

// ----- real lines -----

/// Number of statements after the first one on a line.
pub open spec fn rest_len(l: LineV) -> nat {
    match l.rest {
        Some(r) => r.len(),
        None => 0,
    }
}

/// The real lines of the line at index `i`.
pub open spec fn line_positions(i: int, l: LineV) -> Seq<RealLine> {
    Seq::new(1 + rest_len(l), |k: int| RealLine { line_index: i as usize, slot: k as usize })
}

/// The real lines of a program: the statements of each line in order.
pub open spec fn flatten(s: Seq<LineV>) -> Seq<RealLine>
    decreases s.len(),
{
    if s.len() == 0 {
        seq![]
    } else {
        flatten(s.drop_last()) + line_positions(s.len() - 1, s.last())
    }
}

/// The table from line numbers to the real line of each line's first
/// statement (a later line of the same number wins).
pub open spec fn jump_map(s: Seq<LineV>) -> Map<i16, i16>
    decreases s.len(),
{
    if s.len() == 0 {
        Map::empty()
    } else {
        jump_map(s.drop_last()).insert(s.last().line, flatten(s.drop_last()).len() as i16)
    }
}

/// The statement a real line refers to.
pub open spec fn instr_at(s: Seq<LineV>, r: RealLine) -> InstrV {
    let l = s[r.line_index as int];
    if r.slot == 0 {
        l.instr
    } else {
        l.rest->0[r.slot - 1]
    }
}

/// Whether a real line refers to a statement of the program.
pub open spec fn valid_real_line(s: Seq<LineV>, r: RealLine) -> bool {
    &&& r.line_index < s.len()
    &&& r.slot <= rest_len(s[r.line_index as int])
}

impl GwProgram {
    /// The values of the program's lines.
    pub open spec fn lines_v(&self) -> Seq<LineV> {
        lines_view(self.lines@)
    }

    /// The statements of the program's real lines, in order.
    pub open spec fn real_instrs(&self) -> Seq<InstrV> {
        self.real_lines@.map_values(|r: RealLine| instr_at(self.lines_v(), r))
    }

    /// Every real line refers to a statement of the program.
    pub open spec fn wf(&self) -> bool {
        forall|i: int| 0 <= i < self.real_lines@.len() ==> valid_real_line(
            self.lines_v(),
            #[trigger] self.real_lines@[i],
        )
    }

    /// An empty program.
    pub fn new() -> (p: GwProgram)
        ensures
            p.lines@.len() == 0,
            p.real_lines@.len() == 0,
            p.data@.len() == 0,
            p.wf(),
    {
        GwProgram { lines: Vec::new(), real_lines: Vec::new(), data: Vec::new() }
    }

    /// Adds a line: it replaces the line with the same number, or is put
    /// before the first line with a greater number.
    pub fn add_line(&mut self, new_line: ProgramLine)
        ensures
            final(self).lines_v() == add_line_spec(old(self).lines_v(), new_line@),
            final(self).real_lines@ == old(self).real_lines@,
            final(self).data@ == old(self).data@,
    {
        let ghost s = self.lines_v();
        let ghost l = new_line@;
        proof {
            lemma_insert_position(s, l.line);
        }
        let mut i: usize = 0;
        while i < self.lines.len()
            invariant
                i <= self.lines@.len(),
                self.lines_v() == s,
                self.real_lines@ == old(self).real_lines@,
                self.data@ == old(self).data@,
                s == old(self).lines_v(),
                l == new_line@,
                forall|j: int| 0 <= j < i ==> s[j].line < l.line,
                insert_position(s, l.line) <= s.len(),
                forall|j: int| 0 <= j < insert_position(s, l.line) ==> s[j].line < l.line,
                insert_position(s, l.line) < s.len() ==> s[insert_position(s, l.line) as int].line
                    >= l.line,
            decreases self.lines@.len() - i,
        {
            assert(s[i as int] == self.lines@[i as int]@);
            if new_line.get_line() == self.lines[i].get_line() {
                assert(insert_position(s, l.line) == i);
                self.lines.set(i, new_line);
                assert(self.lines_v() =~= s.update(i as int, l));
                return ;
            } else if new_line.get_line() < self.lines[i].get_line() {
                assert(insert_position(s, l.line) == i);
                self.lines.insert(i, new_line);
                assert(self.lines_v() =~= s.insert(i as int, l));
                return ;
            }
            i = i + 1;
        }
        assert(insert_position(s, l.line) == s.len());
        self.lines.push(new_line);
        assert(self.lines_v() =~= s.insert(s.len() as int, l));
    }

    /// The structure text of each line, in order.
    pub fn list_lines(&self) -> (r: Vec<String>)
        ensures
            r@.len() == self.lines@.len(),
            forall|i: int| 0 <= i < r@.len() ==> #[trigger] r@[i]@ == line_text(self.lines_v()[i]),
    {
        let mut r: Vec<String> = Vec::new();
        let mut i: usize = 0;
        while i < self.lines.len()
            invariant
                i <= self.lines@.len(),
                r@.len() == i,
                forall|j: int| 0 <= j < i ==> #[trigger] r@[j]@ == line_text(self.lines_v()[j]),
            decreases self.lines@.len() - i,
        {
            let mut text = String::new();
            self.lines[i].fill_structure_string(&mut text);
            r.push(text);
            i = i + 1;
        }
        r
    }

    /// The statement a real line refers to.
    pub fn instruction_at(&self, position: RealLine) -> (r: &GwInstruction)
        requires
            valid_real_line(self.lines_v(), position),
        ensures
            r@ == instr_at(self.lines_v(), position),
    {
        let line = &self.lines[position.line_index];
        if position.slot == 0 {
            &line.instruction
        } else {
            match &line.rest_instructions {
                Some(rest) => {
                    proof {
                        crate::statements::lemma_instrs_view(rest@);
                    }
                    assert(self.lines_v()[position.line_index as int] == line@);
                    assert(rest@.len() == rest_len(self.lines_v()[position.line_index as int]));
                    &rest[position.slot - 1]
                },
                None => {
                    assert(false);
                    &line.instruction
                },
            }
        }
    }

    /// Appends the program's statements, line by line, to the real lines,
    /// and returns a fresh control state whose jump table maps each line
    /// number to the index (counted from 0) of its first statement.
    pub fn prepare_context(&mut self) -> (ctx: ControlState)
        requires
            flatten(old(self).lines_v()).len() <= 32767,
        ensures
            final(self).lines@ == old(self).lines@,
            final(self).data@ == old(self).data@,
            final(self).real_lines@ == old(self).real_lines@ + flatten(old(self).lines_v()),
            old(self).wf() ==> final(self).wf(),
            ctx.jump_table@ == jump_map(old(self).lines_v()),
            ctx.pair_instruction_table@ == Map::<i16, i16>::empty(),
            ctx.data_position == -1,
            ctx.subroutine_stack@.len() == 0,
            ctx.current_real_line == -1,
    {
        let ghost s = self.lines_v();
        let ghost r0 = self.real_lines@;
        let mut table: HashMap<i16, i16> = HashMap::new();
        let mut i: i16 = 0;
        let mut li: usize = 0;
        proof {
            lemma_flatten_prefix_bound(s, 0);
        }
        while li < self.lines.len()
            invariant
                li <= self.lines@.len(),
                s == self.lines_v(),
                self.lines@ == old(self).lines@,
                self.data@ == old(self).data@,
                s.len() == self.lines@.len(),
                flatten(s).len() <= 32767,
                self.real_lines@ == r0 + flatten(s.take(li as int)),
                r0 == old(self).real_lines@,
                i == flatten(s.take(li as int)).len(),
                table@ == jump_map(s.take(li as int)),
            decreases self.lines@.len() - li,
        {
            let ghost before = self.real_lines@;
            let ghost lv = s[li as int];
            proof {
                lemma_flatten_prefix_bound(s, li as int + 1);
                assert(s.take(li + 1).drop_last() =~= s.take(li as int));
                assert(s.take(li + 1).last() == lv);
            }
            let e = &self.lines[li];
            assert(e@ == lv);
            table.insert(e.get_line(), i);
            self.real_lines.push(RealLine { line_index: li, slot: 0 });
            i = i + 1;
            if let Some(rest) = &e.rest_instructions {
                let mut k: usize = 0;
                proof {
                    crate::statements::lemma_instrs_view(rest@);
                }
                while k < rest.len()
                    invariant
                        k <= rest@.len(),
                        rest_len(lv) == rest@.len(),
                        self.real_lines@ == before + line_positions(li as int, lv).take(k + 1),
                        i == flatten(s.take(li as int)).len() + k + 1,
                        flatten(s.take(li + 1)).len() <= 32767,
                        flatten(s.take(li + 1)) == flatten(s.take(li as int)) + line_positions(
                            li as int,
                            lv,
                        ),
                        self.lines@ == old(self).lines@,
                        self.data@ == old(self).data@,
                    decreases rest@.len() - k,
                {
                    self.real_lines.push(RealLine { line_index: li, slot: k + 1 });
                    assert(line_positions(li as int, lv).take(k + 2) =~= line_positions(
                        li as int,
                        lv,
                    ).take(k + 1).push(RealLine { line_index: li, slot: (k + 1) as usize }));
                    i = i + 1;
                    k = k + 1;
                }
                assert(line_positions(li as int, lv).take(rest@.len() + 1 as int) =~= line_positions(
                    li as int,
                    lv,
                ));
            } else {
                assert(line_positions(li as int, lv) =~= seq![
                    RealLine { line_index: li, slot: 0 },
                ]);
                assert(line_positions(li as int, lv).take(1) =~= line_positions(li as int, lv));
            }
            assert(self.real_lines@ =~= r0 + flatten(s.take(li + 1)));
            li = li + 1;
        }
        assert(s.take(s.len() as int) =~= s);
        proof {
            if old(self).wf() {
                lemma_flatten_valid(s);
                assert forall|j: int| 0 <= j < self.real_lines@.len() implies valid_real_line(
                    self.lines_v(),
                    #[trigger] self.real_lines@[j],
                ) by {
                    if j >= r0.len() {
                        assert(self.real_lines@[j] == flatten(s)[j - r0.len()]);
                    } else {
                        assert(self.real_lines@[j] == old(self).real_lines@[j]);
                    }
                }
            }
        }
        ControlState {
            jump_table: table,
            pair_instruction_table: HashMap::new(),
            data_position: -1,
            subroutine_stack: Vec::new(),
            current_real_line: -1,
        }
    }
}

/// Longer prefixes of the lines hold at least as many real lines.
pub proof fn lemma_flatten_len_mono(s: Seq<LineV>, a: int, b: int)
    requires
        0 <= a <= b <= s.len(),
    ensures
        flatten(s.take(a)).len() <= flatten(s.take(b)).len(),
    decreases b - a,
{
    if a < b {
        lemma_flatten_len_mono(s, a, b - 1);
        assert(s.take(b).drop_last() =~= s.take(b - 1));
    }
}

/// A prefix of the lines holds no more real lines than all of them.
pub proof fn lemma_flatten_prefix_bound(s: Seq<LineV>, a: int)
    requires
        0 <= a <= s.len(),
    ensures
        flatten(s.take(a)).len() <= flatten(s).len(),
{
    lemma_flatten_len_mono(s, a, s.len() as int);
    assert(s.take(s.len() as int) =~= s);
}

/// The lines hold at least one real line each, and at least as many as
/// any one line holds.
pub proof fn lemma_flatten_len_bounds(s: Seq<LineV>)
    ensures
        flatten(s).len() >= s.len(),
        forall|i: int| 0 <= i < s.len() ==> flatten(s).len() >= 1 + rest_len(#[trigger] s[i]),
    decreases s.len(),
{
    if s.len() > 0 {
        let p = s.drop_last();
        lemma_flatten_len_bounds(p);
        assert forall|i: int| 0 <= i < s.len() implies flatten(s).len() >= 1 + rest_len(
            #[trigger] s[i],
        ) by {
            if i < p.len() {
                assert(s[i] == p[i]);
            }
        }
    }
}

/// Every real line of a program refers to one of its statements.
pub proof fn lemma_flatten_valid(s: Seq<LineV>)
    requires
        flatten(s).len() <= 32767,
    ensures
        forall|j: int| 0 <= j < flatten(s).len() ==> valid_real_line(s, #[trigger] flatten(s)[j]),
    decreases s.len(),
{
    if s.len() > 0 {
        let p = s.drop_last();
        lemma_flatten_len_bounds(s);
        lemma_flatten_valid(p);
        assert forall|j: int| 0 <= j < flatten(s).len() implies valid_real_line(
            s,
            #[trigger] flatten(s)[j],
        ) by {
            if j < flatten(p).len() {
                assert(flatten(s)[j] == flatten(p)[j]);
                assert(s[flatten(p)[j].line_index as int] == p[flatten(p)[j].line_index as int]);
            } else {
                assert(flatten(s)[j] == line_positions(s.len() - 1, s.last())[j - flatten(p).len()]);
            }
        }
    }
}

// ----- the control state -----

impl ControlState {
    /// A control state with empty tables and stack.
    pub fn new() -> (c: ControlState)
        ensures
            c.jump_table@ == Map::<i16, i16>::empty(),
            c.pair_instruction_table@ == Map::<i16, i16>::empty(),
            c.data_position == -1,
            c.subroutine_stack@.len() == 0,
            c.current_real_line == -1,
    {
        ControlState {
            jump_table: HashMap::new(),
            pair_instruction_table: HashMap::new(),
            data_position: -1,
            subroutine_stack: Vec::new(),
            current_real_line: -1,
        }
    }

    /// Everything but the return stack is as in `other`.
    pub open spec fn same_but_stack(&self, other: &ControlState) -> bool {
        &&& self.jump_table@ == other.jump_table@
        &&& self.pair_instruction_table@ == other.pair_instruction_table@
        &&& self.data_position == other.data_position
        &&& self.current_real_line == other.current_real_line
    }

    /// Records `line` as the place a `RETURN` goes back to.
    pub fn push_return(&mut self, line: i16)
        ensures
            final(self).subroutine_stack@ == old(self).subroutine_stack@.push(line),
            final(self).same_but_stack(old(self)),
    {
        self.subroutine_stack.push(line);
    }

    /// The place the last `GOSUB` recorded, taken off the stack.
    pub fn pop_return(&mut self) -> (r: Option<i16>)
        ensures
            old(self).subroutine_stack@.len() == 0 ==> r is None && final(self).subroutine_stack@
                == old(self).subroutine_stack@,
            old(self).subroutine_stack@.len() > 0 ==> r == Some(old(self).subroutine_stack@.last())
                && final(self).subroutine_stack@ == old(self).subroutine_stack@.drop_last(),
            final(self).same_but_stack(old(self)),
    {
        self.subroutine_stack.pop()
    }

    /// The real line of the first statement of line `referenced_line`.
    pub fn get_real_line(&self, referenced_line: i16) -> (r: Option<i16>)
        ensures
            r == (if self.jump_table@.contains_key(referenced_line) {
                Some(self.jump_table@[referenced_line])
            } else {
                None
            }),
    {
        match self.jump_table.get(&referenced_line) {
            Some(lin) => Some(*lin),
            None => None,
        }
    }

    /// Moves the `DATA` read position on and gives the item there.
    pub fn get_next_data_item<'a>(&mut self, program: &'a GwProgram) -> (r: Option<&'a String>)
        requires
            old(self).data_position < i32::MAX,
        ensures
            final(self).data_position == old(self).data_position + 1,
            final(self).subroutine_stack@ == old(self).subroutine_stack@,
            final(self).jump_table@ == old(self).jump_table@,
            final(self).pair_instruction_table@ == old(self).pair_instruction_table@,
            final(self).current_real_line == old(self).current_real_line,
            0 <= final(self).data_position < program.data@.len() ==> r == Some(
                &program.data@[final(self).data_position as int],
            ),
            !(0 <= final(self).data_position < program.data@.len()) ==> r is None,
    {
        self.data_position = self.data_position + 1;
        if self.data_position >= 0 && (self.data_position as usize) < program.data.len() {
            Some(&program.data[self.data_position as usize])
        } else {
            None
        }
    }
}

/// The outcome of a jump to line `destination`: its first statement's real
/// line, or an error when there is no such line.
pub fn calculate_jump_result(context: &ControlState, destination: &i16) -> (r: InstructionResult)
    ensures
        context.jump_table@.contains_key(*destination) ==> r == InstructionResult::EvaluateLine(
            context.jump_table@[*destination],
        ),
        !context.jump_table@.contains_key(*destination) ==> r is EvaluateToError
            && r->EvaluateToError_0@ == "Cannot find real line"@,
{
    if let Some(real_destination) = context.get_real_line(*destination) {
        InstructionResult::EvaluateLine(real_destination)
    } else {
        InstructionResult::EvaluateToError("Cannot find real line".to_owned())
    }
}

impl GwGosub {
    /// Executes `GOSUB` on real line `line`: coming back from the
    /// subroutine (`SubReturn`) it goes on with the next line; otherwise it
    /// records `line` for `RETURN` and jumps to the subroutine.
    pub fn eval(&self, line: i16, argument: &LineExecutionArgument, context: &mut ControlState) -> (r:
        InstructionResult)
        ensures
            final(context).same_but_stack(old(context)),
            *argument is SubReturn ==> r is EvaluateNext && final(context).subroutine_stack@
                == old(context).subroutine_stack@,
            !(*argument is SubReturn) && old(context).jump_table@.contains_key(self.line_number)
                ==> r == InstructionResult::EvaluateLine(old(context).jump_table@[self.line_number])
                && final(context).subroutine_stack@ == old(context).subroutine_stack@.push(line),
            !(*argument is SubReturn) && !old(context).jump_table@.contains_key(self.line_number)
                ==> r is EvaluateToError && r->EvaluateToError_0@ == "Unknown line"@
                && final(context).subroutine_stack@ == old(context).subroutine_stack@,
    {
        if let LineExecutionArgument::SubReturn = argument {
            InstructionResult::EvaluateNext
        } else {
            if let Some(real_line) = context.get_real_line(self.line_number) {
                context.push_return(line);
                InstructionResult::EvaluateLine(real_line)
            } else {
                InstructionResult::EvaluateToError("Unknown line".to_owned())
            }
        }
    }
}

impl GwReturn {
    /// Executes `RETURN`: goes back to the line the last `GOSUB` recorded,
    /// telling it that the subroutine has returned.
    pub fn eval(&self, context: &mut ControlState) -> (r: InstructionResult)
        ensures
            final(context).same_but_stack(old(context)),
            old(context).subroutine_stack@.len() > 0 ==> (r matches InstructionResult::EvaluateLineWithArg(
                l,
                LineExecutionArgument::SubReturn,
            ) && l == old(context).subroutine_stack@.last() && final(context).subroutine_stack@
                == old(context).subroutine_stack@.drop_last()),
            old(context).subroutine_stack@.len() == 0 ==> r is EvaluateToError
                && r->EvaluateToError_0@ == "RETURN: no place to return"@
                && final(context).subroutine_stack@ == old(context).subroutine_stack@,
    {
        if let Some(line_to_return) = context.pop_return() {
            InstructionResult::EvaluateLineWithArg(line_to_return, LineExecutionArgument::SubReturn)
        } else {
            InstructionResult::EvaluateToError("RETURN: no place to return".to_owned())
        }
    }
}

impl GwGotoStat {
    /// Executes `GOTO`: jumps to the first statement of the target line.
    pub fn eval(&self, context: &ControlState) -> (r: InstructionResult)
        requires
            context.jump_table@.contains_key(self.line),
        ensures
            r == InstructionResult::EvaluateLine(context.jump_table@[self.line]),
    {
        match context.get_real_line(self.line) {
            Some(actual_line) => InstructionResult::EvaluateLine(actual_line),
            None => InstructionResult::EvaluateEnd,
        }
    }
}

impl GwIf {
    /// The jump of an `IF ... THEN line` whose condition held.
    pub fn eval_taken(&self, context: &ControlState) -> (r: InstructionResult)
        requires
            context.jump_table@.contains_key(self.then_line),
        ensures
            r == InstructionResult::EvaluateLine(context.jump_table@[self.then_line]),
    {
        match context.get_real_line(self.then_line) {
            Some(real_line) => InstructionResult::EvaluateLine(real_line),
            None => InstructionResult::EvaluateEnd,
        }
    }
}

impl GwOnGoto {
    /// Executes `ON ... GOTO` once its expression has the integer value
    /// `value`: jumps to the `value`-th line of the list, or goes on with the
    /// next line when there is none.
    pub fn eval_with_value(&self, value: i16, context: &ControlState) -> (r: InstructionResult)
        requires
            value != 0,
        ensures
            1 <= value <= self.cases@.len() && context.jump_table@.contains_key(
                self.cases@[value - 1],
            ) ==> r == InstructionResult::EvaluateLine(context.jump_table@[self.cases@[value - 1]]),
            1 <= value <= self.cases@.len() && !context.jump_table@.contains_key(
                self.cases@[value - 1],
            ) ==> r is EvaluateToError && r->EvaluateToError_0@ == "Cannot find real line"@,
            !(1 <= value <= self.cases@.len()) ==> r is EvaluateNext,
    {
        if value > 0 && (value as usize) <= self.cases.len() {
            let destination = self.cases[(value - 1) as usize];
            calculate_jump_result(context, &destination)
        } else {
            InstructionResult::EvaluateNext
        }
    }
}

impl GwWend {
    /// Executes `WEND` on real line `line`: jumps back to its `WHILE`.
    pub fn eval(&self, line: i16, context: &ControlState) -> (r: InstructionResult)
        ensures
            context.pair_instruction_table@.contains_key(line) ==> r
                == InstructionResult::EvaluateLine(context.pair_instruction_table@[line]),
            !context.pair_instruction_table@.contains_key(line) ==> r is EvaluateToError
                && r->EvaluateToError_0@ == "WEND WITHOUT WHILE"@,
    {
        if let Some(corresponding_while) = context.pair_instruction_table.get(&line) {
            InstructionResult::EvaluateLine(*corresponding_while)
        } else {
            InstructionResult::EvaluateToError("WEND WITHOUT WHILE".to_owned())
        }
    }
}

impl GwNext {
    /// Executes `NEXT` on real line `line`: goes back to its `FOR` for the
    /// next iteration.
    pub fn eval(&self, line: i16, context: &ControlState) -> (r: InstructionResult)
        ensures
            context.pair_instruction_table@.contains_key(line) ==> (r matches InstructionResult::EvaluateLineWithArg(
                l,
                LineExecutionArgument::NextIteration,
            ) && l == context.pair_instruction_table@[line]),
            !context.pair_instruction_table@.contains_key(line) ==> r is EvaluateToError
                && r->EvaluateToError_0@ == "NEXT WITHOUT FOR"@,
    {
        if let Some(corresponding_for) = context.pair_instruction_table.get(&line) {
            InstructionResult::EvaluateLineWithArg(
                *corresponding_for,
                LineExecutionArgument::NextIteration,
            )
        } else {
            InstructionResult::EvaluateToError("NEXT WITHOUT FOR".to_owned())
        }
    }
}

// ----- pairing WHILE with WEND and FOR with NEXT -----

/// Scanning real lines from `j` on with `balance` unmatched openers seen:
/// the real line of the closer that matches, or -1.
pub open spec fn pair_scan(kinds: Seq<InstrV>, j: int, balance: int, wend: bool) -> int
    decreases kinds.len() - j,
{
    if j >= kinds.len() {
        -1
    } else if j < 0 {
        pair_scan(kinds, j + 1, balance, wend)
    } else {
        let k = kinds[j];
        let opens = if wend {
            k is While
        } else {
            k is For
        };
        let closes = if wend {
            k is Wend
        } else {
            k is Next
        };
        let b = if opens {
            balance + 1
        } else {
            balance
        };
        if closes {
            if b == 0 {
                j
            } else {
                pair_scan(kinds, j + 1, b - 1, wend)
            }
        } else {
            pair_scan(kinds, j + 1, b, wend)
        }
    }
}

/// The real line after `line` of the `WEND` (`wend`) or `NEXT` that closes
/// the `WHILE` or `FOR` of `line`, or -1.
fn find_closer(line: i16, program: &GwProgram, wend: bool) -> (r: i16)
    requires
        program.wf(),
        program.real_lines@.len() <= 32767,
        line < 32767,
    ensures
        r == pair_scan(program.real_instrs(), line + 1, 0, wend),
{
    let ghost kinds = program.real_instrs();
    let n = program.real_lines.len();
    let mut curr_line: i16 = line + 1;
    let mut balance: i32 = 0;
    loop
        invariant
            kinds == program.real_instrs(),
            n == program.real_lines@.len(),
            n <= 32767,
            program.wf(),
            line + 1 <= curr_line <= 32767,
            0 <= balance <= 32767,
            balance <= (if curr_line > 0 {
                curr_line as int
            } else {
                0
            }),
            pair_scan(kinds, curr_line as int, balance as int, wend) == pair_scan(
                kinds,
                line + 1,
                0,
                wend,
            ),
        decreases 32767 - curr_line,
    {
        if curr_line >= n as i16 {
            return -1;
        }
        if curr_line >= 0 {
            let instr = program.instruction_at(program.real_lines[curr_line as usize]);
            assert(instr@ == kinds[curr_line as int]);
            let opens = if wend {
                instr.is_while()
            } else {
                instr.is_for()
            };
            let closes = if wend {
                instr.is_wend()
            } else {
                instr.is_next()
            };
            if opens {
                balance = balance + 1;
            }
            if closes {
                if balance == 0 {
                    return curr_line;
                } else {
                    balance = balance - 1;
                }
            }
        }
        curr_line = curr_line + 1;
    }
}

/// The real line of the `WEND` that closes the `WHILE` of real line `line`,
/// or -1.
pub fn find_wend(line: i16, program: &GwProgram) -> (r: i16)
    requires
        program.wf(),
        program.real_lines@.len() <= 32767,
        line < 32767,
    ensures
        r == pair_scan(program.real_instrs(), line + 1, 0, true),
{
    find_closer(line, program, true)
}

/// The real line of the `NEXT` that closes the `FOR` of real line `line`,
/// or -1.
pub fn find_next(line: i16, program: &GwProgram) -> (r: i16)
    requires
        program.wf(),
        program.real_lines@.len() <= 32767,
        line < 32767,
    ensures
        r == pair_scan(program.real_instrs(), line + 1, 0, false),
{
    find_closer(line, program, false)
}

/// The closer paired with the opener on real line `line`: the one recorded
/// in the pair table, else the one `find_wend` (`wend`) or `find_next`
/// finds, which is then recorded in both directions. `None` when there is
/// none.
pub fn paired_line(line: i16, context: &mut ControlState, program: &GwProgram, wend: bool) -> (r:
    Option<i16>)
    requires
        program.wf(),
        program.real_lines@.len() <= 32767,
        line < 32767,
    ensures
        old(context).pair_instruction_table@.contains_key(line) ==> r == Some(
            old(context).pair_instruction_table@[line],
        ) && final(context).pair_instruction_table@ == old(context).pair_instruction_table@,
        !old(context).pair_instruction_table@.contains_key(line) ==> {
            let c = pair_scan(program.real_instrs(), line + 1, 0, wend);
            &&& c == -1 ==> r is None && final(context).pair_instruction_table@
                == old(context).pair_instruction_table@
            &&& c != -1 ==> r == Some(c as i16) && final(context).pair_instruction_table@
                == old(context).pair_instruction_table@.insert(line, c as i16).insert(
                c as i16,
                line,
            )
        },
        final(context).jump_table@ == old(context).jump_table@,
        final(context).subroutine_stack@ == old(context).subroutine_stack@,
        final(context).data_position == old(context).data_position,
        final(context).current_real_line == old(context).current_real_line,
{
    if let Some(corresponding) = context.pair_instruction_table.get(&line) {
        return Some(*corresponding);
    }
    let index = find_closer(line, program, wend);
    if index == -1 {
        None
    } else {
        context.pair_instruction_table.insert(line, index);
        context.pair_instruction_table.insert(index, line);
        Some(index)
    }
}

/// What a `WHILE` does once its closing `WEND` is on real line `wend_line`
/// and its condition evaluated to the integer `condition` (`None` for a
/// value of another type): past the `WEND` when the condition is 0, on with
/// the next line otherwise.
pub fn while_decision(wend_line: i16, condition: Option<i16>) -> (r: InstructionResult)
    requires
        wend_line < 32767,
    ensures
        condition == Some(0i16) ==> r == InstructionResult::EvaluateLine((wend_line + 1) as i16),
        condition is Some && condition != Some(0i16) ==> r is EvaluateNext,
        condition is None ==> r is EvaluateToError && r->EvaluateToError_0@ == "Type mismatch"@,
{
    match condition {
        Some(result) => if result == 0 {
            InstructionResult::EvaluateLine(wend_line + 1)
        } else {
            InstructionResult::EvaluateNext
        },
        None => InstructionResult::EvaluateToError("Type mismatch".to_owned()),
    }
}

/// Whether a `FOR` loop goes on after an iteration with counter `counter`:
/// the next counter, `counter + step`, stays within the limit on the side
/// the step points to (at most the limit for a step of zero or more, at
/// least the limit for a negative step).
pub open spec fn for_continues(counter: int, step: int, to_value: int) -> bool {
    if step >= 0 {
        counter + step <= to_value
    } else {
        counter + step >= to_value
    }
}

/// The counter of the next iteration of a `FOR` loop, or `None` when the
/// loop ends.
pub fn for_next_counter(counter: i16, step: i16, to_value: i16) -> (r: Option<i16>)
    ensures
        r is Some <==> for_continues(counter as int, step as int, to_value as int),
        r is Some ==> r->0 == counter + step,
{
    let next: i32 = counter as i32 + step as i32;
    if (step >= 0 && next <= to_value as i32) || (step < 0 && next >= to_value as i32) {
        Some(next as i16)
    } else {
        None
    }
}

// ----- running -----

/// Where execution goes after an instruction on real line `current_index`
/// gave `eval_result`.
pub enum FragmentStep {
    Continue(usize, LineExecutionArgument),
    End,
    Error(String),
    ReadLine(usize),
}

/// The next position of a run: the next real line, the real line asked
/// for (with its argument), the end, the error to report, or a wait for
/// an input line.
pub fn next_fragment_position(current_index: usize, eval_result: InstructionResult) -> (r:
    FragmentStep)
    requires
        current_index < usize::MAX,
        eval_result matches InstructionResult::EvaluateLine(n) ==> n >= 0,
        eval_result matches InstructionResult::EvaluateLineWithArg(n, _) ==> n >= 0,
    ensures
        eval_result is EvaluateNext ==> (r matches FragmentStep::Continue(
            i,
            LineExecutionArgument::Empty,
        ) && i == current_index + 1),
        eval_result matches InstructionResult::EvaluateLine(n) ==> (r matches FragmentStep::Continue(
            i,
            LineExecutionArgument::Empty,
        ) && i == n),
        eval_result matches InstructionResult::EvaluateLineWithArg(n, a) ==> (
        r matches FragmentStep::Continue(i, b) && i == n && b == a),
        eval_result is EvaluateEnd ==> r is End,
        eval_result matches InstructionResult::EvaluateToError(m) ==> (
        r matches FragmentStep::Error(e) && e == m),
        eval_result is RequestAsyncAction ==> r == FragmentStep::ReadLine(current_index),
{
    match eval_result {
        InstructionResult::EvaluateNext => FragmentStep::Continue(
            current_index + 1,
            LineExecutionArgument::Empty,
        ),
        InstructionResult::EvaluateLine(new_line) => FragmentStep::Continue(
            new_line as usize,
            LineExecutionArgument::Empty,
        ),
        InstructionResult::EvaluateLineWithArg(new_line, result_arg) => FragmentStep::Continue(
            new_line as usize,
            result_arg,
        ),
        InstructionResult::EvaluateEnd => FragmentStep::End,
        InstructionResult::EvaluateToError(error_message) => FragmentStep::Error(error_message),
        InstructionResult::RequestAsyncAction(_) => FragmentStep::ReadLine(current_index),
    }
}

/// The real line a step moves to after the previous step's result: the
/// next one, or the one asked for; it stays for the other results.
pub fn step_next_line(current_real_line: i32, last: &InstructionResult) -> (r: i32)
    requires
        current_real_line < i32::MAX,
        *last matches InstructionResult::EvaluateLine(n) ==> n >= 0,
        *last matches InstructionResult::EvaluateLineWithArg(n, _) ==> n >= 0,
    ensures
        *last is EvaluateNext ==> r == current_real_line + 1,
        *last matches InstructionResult::EvaluateLine(n) ==> r == n,
        *last matches InstructionResult::EvaluateLineWithArg(n, _) ==> r == n,
        !(*last is EvaluateNext || *last is EvaluateLine || *last is EvaluateLineWithArg) ==> r
            == current_real_line,
{
    match last {
        InstructionResult::EvaluateNext => current_real_line + 1,
        InstructionResult::EvaluateLine(new_line) => *new_line as i32,
        InstructionResult::EvaluateLineWithArg(new_line, _) => *new_line as i32,
        _ => current_real_line,
    }
}

// ----- laws of the program store -----

/// The program's lines as a map from line number to line.
pub open spec fn lines_map(s: Seq<LineV>) -> Map<i16, LineV> {
    Map::new(
        |n: i16| exists|i: int| 0 <= i < s.len() && s[i].line == n,
        |n: i16| s[choose|i: int| 0 <= i < s.len() && s[i].line == n],
    )
}

/// Adding a line keeps the lines in increasing order of their numbers.
pub proof fn lemma_add_line_keeps_order(s: Seq<LineV>, l: LineV)
    requires
        sorted_lines(s),
    ensures
        sorted_lines(add_line_spec(s, l)),
{
    lemma_insert_position(s, l.line);
    let i = insert_position(s, l.line) as int;
    let t = add_line_spec(s, l);
    if i < s.len() && s[i].line == l.line {
        assert forall|a: int, b: int| 0 <= a < b < t.len() implies t[a].line < t[b].line by {
            if a == i {
                assert(s[b].line > s[i].line);
            } else if b == i {
                assert(s[a].line < s[i].line);
            }
        }
    } else {
        assert forall|a: int, b: int| 0 <= a < b < t.len() implies t[a].line < t[b].line by {
            if b < i {
            } else if b == i {
                assert(t[a] == s[a]);
            } else if a == i {
                assert(t[b] == s[b - 1]);
                assert(s[i].line > l.line);
                assert(s[b - 1].line >= s[i].line);
            } else if a < i {
                assert(t[a] == s[a]);
                assert(t[b] == s[b - 1]);
            } else {
                assert(t[a] == s[a - 1]);
                assert(t[b] == s[b - 1]);
            }
        }
    }
}

/// In ordered lines a number names at most one line.
pub proof fn lemma_sorted_unique(s: Seq<LineV>, a: int, b: int)
    requires
        sorted_lines(s),
        0 <= a < s.len(),
        0 <= b < s.len(),
        s[a].line == s[b].line,
    ensures
        a == b,
{
    if a < b {
        assert(s[a].line < s[b].line);
    } else if b < a {
        assert(s[b].line < s[a].line);
    }
}

/// After a line is added, its number names it, and every other number
/// names the line it named before: adding a line stores it under its
/// number and leaves the other lines alone.
pub proof fn lemma_add_line_stores(s: Seq<LineV>, l: LineV)
    requires
        sorted_lines(s),
    ensures
        lines_map(add_line_spec(s, l)) == lines_map(s).insert(l.line, l),
{
    lemma_insert_position(s, l.line);
    lemma_add_line_keeps_order(s, l);
    let i = insert_position(s, l.line) as int;
    let t = add_line_spec(s, l);
    let replaced = i < s.len() && s[i].line == l.line;
    // the position in `s` of each other line of `t`, and back
    assert forall|n: i16| n != l.line implies (#[trigger] lines_map(t).contains_key(n)
        <==> lines_map(s).contains_key(n)) by {
        if exists|j: int| 0 <= j < t.len() && t[j].line == n {
            let j = choose|j: int| 0 <= j < t.len() && t[j].line == n;
            let k = if replaced || j < i {
                j
            } else {
                j - 1
            };
            assert(s[k] == t[j]);
        }
        if exists|k: int| 0 <= k < s.len() && s[k].line == n {
            let k = choose|k: int| 0 <= k < s.len() && s[k].line == n;
            let j = if replaced || k < i {
                k
            } else {
                k + 1
            };
            assert(t[j] == s[k]);
        }
    }
    assert(t[i] == l);
    assert forall|n: i16| #[trigger] lines_map(t).contains_key(n) implies lines_map(t)[n] == (
    if n == l.line {
        l
    } else {
        lines_map(s)[n]
    }) by {
        let j = choose|j: int| 0 <= j < t.len() && t[j].line == n;
        if n == l.line {
            lemma_sorted_unique(t, j, i);
        } else {
            let k = choose|k: int| 0 <= k < s.len() && s[k].line == n;
            let kk = if replaced || j < i {
                j
            } else {
                j - 1
            };
            assert(s[kk] == t[j]);
            lemma_sorted_unique(s, k, kk);
        }
    }
    assert(lines_map(t) =~= lines_map(s).insert(l.line, l));
}

/// The start of line `i` among the real lines.
pub proof fn lemma_flatten_prefix(s: Seq<LineV>, i: int)
    requires
        0 <= i < s.len(),
    ensures
        flatten(s.take(i)).len() < flatten(s).len(),
        flatten(s)[flatten(s.take(i)).len() as int] == (RealLine {
            line_index: i as usize,
            slot: 0,
        }),
    decreases s.len(),
{
    let p = s.drop_last();
    if i == s.len() - 1 {
        assert(s.take(i) =~= p);
        assert(flatten(s)[flatten(p).len() as int] == line_positions(i, s.last())[0]);
    } else {
        lemma_flatten_prefix(p, i);
        assert(p.take(i) =~= s.take(i));
        assert(flatten(s)[flatten(s.take(i)).len() as int] == flatten(p)[flatten(
            s.take(i),
        ).len() as int]);
    }
}

/// The jump table maps the number of each line of ordered lines to the
/// real line of that line's first statement: a jump to a line number
/// lands on the line's first statement.
pub proof fn lemma_jump_lands_on_line(s: Seq<LineV>, i: int)
    requires
        sorted_lines(s),
        flatten(s).len() <= 32767,
        0 <= i < s.len(),
    ensures
        jump_map(s).contains_key(s[i].line),
        0 <= jump_map(s)[s[i].line] < flatten(s).len(),
        flatten(s)[jump_map(s)[s[i].line] as int] == (RealLine {
            line_index: i as usize,
            slot: 0,
        }),
        instr_at(s, flatten(s)[jump_map(s)[s[i].line] as int]) == s[i].instr,
    decreases s.len(),
{
    let p = s.drop_last();
    lemma_flatten_len_bounds(s);
    lemma_flatten_prefix(s, i);
    lemma_flatten_prefix_bound(s, i);
    if i == s.len() - 1 {
        assert(s.take(i) =~= p);
    } else {
        assert(sorted_lines(p));
        lemma_flatten_prefix_bound(s, s.len() - 1);
        assert(s.take(s.len() - 1) =~= p);
        lemma_jump_lands_on_line(p, i);
        assert(s.last().line != p[i].line) by {
            assert(s[i].line < s[s.len() - 1].line);
        }
        lemma_flatten_prefix(p, i);
        assert(p.take(i) =~= s.take(i));
        assert(flatten(s)[jump_map(s)[s[i].line] as int] == flatten(p)[jump_map(p)[p[i].line] as int]);
    }
}

/// A `RETURN` after a `GOSUB` takes back what the `GOSUB` recorded and
/// leaves the return stack as it was before the `GOSUB`.
pub proof fn lemma_return_undoes_gosub(stack: Seq<i16>, line: i16)
    ensures
        stack.push(line).len() > 0,
        stack.push(line).last() == line,
        stack.push(line).drop_last() == stack,
{
    assert(stack.push(line).drop_last() =~= stack);
}

/// The closer that `find_wend` or `find_next` reports lies after the
/// opener's line and is a `WEND` (resp. `NEXT`); -1 when there is none.
pub proof fn lemma_pair_scan_result(kinds: Seq<InstrV>, j: int, balance: int, wend: bool)
    requires
        balance >= 0,
    ensures
        pair_scan(kinds, j, balance, wend) == -1 || (j <= pair_scan(kinds, j, balance, wend)
            < kinds.len() && 0 <= pair_scan(kinds, j, balance, wend) && (if wend {
            kinds[pair_scan(kinds, j, balance, wend)] is Wend
        } else {
            kinds[pair_scan(kinds, j, balance, wend)] is Next
        })),
    decreases kinds.len() - j,
{
    if j < kinds.len() {
        if j < 0 {
            lemma_pair_scan_result(kinds, j + 1, balance, wend);
        } else {
            let k = kinds[j];
            let opens = if wend {
                k is While
            } else {
                k is For
            };
            let b = if opens {
                balance + 1
            } else {
                balance
            };
            if b > 0 {
                lemma_pair_scan_result(kinds, j + 1, b - 1, wend);
            }
            lemma_pair_scan_result(kinds, j + 1, b, wend);
        }
    }
}

/// The position in an array's values of the element at `indices`
/// (counted from 1): the last index less one, plus, for an array of more
/// than one dimension, the product of the last dimension and the index of
/// the same place.
pub open spec fn array_offset_spec(dimensions: Seq<usize>, indices: Seq<usize>) -> int {
    let base: int = if dimensions.len() >= 2 {
        indices[dimensions.len() - 1] * dimensions[dimensions.len() - 1]
    } else {
        0
    };
    base + indices.last() - 1
}

/// The position in an array's values of the element at `indices`.
pub fn array_offset(dimensions: &Vec<usize>, indices: &Vec<usize>) -> (r: usize)
    requires
        indices@.len() >= dimensions@.len(),
        indices@.len() > 0,
        indices@.last() >= 1,
        forall|i: int| 1 <= i < dimensions@.len() ==> #[trigger] indices@[i] * dimensions@[i] <= usize::MAX,
        array_offset_spec(dimensions@, indices@) <= usize::MAX,
    ensures
        r == array_offset_spec(dimensions@, indices@),
{
    let mut index: usize = 0;
    let mut i: usize = 1;
    proof {
        if dimensions@.len() >= 2 {
            assert(0 <= indices@[dimensions@.len() - 1] * dimensions@[dimensions@.len() - 1]) by (nonlinear_arith);
        }
    }
    while i < dimensions.len()
        invariant
            1 <= i,
            i <= dimensions@.len() || dimensions@.len() <= 1,
            indices@.len() >= dimensions@.len(),
            forall|k: int| 1 <= k < dimensions@.len() ==> #[trigger] indices@[k] * dimensions@[k]
                <= usize::MAX,
            i == 1 ==> index == 0,
            dimensions@.len() <= 1 ==> i == 1,
            i > 1 ==> index == indices@[i - 1] * dimensions@[i - 1],
            indices@.len() > 0,
            indices@.last() >= 1,
            array_offset_spec(dimensions@, indices@) <= usize::MAX,
        decreases dimensions@.len() - i,
    {
        assert(indices@[i as int] * dimensions@[i as int] <= usize::MAX);
        index = indices[i] * dimensions[i];
        i = i + 1;
    }
    let final_index = indices[indices.len() - 1];
    index + (final_index - 1)
}

/// Whether `k` opens a pair: a `WHILE` (when `wend`) or a `FOR`.
pub open spec fn is_opener(k: InstrV, wend: bool) -> bool {
    if wend {
        k is While
    } else {
        k is For
    }
}

/// Whether `k` closes a pair: a `WEND` (when `wend`) or a `NEXT`.
pub open spec fn is_closer(k: InstrV, wend: bool) -> bool {
    if wend {
        k is Wend
    } else {
        k is Next
    }
}

/// How many of the real lines `a` to `b - 1` open a pair.
pub open spec fn count_openers(kinds: Seq<InstrV>, a: int, b: int, wend: bool) -> int
    decreases b - a,
{
    if b <= a {
        0
    } else {
        count_openers(kinds, a, b - 1, wend) + if is_opener(kinds[b - 1], wend) {
            1int
        } else {
            0int
        }
    }
}

/// How many of the real lines `a` to `b - 1` close a pair.
pub open spec fn count_closers(kinds: Seq<InstrV>, a: int, b: int, wend: bool) -> int
    decreases b - a,
{
    if b <= a {
        0
    } else {
        count_closers(kinds, a, b - 1, wend) + if is_closer(kinds[b - 1], wend) {
            1int
        } else {
            0int
        }
    }
}

/// Scanning from `j` with `balance` equal to the openers less the closers
/// seen since `start`, every closer seen so far having had openers left
/// unclosed: the closer found is the first at which they balance.
proof fn lemma_pair_scan_balanced(
    kinds: Seq<InstrV>,
    start: int,
    j: int,
    balance: int,
    wend: bool,
)
    requires
        0 <= start <= j,
        balance >= 0,
        balance == count_openers(kinds, start, j, wend) - count_closers(kinds, start, j, wend),
        forall|m: int|
            start <= m < j && is_closer(#[trigger] kinds[m], wend) ==> count_openers(
                kinds,
                start,
                m,
                wend,
            ) > count_closers(kinds, start, m, wend),
    ensures
        pair_scan(kinds, j, balance, wend) == -1 ==> forall|m: int|
            start <= m < kinds.len() && is_closer(#[trigger] kinds[m], wend) ==> count_openers(
                kinds,
                start,
                m,
                wend,
            ) > count_closers(kinds, start, m, wend),
        pair_scan(kinds, j, balance, wend) != -1 ==> {
            let r = pair_scan(kinds, j, balance, wend);
            &&& j <= r < kinds.len()
            &&& is_closer(kinds[r], wend)
            &&& count_openers(kinds, start, r, wend) == count_closers(kinds, start, r, wend)
            &&& forall|m: int|
                start <= m < r && is_closer(#[trigger] kinds[m], wend) ==> count_openers(
                    kinds,
                    start,
                    m,
                    wend,
                ) > count_closers(kinds, start, m, wend)
        },
    decreases kinds.len() - j,
{
    if j < kinds.len() {
        let k = kinds[j];
        assert(count_openers(kinds, start, j + 1, wend) == count_openers(kinds, start, j, wend)
            + if is_opener(k, wend) {
            1int
        } else {
            0int
        });
        assert(count_closers(kinds, start, j + 1, wend) == count_closers(kinds, start, j, wend)
            + if is_closer(k, wend) {
            1int
        } else {
            0int
        });
        let b = if is_opener(k, wend) {
            balance + 1
        } else {
            balance
        };
        if is_closer(k, wend) {
            if b != 0 {
                lemma_pair_scan_balanced(kinds, start, j + 1, b - 1, wend);
            }
        } else {
            lemma_pair_scan_balanced(kinds, start, j + 1, b, wend);
        }
    }
}

/// The closer that `find_wend` and `find_next` pair with the opener on
/// real line `line` is the first `WEND` (resp. `NEXT`) after it at which
/// the openers and closers in between balance: every `WHILE` (resp. `FOR`)
/// opened after `line` is closed before it, so an inner loop's closer is
/// never the outer loop's. When there is none (-1), every closer after
/// `line` still has an opener in between left unclosed.
pub proof fn lemma_closer_is_balanced(kinds: Seq<InstrV>, line: int, wend: bool)
    requires
        line >= -1,
    ensures
        pair_scan(kinds, line + 1, 0, wend) == -1 ==> forall|m: int|
            line < m < kinds.len() && is_closer(#[trigger] kinds[m], wend) ==> count_openers(
                kinds,
                line + 1,
                m,
                wend,
            ) > count_closers(kinds, line + 1, m, wend),
        pair_scan(kinds, line + 1, 0, wend) != -1 ==> {
            let r = pair_scan(kinds, line + 1, 0, wend);
            &&& line < r < kinds.len()
            &&& is_closer(kinds[r], wend)
            &&& count_openers(kinds, line + 1, r, wend) == count_closers(kinds, line + 1, r, wend)
            &&& forall|m: int|
                line < m < r && is_closer(#[trigger] kinds[m], wend) ==> count_openers(
                    kinds,
                    line + 1,
                    m,
                    wend,
                ) > count_closers(kinds, line + 1, m, wend)
        },
{
    lemma_pair_scan_balanced(kinds, line + 1, line + 1, 0, wend);
}

} // verus!
