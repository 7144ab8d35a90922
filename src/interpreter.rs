//! The execution engine: program store, loop index, tape and the step relation.
use vstd::prelude::*;

verus! {

/// A failure of the engine, tagged with the program position of the
/// instruction that could not be executed.
#[derive(Debug, Clone, Copy, PartialEq, Eq, Structural)]
pub enum BfError {
    /// A `[` whose matching `]` has not been appended (yet).
    UnmatchedOpenBracket(usize),
    /// A `]` with no earlier unmatched `[`.
    UnmatchedCloseBracket(usize),
    /// A `<` executed while the data pointer is at cell 0.
    PointerUnderflow(usize),
}

/// The opcode set of the language; every other byte is a comment.
#[derive(Debug, Clone, Copy, PartialEq, Eq, Structural)]
pub enum Op {
    Right,
    Left,
    Inc,
    Dec,
    Output,
    Input,
    Open,
    Close,
    Skip,
}

/// `>`: move the data pointer right.
pub const OP_RIGHT: u8 = 62;
/// `<`: move the data pointer left.
pub const OP_LEFT: u8 = 60;
/// `+`: increment the current cell.
pub const OP_INC: u8 = 43;
/// `-`: decrement the current cell.
pub const OP_DEC: u8 = 45;
/// `.`: emit the current cell.
pub const OP_OUTPUT: u8 = 46;
/// `,`: read one input byte into the current cell.
pub const OP_INPUT: u8 = 44;
/// `[`: skip the loop when the current cell is zero.
pub const OP_OPEN: u8 = 91;
/// `]`: repeat the loop when the current cell is not zero.
pub const OP_CLOSE: u8 = 93;

/// The opcode that a program byte stands for.
pub open spec fn op_of(b: u8) -> Op {
    if b == OP_RIGHT {
        Op::Right
    } else if b == OP_LEFT {
        Op::Left
    } else if b == OP_INC {
        Op::Inc
    } else if b == OP_DEC {
        Op::Dec
    } else if b == OP_OUTPUT {
        Op::Output
    } else if b == OP_INPUT {
        Op::Input
    } else if b == OP_OPEN {
        Op::Open
    } else if b == OP_CLOSE {
        Op::Close
    } else {
        Op::Skip
    }
}

/// Decodes one program byte.
pub fn decode(b: u8) -> (r: Op)
    ensures
        r == op_of(b),
{
    if b == OP_RIGHT {
        Op::Right
    } else if b == OP_LEFT {
        Op::Left
    } else if b == OP_INC {
        Op::Inc
    } else if b == OP_DEC {
        Op::Dec
    } else if b == OP_OUTPUT {
        Op::Output
    } else if b == OP_INPUT {
        Op::Input
    } else if b == OP_OPEN {
        Op::Open
    } else if b == OP_CLOSE {
        Op::Close
    } else {
        Op::Skip
    }
}

/// The cell value after adding `delta` to `v`, modulo 256.
pub open spec fn wrap_cell(v: u8, delta: int) -> u8 {
    ((v as int + delta) % 256) as u8
}

fn cell_add(v: u8, inc: bool) -> (r: u8)
    ensures
        r == wrap_cell(v, if inc { 1 } else { -1 }),
{
    if inc {
        if v == 255 { 0 } else { v + 1 }
    } else {
        if v == 0 { 255 } else { v - 1 }
    }
}

/// The loop index of a program prefix: the positions of the `[` still
/// waiting for their `]` (innermost last), and for each position the
/// position of its matching bracket, if it has one.
pub struct LoopIndex {
    pub open: Seq<usize>,
    pub partner: Seq<Option<usize>>,
}

/// Extends a loop index by the byte `b` standing at position `i`.
pub open spec fn index_step(x: LoopIndex, b: u8, i: usize) -> LoopIndex {
    match op_of(b) {
        Op::Open => LoopIndex { open: x.open.push(i), partner: x.partner.push(None) },
        Op::Close => if x.open.len() > 0 {
            let j = x.open.last();
            LoopIndex {
                open: x.open.drop_last(),
                partner: x.partner.update(j as int, Some(i)).push(Some(j)),
            }
        } else {
            LoopIndex { open: x.open, partner: x.partner.push(None) }
        },
        _ => LoopIndex { open: x.open, partner: x.partner.push(None) },
    }
}

/// The loop index of a whole program, scanned left to right.
pub open spec fn index_of(p: Seq<u8>) -> LoopIndex
    decreases p.len(),
{
    if p.len() == 0 {
        LoopIndex { open: Seq::empty(), partner: Seq::empty() }
    } else {
        index_step(index_of(p.drop_last()), p.last(), (p.len() - 1) as usize)
    }
}

/// Extends the loop index `x` by the bytes `q`, the first of which stands at
/// position `base`: the scan that one call of `extend_prog` makes, starting
/// from the open loops that earlier calls left.
pub open spec fn index_scan(x: LoopIndex, q: Seq<u8>, base: nat) -> LoopIndex
    decreases q.len(),
{
    if q.len() == 0 {
        x
    } else {
        index_step(index_scan(x, q.drop_last(), base), q.last(), (base + q.len() - 1) as usize)
    }
}

/// Scanning `q` from the index of `p` gives the index of `p + q`.
pub proof fn lemma_index_scan(p: Seq<u8>, q: Seq<u8>)
    ensures
        index_scan(index_of(p), q, p.len()) == index_of(p + q),
    decreases q.len(),
{
    if q.len() == 0 {
        assert(p + q =~= p);
    } else {
        lemma_index_scan(p, q.drop_last());
        assert((p + q).drop_last() =~= p + q.drop_last());
    }
}

/// Every position that a loop index mentions lies inside the program.
pub open spec fn index_in_bounds(x: LoopIndex, n: int) -> bool {
    &&& x.partner.len() == n
    &&& forall|k: int| 0 <= k < x.open.len() ==> #[trigger] x.open[k] < n
    &&& forall|k: int|
        0 <= k < x.partner.len() && (#[trigger] x.partner[k]) is Some ==> x.partner[k]->0 < n
}

pub proof fn lemma_index_in_bounds(p: Seq<u8>)
    requires
        p.len() <= usize::MAX,
    ensures
        index_in_bounds(index_of(p), p.len() as int),
    decreases p.len(),
{
    if p.len() > 0 {
        lemma_index_in_bounds(p.drop_last());
    }
}

/// Position `k` of `p` holds a `]` that finds no open `[` before it.
pub open spec fn unmatched_close_at(p: Seq<u8>, k: int) -> bool {
    &&& 0 <= k < p.len()
    &&& op_of(p[k]) == Op::Close
    &&& index_of(p.subrange(0, k)).open.len() == 0
}

/// The open loops of a loop index are positions of `[`.
pub proof fn lemma_open_positions(p: Seq<u8>)
    requires
        p.len() <= usize::MAX,
    ensures
        forall|k: int|
            0 <= k < index_of(p).open.len() ==> (#[trigger] index_of(p).open[k]) < p.len()
                && op_of(p[index_of(p).open[k] as int]) == Op::Open,
    decreases p.len(),
{
    if p.len() > 0 {
        let q = p.drop_last();
        lemma_open_positions(q);
        assert forall|k: int| 0 <= k < q.len() implies p[k] == q[k] by {}
    }
}

/// A `]` that found no open `[` never gets a partner, however the program
/// goes on.
pub proof fn lemma_unmatched_close_stays(p: Seq<u8>, c: int)
    requires
        p.len() <= usize::MAX,
        unmatched_close_at(p, c),
    ensures
        index_of(p).partner[c] is None,
    decreases p.len(),
{
    let q = p.drop_last();
    if p.len() == c + 1 {
        assert(q =~= p.subrange(0, c));
        lemma_index_in_bounds(q);
    } else {
        assert(q.subrange(0, c) =~= p.subrange(0, c));
        lemma_unmatched_close_stays(q, c);
        lemma_open_positions(q);
        lemma_index_in_bounds(q);
    }
}

/// What an engine holds, as mathematical values.
pub struct EngineState {
    /// The instructions appended so far.
    pub prog: Seq<u8>,
    /// The position of the next instruction; equal to `prog.len()` when halted.
    pub pc: nat,
    /// The tape cells.
    pub tape: Seq<u8>,
    /// The data pointer.
    pub dp: nat,
    /// The input bytes not yet read.
    pub input: Seq<u8>,
    /// The bytes emitted and not yet taken.
    pub output: Seq<u8>,
}

impl EngineState {
    /// The invariant that every reachable state keeps.
    pub open spec fn valid(self) -> bool {
        &&& self.pc <= self.prog.len() <= usize::MAX
        &&& self.dp < self.tape.len() <= usize::MAX
    }

    pub open spec fn halted(self) -> bool {
        self.pc >= self.prog.len()
    }

    /// The state after appending `bytes` to the program.
    pub open spec fn extended(self, bytes: Seq<u8>) -> EngineState {
        EngineState { prog: self.prog + bytes, ..self }
    }

    /// The matching bracket of the bracket at `pos`, if it has one yet.
    pub open spec fn partner(self, pos: int) -> Option<usize> {
        index_of(self.prog).partner[pos]
    }
}

/// The tape after making `index` a valid position: zero cells are appended
/// where the tape is too short; existing cells are kept.
pub open spec fn grow_to(tape: Seq<u8>, index: nat) -> Seq<u8> {
    if index < tape.len() {
        tape
    } else {
        tape + Seq::new((index + 1 - tape.len()) as nat, |k: int| 0u8)
    }
}

/// The state after executing the instruction at `pc`, or the failure that
/// stops it. A halted state steps to itself.
pub open spec fn step_spec(s: EngineState) -> Result<EngineState, BfError> {
    if s.pc >= s.prog.len() {
        Ok(s)
    } else {
        let pc = s.pc;
        let next = (s.pc + 1) as nat;
        let cell = s.tape[s.dp as int];
        match op_of(s.prog[pc as int]) {
            Op::Right => Ok(
                EngineState { pc: next, dp: s.dp + 1, tape: grow_to(s.tape, s.dp + 1), ..s },
            ),
            Op::Left => if s.dp == 0 {
                Err(BfError::PointerUnderflow(pc as usize))
            } else {
                Ok(EngineState { pc: next, dp: (s.dp - 1) as nat, ..s })
            },
            Op::Inc => Ok(
                EngineState { pc: next, tape: s.tape.update(s.dp as int, wrap_cell(cell, 1)), ..s },
            ),
            Op::Dec => Ok(
                EngineState {
                    pc: next,
                    tape: s.tape.update(s.dp as int, wrap_cell(cell, -1)),
                    ..s
                },
            ),
            Op::Output => Ok(EngineState { pc: next, output: s.output.push(cell), ..s }),
            Op::Input => if s.input.len() > 0 {
                Ok(
                    EngineState {
                        pc: next,
                        tape: s.tape.update(s.dp as int, s.input[0]),
                        input: s.input.drop_first(),
                        ..s
                    },
                )
            } else {
                Ok(EngineState { pc: next, tape: s.tape.update(s.dp as int, 0u8), ..s })
            },
            Op::Open => match s.partner(pc as int) {
                None => Err(BfError::UnmatchedOpenBracket(pc as usize)),
                Some(j) => Ok(
                    EngineState {
                        pc: if cell == 0 {
                            (j + 1) as nat
                        } else {
                            next
                        },
                        ..s
                    },
                ),
            },
            Op::Close => match s.partner(pc as int) {
                None => Err(BfError::UnmatchedCloseBracket(pc as usize)),
                Some(j) => Ok(
                    EngineState {
                        pc: if cell != 0 {
                            (j + 1) as nat
                        } else {
                            next
                        },
                        ..s
                    },
                ),
            },
            Op::Skip => Ok(EngineState { pc: next, ..s }),
        }
    }
}

/// One call of `step`: the new state and the result, where a failure
/// leaves the state as it was.
pub open spec fn step_outcome(s: EngineState) -> (EngineState, Result<(), BfError>) {
    match step_spec(s) {
        Ok(t) => (t, Ok(())),
        Err(e) => (s, Err(e)),
    }
}

/// `n` calls of `step`, stopping at the first failure.
pub open spec fn steps(s: EngineState, n: nat) -> (EngineState, Result<(), BfError>)
    decreases n,
{
    if n == 0 {
        (s, Ok(()))
    } else {
        let (t, r) = step_outcome(s);
        if r is Err {
            (t, r)
        } else {
            steps(t, (n - 1) as nat)
        }
    }
}

/// A halted state stays as it is, whatever the number of steps.
pub proof fn lemma_halted_fixed(s: EngineState, n: nat)
    requires
        s.halted(),
    ensures
        steps(s, n) == (s, Ok::<(), BfError>(())),
    decreases n,
{
    if n > 0 {
        lemma_halted_fixed(s, (n - 1) as nat);
    }
}

/// An incrementally extensible interpreter: instructions can be appended
/// at any time, also after execution has begun. The engine does no I/O of
/// its own: `,` reads from a queue that `feed_input` fills, and `.` appends
/// to an output buffer that `take_output` drains.
#[derive(Debug)]
pub struct BFInt {
    prog: Vec<u8>,
    prog_ptr: usize,
    mem: Vec<u8>,
    mem_ptr: usize,
    /// Positions of the `[` not yet matched, innermost last.
    open_loops: Vec<usize>,
    /// For each indexed position, the position of its matching bracket.
    loop_map: Vec<Option<usize>>,
    input: Vec<u8>,
    input_pos: usize,
    output: Vec<u8>,
}

impl View for BFInt {
    type V = EngineState;

    closed spec fn view(&self) -> EngineState {
        EngineState {
            prog: self.prog@,
            pc: self.prog_ptr as nat,
            tape: self.mem@,
            dp: self.mem_ptr as nat,
            input: self.input@.subrange(self.input_pos as int, self.input@.len() as int),
            output: self.output@,
        }
    }
}

/// The tape size of a new engine.
pub const DEFAULT_TAPE_LEN: usize = 1000;

impl BFInt {
    /// The loop index covers exactly the first `n` program positions.
    closed spec fn indexed_upto(&self, n: int) -> bool {
        let x = index_of(self.prog@.subrange(0, n));
        &&& self.open_loops@ == x.open
        &&& self.loop_map@ == x.partner
    }

    pub closed spec fn wf(&self) -> bool {
        &&& self@.valid()
        &&& self.input_pos <= self.input@.len()
        &&& self.loop_map@.len() == self.prog@.len()
        &&& self.indexed_upto(self.prog@.len() as int)
    }

    /// The state of a well-formed engine is valid.
    pub proof fn lemma_wf_valid(&self)
        requires
            self.wf(),
        ensures
            self@.valid(),
    {
    }

    /// An engine with an empty program and a zeroed tape of `len` cells.
    pub fn with_tape_len(len: usize) -> (r: BFInt)
        requires
            len > 0,
        ensures
            r.wf(),
            r@ == (EngineState {
                prog: Seq::empty(),
                pc: 0,
                tape: Seq::new(len as nat, |k: int| 0u8),
                dp: 0,
                input: Seq::empty(),
                output: Seq::empty(),
            }),
    {
        let r = BFInt {
            prog: Vec::new(),
            prog_ptr: 0,
            mem: vec![0u8; len],
            mem_ptr: 0,
            open_loops: Vec::new(),
            loop_map: Vec::new(),
            input: Vec::new(),
            input_pos: 0,
            output: Vec::new(),
        };
        assert(r.prog@.subrange(0, 0) =~= Seq::<u8>::empty());
        assert(r@.tape =~= Seq::new(len as nat, |k: int| 0u8));
        assert(r@.input =~= Seq::<u8>::empty());
        r
    }

    /// An engine with an empty program and a zeroed tape of
    /// `DEFAULT_TAPE_LEN` cells.
    pub fn new() -> (r: BFInt)
        ensures
            r.wf(),
            r@ == (EngineState {
                prog: Seq::empty(),
                pc: 0,
                tape: Seq::new(DEFAULT_TAPE_LEN as nat, |k: int| 0u8),
                dp: 0,
                input: Seq::empty(),
                output: Seq::empty(),
            }),
    {
        BFInt::with_tape_len(DEFAULT_TAPE_LEN)
    }

    /// Appends instructions to the program and indexes their brackets,
    /// continuing any loop left open by earlier calls. All bytes are
    /// appended; the first new `]` that finds no open `[` is reported as
    /// `UnmatchedCloseBracket` at its position, and never gets a partner.
    pub fn extend_prog(&mut self, new_prog: &[u8]) -> (r: Result<(), BfError>)
        requires
            old(self).wf(),
            old(self)@.prog.len() + new_prog@.len() <= usize::MAX,
        ensures
            final(self).wf(),
            final(self)@ == old(self)@.extended(new_prog@),
            r is Ok <==> forall|k: int|
                old(self)@.prog.len() <= k < final(self)@.prog.len() ==> !unmatched_close_at(
                    final(self)@.prog,
                    k,
                ),
            r is Err ==> r->Err_0 is UnmatchedCloseBracket && ({
                let c = r->Err_0->UnmatchedCloseBracket_0 as int;
                &&& old(self)@.prog.len() <= c
                &&& unmatched_close_at(final(self)@.prog, c)
                &&& forall|k: int|
                    old(self)@.prog.len() <= k < c ==> !unmatched_close_at(final(self)@.prog, k)
                &&& final(self)@.partner(c) is None
            }),
    {
        let ghost before = self@;
        let mut i: usize = 0;
        assert(self.prog@.subrange(0, before.prog.len() as int) =~= before.prog);
        while i < new_prog.len()
            invariant
                i <= new_prog@.len(),
                self.prog@ == before.prog + new_prog@.subrange(0, i as int),
                self.loop_map@.len() == before.prog.len(),
                self.open_loops@ == index_of(before.prog).open,
                self.loop_map@ == index_of(before.prog).partner,
                before.prog.len() + new_prog@.len() <= usize::MAX,
                self.prog_ptr == before.pc,
                self.mem@ == before.tape,
                self.mem_ptr == before.dp,
                self.input_pos <= self.input@.len(),
                self.input@.subrange(self.input_pos as int, self.input@.len() as int) == before.input,
                self.output@ == before.output,
            decreases new_prog@.len() - i,
        {
            self.prog.push(new_prog[i]);
            i += 1;
            assert(self.prog@ =~= before.prog + new_prog@.subrange(0, i as int));
        }
        assert(new_prog@.subrange(0, i as int) =~= new_prog@);
        assert(self.prog@.subrange(0, before.prog.len() as int) =~= before.prog);
        match self.extend_loop_map() {
            None => Ok(()),
            Some(c) => {
                proof {
                    lemma_unmatched_close_stays(self.prog@, c as int);
                    assert(self.prog@.subrange(0, self.prog@.len() as int) =~= self.prog@);
                }
                Err(BfError::UnmatchedCloseBracket(c))
            },
        }
    }

    /// Indexes the brackets of the positions appended since the last call,
    /// without rescanning the positions indexed before; returns the first of
    /// those positions that holds a `]` with no open `[`.
    fn extend_loop_map(&mut self) -> (r: Option<usize>)
        requires
            old(self).loop_map@.len() <= old(self).prog@.len() <= usize::MAX,
            old(self).indexed_upto(old(self).loop_map@.len() as int),
        ensures
            final(self).loop_map@.len() == final(self).prog@.len(),
            final(self).indexed_upto(final(self).prog@.len() as int),
            final(self).prog == old(self).prog,
            final(self).prog_ptr == old(self).prog_ptr,
            final(self).mem == old(self).mem,
            final(self).mem_ptr == old(self).mem_ptr,
            final(self).input == old(self).input,
            final(self).input_pos == old(self).input_pos,
            final(self).output == old(self).output,
            r is None <==> forall|k: int|
                old(self).loop_map@.len() <= k < old(self).prog@.len() ==> !unmatched_close_at(
                    old(self).prog@,
                    k,
                ),
            r is Some ==> ({
                let c = r->Some_0 as int;
                &&& old(self).loop_map@.len() <= c
                &&& unmatched_close_at(old(self).prog@, c)
                &&& forall|k: int|
                    old(self).loop_map@.len() <= k < c ==> !unmatched_close_at(old(self).prog@, k)
            }),
    {
        let start: usize = self.loop_map.len();
        let mut first: Option<usize> = None;
        let mut pc: usize = start;
        while pc < self.prog.len()
            invariant
                start <= pc,
                start == old(self).loop_map@.len(),
                first is None ==> forall|k: int| start <= k < pc ==> !unmatched_close_at(self.prog@, k),
                first is Some ==> ({
                    let c = first->Some_0 as int;
                    &&& start <= c < pc
                    &&& unmatched_close_at(self.prog@, c)
                    &&& forall|k: int| start <= k < c ==> !unmatched_close_at(self.prog@, k)
                }),
                pc == self.loop_map@.len(),
                pc <= self.prog@.len() <= usize::MAX,
                self.indexed_upto(pc as int),
                self.prog == old(self).prog,
                self.prog_ptr == old(self).prog_ptr,
                self.mem == old(self).mem,
                self.mem_ptr == old(self).mem_ptr,
                self.input == old(self).input,
                self.input_pos == old(self).input_pos,
                self.output == old(self).output,
            decreases self.prog@.len() - pc,
        {
            let ghost x = index_of(self.prog@.subrange(0, pc as int));
            proof {
                lemma_index_in_bounds(self.prog@.subrange(0, pc as int));
                assert(self.prog@.subrange(0, pc + 1).drop_last() =~= self.prog@.subrange(0, pc as int));
            }
            match decode(self.prog[pc]) {
                Op::Open => {
                    self.open_loops.push(pc);
                    self.loop_map.push(None);
                },
                Op::Close => {
                    match self.open_loops.pop() {
                        Some(j) => {
                            self.loop_map.set(j, Some(pc));
                            self.loop_map.push(Some(j));
                        },
                        None => {
                            self.loop_map.push(None);
                            if first.is_none() {
                                first = Some(pc);
                            }
                        },
                    }
                },
                _ => {
                    self.loop_map.push(None);
                },
            }
            pc += 1;
            assert(self.open_loops@ =~= index_of(self.prog@.subrange(0, pc as int)).open);
            assert(self.loop_map@ =~= index_of(self.prog@.subrange(0, pc as int)).partner);
        }
        first
    }

    /// Makes `index` a valid tape position, appending zero cells as needed.
    fn ensure_allocated(&mut self, index: usize)
        requires
            old(self).wf(),
            index < usize::MAX,
        ensures
            final(self).wf(),
            final(self)@ == (EngineState { tape: grow_to(old(self)@.tape, index as nat), ..old(self)@ }),
    {
        let ghost before = self@.tape;
        while self.mem.len() <= index
            invariant
                self.wf(),
                index < usize::MAX,
                before.len() <= self.mem@.len() <= index + 1 || self.mem@.len() == before.len(),
                self.mem@.subrange(0, before.len() as int) == before,
                forall|k: int| before.len() <= k < self.mem@.len() ==> self.mem@[k] == 0u8,
                self.prog == old(self).prog,
                self.prog_ptr == old(self).prog_ptr,
                self.mem_ptr == old(self).mem_ptr,
                self.open_loops == old(self).open_loops,
                self.loop_map == old(self).loop_map,
                self.input == old(self).input,
                self.input_pos == old(self).input_pos,
                self.output == old(self).output,
            decreases index + 1 - self.mem@.len(),
        {
            self.mem.push(0);
            assert(self.mem@.subrange(0, before.len() as int) =~= before);
        }
        assert(self.mem@ =~= grow_to(before, index as nat));
    }

    /// Executes the instruction at the program counter; does nothing when
    /// halted. On a failure nothing changes and the failure is returned. The
    /// tape must have room for one more cell.
    pub fn step(&mut self) -> (r: Result<(), BfError>)
        requires
            old(self).wf(),
            old(self)@.tape.len() < usize::MAX,
        ensures
            final(self).wf(),
            (final(self)@, r) == step_outcome(old(self)@),
            final(self)@.tape.len() <= old(self)@.tape.len() + 1,
    {
        if self.prog_ptr >= self.prog.len() {
            return Ok(());
        }
        let pc = self.prog_ptr;
        proof {
            lemma_index_in_bounds(self.prog@);
            assert(self.prog@.subrange(0, self.prog@.len() as int) =~= self.prog@);
        }
        match decode(self.prog[pc]) {
            Op::Right => {
                self.ensure_allocated(self.mem_ptr + 1);
                self.mem_ptr = self.mem_ptr + 1;
            },
            Op::Left => {
                if self.mem_ptr == 0 {
                    return Err(BfError::PointerUnderflow(pc));
                }
                self.mem_ptr = self.mem_ptr - 1;
            },
            Op::Inc => {
                let v = cell_add(self.mem[self.mem_ptr], true);
                self.mem.set(self.mem_ptr, v);
            },
            Op::Dec => {
                let v = cell_add(self.mem[self.mem_ptr], false);
                self.mem.set(self.mem_ptr, v);
            },
            Op::Output => {
                self.output.push(self.mem[self.mem_ptr]);
            },
            Op::Input => {
                if self.input_pos < self.input.len() {
                    let v = self.input[self.input_pos];
                    self.mem.set(self.mem_ptr, v);
                    self.input_pos = self.input_pos + 1;
                } else {
                    self.mem.set(self.mem_ptr, 0);
                }
            },
            Op::Open => {
                match self.loop_map[pc] {
                    None => {
                        return Err(BfError::UnmatchedOpenBracket(pc));
                    },
                    Some(j) => {
                        if self.mem[self.mem_ptr] == 0 {
                            self.prog_ptr = j;
                        }
                    },
                }
            },
            Op::Close => {
                match self.loop_map[pc] {
                    None => {
                        return Err(BfError::UnmatchedCloseBracket(pc));
                    },
                    Some(j) => {
                        if self.mem[self.mem_ptr] != 0 {
                            self.prog_ptr = j;
                        }
                    },
                }
            },
            Op::Skip => {},
        }
        self.prog_ptr = self.prog_ptr + 1;
        proof {
            let t = step_spec(old(self)@);
            assert(t is Ok);
            assert(self@.input =~= t->Ok_0.input);
            assert(self@ == t->Ok_0);
        }
        Ok(())
    }

    /// Calls `step` until the program halts, a step fails, or `max_steps`
    /// steps have been made; the result is that of `max_steps` calls of
    /// `step`. Each step grows the tape by at most one cell, so the tape must
    /// have room for `max_steps` more cells.
    pub fn run(&mut self, max_steps: usize) -> (r: Result<(), BfError>)
        requires
            old(self).wf(),
            old(self)@.tape.len() + max_steps < usize::MAX,
        ensures
            final(self).wf(),
            (final(self)@, r) == steps(old(self)@, max_steps as nat),
    {
        let mut i: usize = 0;
        while i < max_steps && self.prog_ptr < self.prog.len()
            invariant
                self.wf(),
                i <= max_steps,
                self@.tape.len() + (max_steps - i) < usize::MAX,
                steps(old(self)@, max_steps as nat) == steps(self@, (max_steps - i) as nat),
            decreases max_steps - i,
        {
            let r = self.step();
            if r.is_err() {
                return r;
            }
            i += 1;
        }
        proof {
            if i < max_steps {
                lemma_halted_fixed(self@, (max_steps - i) as nat);
            }
        }
        Ok(())
    }

    /// Appends bytes to the input that `,` reads from.
    pub fn feed_input(&mut self, bytes: &[u8])
        requires
            old(self).wf(),
        ensures
            final(self).wf(),
            final(self)@ == (EngineState { input: old(self)@.input + bytes@, ..old(self)@ }),
    {
        let ghost before = self@;
        let ghost raw = self.input@;
        let mut i: usize = 0;
        while i < bytes.len()
            invariant
                i <= bytes@.len(),
                self.input@ == raw + bytes@.subrange(0, i as int),
                self.input_pos <= raw.len(),
                before.input == raw.subrange(self.input_pos as int, raw.len() as int),
                self.prog == old(self).prog,
                self.prog_ptr == old(self).prog_ptr,
                self.mem == old(self).mem,
                self.mem_ptr == old(self).mem_ptr,
                self.open_loops == old(self).open_loops,
                self.loop_map == old(self).loop_map,
                self.input_pos == old(self).input_pos,
                self.output == old(self).output,
            decreases bytes@.len() - i,
        {
            self.input.push(bytes[i]);
            i += 1;
            assert(self.input@ =~= raw + bytes@.subrange(0, i as int));
        }
        assert(bytes@.subrange(0, i as int) =~= bytes@);
        assert(self@.input =~= before.input + bytes@);
    }

    /// Hands out the bytes emitted so far and forgets them.
    pub fn take_output(&mut self) -> (r: Vec<u8>)
        requires
            old(self).wf(),
        ensures
            final(self).wf(),
            r@ == old(self)@.output,
            final(self)@ == (EngineState { output: Seq::empty(), ..old(self)@ }),
    {
        let mut out: Vec<u8> = Vec::new();
        std::mem::swap(&mut out, &mut self.output);
        out
    }

    /// Overwrites one tape cell.
    pub fn set_cell(&mut self, index: usize, value: u8)
        requires
            old(self).wf(),
            index < old(self)@.tape.len(),
        ensures
            final(self).wf(),
            final(self)@ == (EngineState { tape: old(self)@.tape.update(index as int, value), ..old(self)@ }),
    {
        self.mem.set(index, value);
    }

    /// The matching bracket of the bracket at `pos`, found in constant time.
    pub fn matching_bracket(&self, pos: usize) -> (r: Option<usize>)
        requires
            self.wf(),
            pos < self@.prog.len(),
        ensures
            r == self@.partner(pos as int),
    {
        proof {
            assert(self.prog@.subrange(0, self.prog@.len() as int) =~= self.prog@);
        }
        self.loop_map[pos]
    }

    /// The instructions appended so far.
    pub fn program(&self) -> (r: &[u8])
        ensures
            r@ == self@.prog,
    {
        self.prog.as_slice()
    }

    /// The position of the next instruction.
    pub fn program_counter(&self) -> (r: usize)
        ensures
            r == self@.pc,
    {
        self.prog_ptr
    }

    /// The tape cells.
    pub fn tape(&self) -> (r: &[u8])
        ensures
            r@ == self@.tape,
    {
        self.mem.as_slice()
    }

    /// The data pointer.
    pub fn data_pointer(&self) -> (r: usize)
        ensures
            r == self@.dp,
    {
        self.mem_ptr
    }

    /// Whether the program counter has reached the end of the program.
    pub fn is_halted(&self) -> (r: bool)
        ensures
            r == self@.halted(),
    {
        self.prog_ptr >= self.prog.len()
    }
}

} // verus!
