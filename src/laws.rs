//! Properties of the engine that relate several steps or several calls.
use vstd::prelude::*;
use vstd::arithmetic::div_mod::lemma_add_mod_noop_right;
use crate::interpreter::{
    BfError, EngineState, OP_DEC, OP_INC, OP_INPUT, OP_LEFT, OP_RIGHT, index_of, index_scan, step_outcome,
    step_spec, steps, wrap_cell, lemma_halted_fixed, lemma_index_scan,
};

verus! {

/// The number of `+` minus the number of `-` in `p`.
pub open spec fn net_count(p: Seq<u8>) -> int
    decreases p.len(),
{
    if p.len() == 0 {
        0
    } else {
        (if p[0] == OP_INC {
            1int
        } else if p[0] == OP_DEC {
            -1int
        } else {
            0int
        }) + net_count(p.drop_first())
    }
}

/// Executing `n` instructions that are all `+` or `-` leaves the current cell
/// at its old value plus the number of `+` minus the number of `-`, modulo
/// 256, and changes nothing else but the program counter.
pub proof fn lemma_inc_dec_count(s: EngineState, n: nat)
    requires
        s.valid(),
        s.pc + n <= s.prog.len(),
        forall|k: int| s.pc <= k < s.pc + n ==> #[trigger] s.prog[k] == OP_INC || s.prog[k] == OP_DEC,
    ensures
        steps(s, n).1 is Ok,
        steps(s, n).0 == (EngineState {
            pc: s.pc + n,
            tape: s.tape.update(
                s.dp as int,
                wrap_cell(s.tape[s.dp as int], net_count(s.prog.subrange(s.pc as int, (s.pc + n) as int))),
            ),
            ..s
        }),
    decreases n,
{
    let seg = s.prog.subrange(s.pc as int, (s.pc + n) as int);
    if n == 0 {
        assert(s.tape.update(s.dp as int, wrap_cell(s.tape[s.dp as int], 0)) =~= s.tape);
    } else {
        let t = step_outcome(s).0;
        let v = s.tape[s.dp as int] as int;
        let d: int = if s.prog[s.pc as int] == OP_INC { 1 } else { -1 };
        assert(t == EngineState {
            pc: s.pc + 1,
            tape: s.tape.update(s.dp as int, wrap_cell(s.tape[s.dp as int], d)),
            ..s
        });
        lemma_inc_dec_count(t, (n - 1) as nat);
        let rest = s.prog.subrange(s.pc + 1 as int, (s.pc + n) as int);
        assert(seg.drop_first() =~= rest);
        assert(net_count(seg) == d + net_count(rest));
        let r = net_count(rest);
        lemma_add_mod_noop_right(r, v + d, 256);
        assert(wrap_cell(wrap_cell(s.tape[s.dp as int], d), r) == wrap_cell(
            s.tape[s.dp as int],
            d + r,
        ));
        assert(t.tape.update(s.dp as int, wrap_cell(t.tape[s.dp as int], r)) =~= s.tape.update(
            s.dp as int,
            wrap_cell(s.tape[s.dp as int], net_count(seg)),
        ));
    }
}

/// Appending `a` and then `b` gives the same program, the same loop index and
/// the same state as appending `a + b` at once, wherever the split falls (also
/// between a `[` and its `]`): scanning `b` from the open loops that the scan
/// of `a` left gives what one scan of `a + b` gives, and both are the index of
/// the whole program. So every later sequence of steps agrees too.
pub proof fn lemma_extend_split(s: EngineState, a: Seq<u8>, b: Seq<u8>)
    ensures
        index_scan(index_scan(index_of(s.prog), a, s.prog.len()), b, s.prog.len() + a.len())
            == index_scan(index_of(s.prog), a + b, s.prog.len()),
        index_scan(index_of(s.prog), a + b, s.prog.len()) == index_of(s.extended(a + b).prog),
        s.extended(a).extended(b) == s.extended(a + b),
        index_of(s.extended(a).extended(b).prog) == index_of(s.extended(a + b).prog),
        forall|n: nat| #[trigger] steps(s.extended(a).extended(b), n) == steps(s.extended(a + b), n),
{
    assert(s.prog + a + b =~= s.prog + (a + b));
    lemma_index_scan(s.prog, a);
    lemma_index_scan(s.prog + a, b);
    lemma_index_scan(s.prog, a + b);
}

/// Once `n` steps have reached the halted state without a failure, any
/// larger number of steps gives the same state and output: running to the
/// end is calling `step` exactly until it halts.
pub proof fn lemma_run_until_halted(s: EngineState, n: nat, m: nat)
    requires
        n <= m,
        steps(s, n).1 is Ok,
        steps(s, n).0.halted(),
    ensures
        steps(s, m) == steps(s, n),
    decreases n,
{
    if n == 0 {
        lemma_halted_fixed(s, m);
    } else {
        let t = step_outcome(s).0;
        lemma_run_until_halted(t, (n - 1) as nat, (m - 1) as nat);
    }
}

/// Moving the data pointer left from cell 0 fails with `PointerUnderflow`
/// and leaves the state as it was.
pub proof fn lemma_left_at_zero(s: EngineState)
    requires
        s.valid(),
        !s.halted(),
        s.prog[s.pc as int] == OP_LEFT,
        s.dp == 0,
    ensures
        step_outcome(s) == (s, Err::<(), BfError>(BfError::PointerUnderflow(s.pc as usize))),
{
}

/// Moving the data pointer right never fails and keeps it on the tape: at
/// the end of the tape one zero cell is appended, and no cell is lost or
/// changed.
pub proof fn lemma_right_grows(s: EngineState)
    requires
        s.valid(),
        !s.halted(),
        s.prog[s.pc as int] == OP_RIGHT,
    ensures
        step_spec(s) is Ok,
        step_spec(s)->Ok_0.dp == s.dp + 1,
        step_spec(s)->Ok_0.dp < step_spec(s)->Ok_0.tape.len(),
        s.dp + 1 == s.tape.len() ==> step_spec(s)->Ok_0.tape.len() == s.tape.len() + 1,
        s.dp + 1 < s.tape.len() ==> step_spec(s)->Ok_0.tape == s.tape,
        forall|k: int| 0 <= k < s.tape.len() ==> #[trigger] step_spec(s)->Ok_0.tape[k] == s.tape[k],
        forall|k: int|
            s.tape.len() <= k < step_spec(s)->Ok_0.tape.len() ==> #[trigger] step_spec(
                s,
            )->Ok_0.tape[k] == 0u8,
{
}

/// Reading with no input left stores 0 in the current cell and goes on to
/// the next instruction; it neither waits nor fails.
pub proof fn lemma_read_at_end_of_input(s: EngineState)
    requires
        s.valid(),
        !s.halted(),
        s.prog[s.pc as int] == OP_INPUT,
        s.input.len() == 0,
    ensures
        step_outcome(s) == (EngineState {
            pc: s.pc + 1,
            tape: s.tape.update(s.dp as int, 0u8),
            ..s
        }, Ok::<(), BfError>(())),
{
}

} // verus!
