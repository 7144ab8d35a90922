use bfrepl::interpreter::{decode, BFInt, BfError, Op, DEFAULT_TAPE_LEN};

fn engine(prog: &[u8], tape_len: usize) -> BFInt {
    let mut e = BFInt::with_tape_len(tape_len);
    assert_eq!(e.extend_prog(prog), Ok(()));
    e
}

#[test]
fn new_engine_is_empty_and_zeroed() {
    let e = BFInt::new();
    assert_eq!(e.program(), &[] as &[u8]);
    assert_eq!(e.program_counter(), 0);
    assert_eq!(e.tape().len(), DEFAULT_TAPE_LEN);
    assert!(e.tape().iter().all(|&c| c == 0));
    assert_eq!(e.data_pointer(), 0);
    assert!(e.is_halted());
}

#[test]
fn transfer_loop_on_two_cells() {
    let mut e = engine(b"++>+++[-<+>]", 2);
    assert_eq!(e.run(10_000), Ok(()));
    assert_eq!(e.tape()[0], 5);
    assert_eq!(e.tape()[1], 0);
    assert_eq!(e.data_pointer(), 1);
    assert!(e.is_halted());
}

#[test]
fn lone_open_bracket_is_reported() {
    let mut e = engine(b"[", 4);
    assert_eq!(e.step(), Err(BfError::UnmatchedOpenBracket(0)));
    assert_eq!(e.program_counter(), 0);
    assert_eq!(e.run(100), Err(BfError::UnmatchedOpenBracket(0)));
    assert_eq!(e.program_counter(), 0);
    assert!(!e.is_halted());
}

#[test]
fn open_bracket_with_nonzero_cell_is_reported() {
    let mut e = engine(b"+[", 4);
    assert_eq!(e.run(100), Err(BfError::UnmatchedOpenBracket(1)));
    assert_eq!(e.program_counter(), 1);
    assert_eq!(e.tape()[0], 1);
}

#[test]
fn read_at_end_of_input_stores_zero() {
    let mut e = engine(b"+++,", 3);
    assert_eq!(e.run(100), Ok(()));
    assert_eq!(e.tape()[0], 0);
    assert!(e.is_halted());
}

#[test]
fn read_takes_input_bytes_in_order() {
    let mut e = engine(b",>,>,", 4);
    e.feed_input(&[7, 9]);
    assert_eq!(e.run(100), Ok(()));
    assert_eq!(&e.tape()[..3], &[7, 9, 0]);
}

#[test]
fn output_emits_cell_values() {
    let mut e = engine(b"+++.>++.", 2);
    assert_eq!(e.run(100), Ok(()));
    assert_eq!(e.take_output(), vec![3, 2]);
    assert_eq!(e.take_output(), Vec::<u8>::new());
}

#[test]
fn hello_output() {
    // 8 * 9 = 72 ('H'), then 72 + 33 = 105 ('i')
    let mut e = engine(b"++++++++[>+++++++++<-]>.+++++++++++++++++++++++++++++++++.", 2);
    assert_eq!(e.run(10_000), Ok(()));
    assert_eq!(e.take_output(), b"Hi".to_vec());
}

#[test]
fn increments_wrap_at_256() {
    let prog = vec![b'+'; 257];
    let mut e = engine(&prog, 1);
    assert_eq!(e.run(1_000), Ok(()));
    assert_eq!(e.tape()[0], 1);
}

#[test]
fn decrement_from_zero_wraps_to_255() {
    let mut e = engine(b"-", 1);
    assert_eq!(e.step(), Ok(()));
    assert_eq!(e.tape()[0], 255);
}

#[test]
fn cell_is_net_count_mod_256() {
    // 300 '+' and 5 '-' leave (300 - 5) mod 256 = 39
    let mut prog = vec![b'+'; 300];
    prog.extend_from_slice(&[b'-'; 5]);
    let mut e = engine(&prog, 1);
    assert_eq!(e.run(1_000), Ok(()));
    assert_eq!(e.tape()[0], 39);
    // more '-' than '+': (2 - 5) mod 256 = 253
    let mut e = engine(b"+-+----", 1);
    assert_eq!(e.run(100), Ok(()));
    assert_eq!(e.tape()[0], 253);
}

#[test]
fn split_extension_matches_whole() {
    let prog: &[u8] = b"++[>++[>+<-]<-]>>.";
    for split in 0..=prog.len() {
        let mut a = BFInt::with_tape_len(4);
        assert_eq!(a.extend_prog(&prog[..split]), Ok(()));
        assert_eq!(a.extend_prog(&prog[split..]), Ok(()));
        let mut b = engine(prog, 4);
        for pos in 0..prog.len() {
            assert_eq!(a.matching_bracket(pos), b.matching_bracket(pos));
        }
        assert_eq!(a.run(10_000), Ok(()));
        assert_eq!(b.run(10_000), Ok(()));
        assert_eq!(a.tape(), b.tape());
        assert_eq!(a.take_output(), b.take_output());
    }
}

#[test]
fn loop_closed_by_later_extension() {
    let mut e = engine(b"+[", 2);
    assert_eq!(e.matching_bracket(1), None);
    assert_eq!(e.run(100), Err(BfError::UnmatchedOpenBracket(1)));
    assert_eq!(e.extend_prog(b"-]"), Ok(()));
    assert_eq!(e.matching_bracket(1), Some(3));
    assert_eq!(e.matching_bracket(3), Some(1));
    assert_eq!(e.run(100), Ok(()));
    assert_eq!(e.tape()[0], 0);
    assert!(e.is_halted());
}

#[test]
fn nested_brackets_match() {
    let e = engine(b"[[]][]", 1);
    assert_eq!(e.matching_bracket(0), Some(3));
    assert_eq!(e.matching_bracket(1), Some(2));
    assert_eq!(e.matching_bracket(2), Some(1));
    assert_eq!(e.matching_bracket(3), Some(0));
    assert_eq!(e.matching_bracket(4), Some(5));
    assert_eq!(e.matching_bracket(5), Some(4));
}

#[test]
fn unmatched_close_bracket_is_reported() {
    let mut e = BFInt::with_tape_len(2);
    assert_eq!(e.extend_prog(b"+]"), Err(BfError::UnmatchedCloseBracket(1)));
    assert_eq!(e.program(), b"+]");
    assert_eq!(e.matching_bracket(1), None);
    assert_eq!(e.run(100), Err(BfError::UnmatchedCloseBracket(1)));
    assert_eq!(e.program_counter(), 1);
    // a later '[' does not match an earlier ']'
    assert_eq!(e.extend_prog(b"["), Ok(()));
    assert_eq!(e.matching_bracket(1), None);
    assert_eq!(e.matching_bracket(2), None);
}

#[test]
fn run_equals_repeated_step() {
    let prog: &[u8] = b"+++[>++<-]>.<,.";
    let mut a = engine(prog, 3);
    let mut b = engine(prog, 3);
    assert_eq!(a.run(10_000), Ok(()));
    let mut n = 0;
    while !b.is_halted() {
        assert_eq!(b.step(), Ok(()));
        n += 1;
    }
    assert!(n > 0);
    assert_eq!(a.tape(), b.tape());
    assert_eq!(a.data_pointer(), b.data_pointer());
    assert_eq!(a.take_output(), b.take_output());
    // stepping a halted engine changes nothing
    assert_eq!(b.step(), Ok(()));
    assert_eq!(b.program_counter(), prog.len());
}

#[test]
fn run_stops_after_step_budget() {
    let mut e = engine(b"+++++", 1);
    assert_eq!(e.run(2), Ok(()));
    assert_eq!(e.program_counter(), 2);
    assert_eq!(e.tape()[0], 2);
    assert!(!e.is_halted());
}

#[test]
fn left_from_cell_zero_underflows() {
    let mut e = engine(b"<", 2);
    assert_eq!(e.step(), Err(BfError::PointerUnderflow(0)));
    assert_eq!(e.data_pointer(), 0);
    assert_eq!(e.program_counter(), 0);
}

#[test]
fn right_past_the_end_grows_the_tape() {
    let mut e = engine(b"+>+>", 1);
    assert_eq!(e.run(100), Ok(()));
    assert_eq!(e.tape(), &[1, 1, 0]);
    assert_eq!(e.data_pointer(), 2);
}

#[test]
fn set_cell_writes_one_cell() {
    let mut e = engine(b"[->+<]", 3);
    e.set_cell(0, 7);
    assert_eq!(e.run(1_000), Ok(()));
    assert_eq!(&e.tape()[..2], &[0, 7]);
}

#[test]
fn comments_are_skipped() {
    let mut e = engine(b"a+b c+", 1);
    assert_eq!(e.run(100), Ok(()));
    assert_eq!(e.tape()[0], 2);
}

#[test]
fn decode_opcodes() {
    assert_eq!(decode(b'>'), Op::Right);
    assert_eq!(decode(b'<'), Op::Left);
    assert_eq!(decode(b'+'), Op::Inc);
    assert_eq!(decode(b'-'), Op::Dec);
    assert_eq!(decode(b'.'), Op::Output);
    assert_eq!(decode(b','), Op::Input);
    assert_eq!(decode(b'['), Op::Open);
    assert_eq!(decode(b']'), Op::Close);
    assert_eq!(decode(b'x'), Op::Skip);
}

#[test]
fn extension_reports_first_unmatched_close() {
    let mut e = BFInt::with_tape_len(2);
    assert_eq!(e.extend_prog(b"[+"), Ok(()));
    // the first ']' closes the loop left open; the next two find none
    assert_eq!(e.extend_prog(b"]x]]"), Err(BfError::UnmatchedCloseBracket(4)));
    assert_eq!(e.matching_bracket(0), Some(2));
    assert_eq!(e.matching_bracket(4), None);
    assert_eq!(e.matching_bracket(5), None);
    assert_eq!(e.program().len(), 6);
}
