use deque_vm::direction::Direction;
use deque_vm::error::VmError;
use deque_vm::parse::parse_i64;
use deque_vm::text::{eq_ignore_case, tokenize_str, trim};
use deque_vm::vm::{Effect, Status, VM};

/// Drives a machine to completion, feeding `inputs` to `read`/`readc` in
/// order (an exhausted list feeds empty lines, as a closed input stream
/// would) and collecting what would be printed.
fn run_vm(vm: &mut VM, inputs: &[&str]) -> (Vec<String>, Result<(), VmError>) {
    let mut out: Vec<String> = Vec::new();
    let mut next_input = 0usize;
    for _ in 0..100000 {
        match vm.step() {
            Ok(Effect::Quiet) => {}
            Ok(Effect::Print(v)) => out.push(format!("{}", v)),
            Ok(Effect::PrintChar(b)) => out.push(format!("{}", b as char)),
            Ok(Effect::Trace(g)) => out.push(g.into_iter().collect::<String>()),
            Ok(Effect::NeedInt) => {
                let line = if next_input < inputs.len() { inputs[next_input] } else { "" };
                next_input += 1;
                if let Err(e) = vm.provide_int(line) {
                    return (out, Err(e));
                }
            }
            Ok(Effect::NeedChar) => {
                let line = if next_input < inputs.len() { inputs[next_input] } else { "" };
                next_input += 1;
                vm.provide_char(line);
            }
            Ok(Effect::Halt) => return (out, Ok(())),
            Err(e) => return (out, Err(e)),
        }
    }
    panic!("program did not settle");
}

fn run_program(text: &str, inputs: &[&str]) -> (Vec<String>, Result<(), VmError>) {
    let mut vm = VM::new();
    vm.load_program(text.to_string()).expect("program should load");
    run_vm(&mut vm, inputs)
}

#[test]
fn push_then_pop_is_lifo_on_both_ends() {
    for dir in [Direction::Left, Direction::Right] {
        let mut vm = VM::new();
        vm.push(&dir, 1);
        vm.push(&dir, 2);
        vm.push(&dir, 3);
        assert_eq!(vm.pop(&dir), Ok(3));
        assert_eq!(vm.pop(&dir), Ok(2));
        assert_eq!(vm.pop(&dir), Ok(1));
        assert_eq!(vm.pop(&dir), Err(VmError::StackUnderflow));
    }
}

#[test]
fn dup_duplicates_the_top() {
    for dir in [Direction::Left, Direction::Right] {
        let mut vm = VM::new();
        vm.push(&dir, 7);
        vm.push(&dir, 9);
        vm.dup(&dir).unwrap();
        assert_eq!(vm.data_len(), 3);
        assert_eq!(vm.peek(&dir), Some(9));
        assert_eq!(vm.pop(&dir), Ok(9));
        assert_eq!(vm.pop(&dir), Ok(9));
        assert_eq!(vm.pop(&dir), Ok(7));
    }
}

#[test]
fn swap_twice_restores_order() {
    let dir = Direction::Left;
    let mut vm = VM::new();
    vm.push(&dir, 4);
    vm.push(&dir, 8);
    vm.swap(&dir).unwrap();
    assert_eq!(vm.peek(&dir), Some(4));
    vm.swap(&dir).unwrap();
    assert_eq!(vm.pop(&dir), Ok(8));
    assert_eq!(vm.pop(&dir), Ok(4));
}

#[test]
fn move_carries_top_to_other_end() {
    let mut vm = VM::new();
    vm.push(&Direction::Left, 1);
    vm.push(&Direction::Left, 2);
    vm.move_(&Direction::Left).unwrap();
    // 2 left the left end and is now the top of the right end.
    assert_eq!(vm.peek(&Direction::Left), Some(1));
    assert_eq!(vm.peek(&Direction::Right), Some(2));
    assert_eq!(vm.data_len(), 2);
}

#[test]
fn over_duplicates_second_from_top() {
    let dir = Direction::Right;
    let mut vm = VM::new();
    vm.push(&dir, 5);
    vm.push(&dir, 6);
    vm.over(&dir).unwrap();
    assert_eq!(vm.pop(&dir), Ok(5));
    assert_eq!(vm.pop(&dir), Ok(6));
    assert_eq!(vm.pop(&dir), Ok(5));
}

#[test]
fn arithmetic_and_logic_opcodes() {
    let d = Direction::Left;
    let mut vm = VM::new();
    vm.push(&d, 10);
    vm.push(&d, 3);
    vm.sub(&d).unwrap(); // b - a = 10 - 3
    assert_eq!(vm.pop(&d), Ok(7));

    vm.push(&d, 2);
    vm.push(&d, 5);
    vm.add(&d).unwrap();
    assert_eq!(vm.pop(&d), Ok(7));

    vm.push(&d, 1); // b
    vm.push(&d, 3); // a
    vm.shl(&d).unwrap(); // 1 << 3
    assert_eq!(vm.pop(&d), Ok(8));

    vm.push(&d, 16);
    vm.push(&d, 2);
    vm.shr(&d).unwrap(); // 16 >> 2
    assert_eq!(vm.pop(&d), Ok(4));

    vm.push(&d, 6);
    vm.push(&d, 6);
    vm.eq(&d).unwrap();
    assert_eq!(vm.pop(&d), Ok(1));

    vm.push(&d, 12); // b
    vm.push(&d, 10); // a
    vm.and(&d).unwrap();
    assert_eq!(vm.pop(&d), Ok(8));
    vm.push(&d, 12);
    vm.push(&d, 10);
    vm.or(&d).unwrap();
    assert_eq!(vm.pop(&d), Ok(14));
    vm.push(&d, 12);
    vm.push(&d, 10);
    vm.xor(&d).unwrap();
    assert_eq!(vm.pop(&d), Ok(6));

    vm.push(&d, 0);
    vm.not(&d).unwrap();
    assert_eq!(vm.pop(&d), Ok(-1));

    // a is the first pop: 9 > 4 is asked as a > b with a = 4? No: push 9
    // then 4; a = 4, b = 9; 4 > 9 is false.
    vm.push(&d, 9);
    vm.push(&d, 4);
    vm.greater(&d).unwrap();
    assert_eq!(vm.pop(&d), Ok(0));
    vm.push(&d, 9);
    vm.push(&d, 4);
    vm.less(&d).unwrap();
    assert_eq!(vm.pop(&d), Ok(1));
    vm.push(&d, 4);
    vm.push(&d, 4);
    vm.greater_eq(&d).unwrap();
    assert_eq!(vm.pop(&d), Ok(1));
    vm.push(&d, 5);
    vm.push(&d, 4);
    vm.less_eq(&d).unwrap();
    assert_eq!(vm.pop(&d), Ok(1));
}

#[test]
fn wrapping_add_at_the_edge() {
    let d = Direction::Left;
    let mut vm = VM::new();
    vm.push(&d, i64::MAX);
    vm.push(&d, 1);
    vm.add(&d).unwrap();
    assert_eq!(vm.pop(&d), Ok(i64::MIN));
}

#[test]
fn underflow_is_reported_not_panicked() {
    let (out, r) = run_program("!add", &[]);
    assert!(out.is_empty());
    assert_eq!(r, Err(VmError::StackUnderflow));
}

#[test]
fn unknown_bare_token_fails_at_run_time() {
    let (_, r) = run_program("!bogus", &[]);
    assert_eq!(r, Err(VmError::UnknownLabel));
}

#[test]
fn malformed_token_fails_at_load_time() {
    let mut vm = VM::new();
    assert_eq!(vm.load_program("!1 naked !2".to_string()), Err(VmError::Parse));
    // Nothing was loaded.
    assert_eq!(vm.program_len(), 0);
}

#[test]
fn cross_direction_program_prints_four() {
    // Pushes 3 right, 5 then 2 left: the store is one shared queue, so the
    // right end still holds 3 and 5 and `sub!` finds both operands.
    let (out, r) = run_program("3! !5 !2 sub! !add !print", &[]);
    assert_eq!(r, Ok(()));
    assert_eq!(out, vec!["4".to_string()]);
}

#[test]
fn label_loop_counts_down() {
    let text = "!10 loop: !dup !0 !>= !end !jmpif !dup !print !1 !sub !loop !jmp end:";
    let (out, r) = run_program(text, &[]);
    assert_eq!(r, Ok(()));
    let want: Vec<String> = (1..=10).rev().map(|n: i64| format!("{}", n)).collect();
    assert_eq!(out, want);
}

#[test]
fn comparison_program_pops_strictly() {
    // `!>` pops a = 3, then b = 5, and pushes (a > b): zero.
    let (out, r) = run_program("!5 !3 !> !print", &[]);
    assert_eq!(r, Ok(()));
    assert_eq!(out, vec!["0".to_string()]);
}

#[test]
fn exit_zero_halts_quietly() {
    let (out, r) = run_program("!0 !exit", &[]);
    assert_eq!(r, Ok(()));
    assert!(out.is_empty());
}

#[test]
fn exit_nonzero_reports_its_code() {
    let (out, r) = run_program("!1 !exit", &[]);
    assert!(out.is_empty());
    assert_eq!(r, Err(VmError::RuntimeExit(1)));
}

#[test]
fn jmpif_takes_any_nonzero_condition() {
    // Pops the address 5, then the condition 2: nonzero, so the jump to
    // `!0 !exit` is taken and the `!1 !exit` in between never runs.
    let (_, r) = run_program("!2 !5 !jmpif !1 !exit !0 !exit", &[]);
    assert_eq!(r, Ok(()));
}

#[test]
fn jmpif_falls_through_on_zero() {
    let (_, r) = run_program("!0 !5 !jmpif !1 !exit !0 !exit", &[]);
    assert_eq!(r, Err(VmError::RuntimeExit(1)));
}

#[test]
fn jmp_to_negative_address_is_an_invalid_fetch() {
    let (_, r) = run_program("!-3 !jmp", &[]);
    assert_eq!(r, Err(VmError::InvalidAddress));
}

#[test]
fn jmp_past_the_end_halts() {
    let (_, r) = run_program("!99 !jmp !1 !exit", &[]);
    assert_eq!(r, Ok(()));
}

#[test]
fn labels_match_case_insensitively() {
    // `Spot:` defines the label; the reference `!SPOT` resolves to its
    // address, 0, which `!print` emits.
    let (out, r) = run_program("spot: !SPOT !print", &[]);
    assert_eq!(r, Ok(()));
    assert_eq!(out, vec!["0".to_string()]);
}

#[test]
fn label_address_is_its_token_position() {
    let (out, r) = run_program("!0 !drop here: !here !print", &[]);
    assert_eq!(r, Ok(()));
    assert_eq!(out, vec!["2".to_string()]);
}

#[test]
fn read_parses_a_trimmed_line() {
    let (out, r) = run_program("!read !print", &[" 42 "]);
    assert_eq!(r, Ok(()));
    assert_eq!(out, vec!["42".to_string()]);
}

#[test]
fn read_rejects_non_integer_input() {
    let (_, r) = run_program("!read !print", &["forty-two"]);
    assert_eq!(r, Err(VmError::NonIntegerInput));
}

#[test]
fn readc_takes_first_char_or_space() {
    let (out, r) = run_program("!readc !print !readc !print", &["xyz", ""]);
    assert_eq!(r, Ok(()));
    assert_eq!(out, vec!["120".to_string(), "32".to_string()]);
}

#[test]
fn printc_truncates_to_one_byte() {
    let (out, r) = run_program("!65 !printc", &[]);
    assert_eq!(r, Ok(()));
    assert_eq!(out, vec!["A".to_string()]);
}

#[test]
fn trace_draws_one_glyph_per_element() {
    let (out, r) = run_program("1! 5! 1! !trace !0 !exit", &[]);
    assert_eq!(r, Ok(()));
    assert_eq!(out, vec!["* *".to_string()]);
}

#[test]
fn status_moves_from_running_to_halted() {
    let mut vm = VM::new();
    assert_eq!(vm.current_status(), Status::Running);
    vm.load_program("!0 !exit".to_string()).unwrap();
    let (_, r) = run_vm(&mut vm, &[]);
    assert_eq!(r, Ok(()));
    assert_eq!(vm.current_status(), Status::Halted);
}

#[test]
fn jmp_sets_the_instruction_pointer_exactly() {
    let mut vm = VM::new();
    vm.load_program("!7 !jmp".to_string()).unwrap();
    vm.step().unwrap(); // push 7
    vm.step().unwrap(); // jmp
    assert_eq!(vm.ip_value(), 7);
}

#[test]
fn parse_i64_accepts_exact_bounds() {
    assert_eq!(parse_i64("9223372036854775807"), Some(i64::MAX));
    assert_eq!(parse_i64("-9223372036854775808"), Some(i64::MIN));
    assert_eq!(parse_i64("+17"), Some(17));
    assert_eq!(parse_i64("0000000000000000000000042"), Some(42));
    assert_eq!(parse_i64("9223372036854775808"), None);
    assert_eq!(parse_i64("-9223372036854775809"), None);
    assert_eq!(parse_i64(""), None);
    assert_eq!(parse_i64("-"), None);
    assert_eq!(parse_i64("12a"), None);
}

#[test]
fn oversized_literal_falls_back_to_label_lookup() {
    // Does not fit an i64, is not a label either: the run fails.
    let (_, r) = run_program("!9223372036854775808", &[]);
    assert_eq!(r, Err(VmError::UnknownLabel));
}

#[test]
fn tokenizer_splits_on_whitespace_runs() {
    let toks = tokenize_str("  !1\t2!\n\nfoo:  ");
    let toks: Vec<&str> = toks.iter().map(|s| s.as_str()).collect();
    assert_eq!(toks, vec!["!1", "2!", "foo:"]);
}

#[test]
fn trim_strips_both_sides() {
    assert_eq!(trim("  abc \t"), "abc");
    assert_eq!(trim("   "), "");
    assert_eq!(trim("x"), "x");
}

#[test]
fn case_folding_comparison() {
    assert!(eq_ignore_case("LooP", "loop"));
    assert!(!eq_ignore_case("loop", "pool"));
}

#[test]
fn empty_program_halts_immediately() {
    let (out, r) = run_program("   ", &[]);
    assert_eq!(r, Ok(()));
    assert!(out.is_empty());
}
