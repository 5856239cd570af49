use advent::challenge::{Challenge as _, Error};
use advent::two::{
    execute, report_result, run_script, run_step, Challenge, EvalError, EvalStep, Fault, OpApplicationError,
    OpCode, OpCodeParseError, ProgramParseError, RegisterErr, Registers, Run, RunError,
};

#[test]
fn test_run() {
    let mut registers = Registers(vec![1, 0, 0, 0, 99]);
    run_script(&mut registers);
    assert_eq!(
        [2, 0, 0, 0, 99],
        *registers.range(0, 4).expect("test 1 failed")
    );

    let mut registers = Registers(vec![2, 3, 0, 3, 99]);
    run_script(&mut registers);
    assert_eq!(
        [2, 3, 0, 6, 99],
        *registers.range(0, 4).expect("test 2 failed")
    );

    let mut registers = Registers(vec![2, 4, 4, 5, 99, 0]);
    run_script(&mut registers);
    assert_eq!(
        [2, 4, 4, 5, 99, 9801],
        registers.range(0, 5).expect("test 3 failed")
    );

    let mut registers = Registers(vec![1, 1, 1, 4, 99, 5, 6, 0, 99]);
    run_script(&mut registers);
    assert_eq!(
        [30, 1, 1, 4, 2, 5, 6, 0, 99],
        registers.range(0, 8).expect("test 4 failed")
    );
}

#[test]
fn test_op_parse() {
    let registers = Registers(vec![1, 0, 0, 0, 99]);
    let code = OpCode::parse(0, &registers).expect("Failed to parse add op code");
    assert_eq!(OpCode::Add(0, 0, 0), code);

    let registers = Registers(vec![2, 0, 0, 0, 99]);
    let code = OpCode::parse(0, &registers).expect("Failed to parse mul op code");
    assert_eq!(OpCode::Mul(0, 0, 0), code);

    let registers = Registers(vec![99, 0, 0, 0, 99]);
    let code = OpCode::parse(0, &registers).expect("Failed to parse stop op code");
    assert_eq!(OpCode::Stop, code);
}

#[test]
fn test_op_apply() {
    let mut registers = Registers(vec![1, 0, 0, 0, 99]);
    let code = OpCode::Add(0, 1, 3);
    code.apply(&mut registers)
        .expect("Addition application failed");
    assert_eq!([1, 0, 0, 1, 99], registers.0[0..5]);

    let mut registers = Registers(vec![1, 3, 0, 0, 99]);
    let code = OpCode::Mul(0, 1, 3);
    code.apply(&mut registers)
        .expect("Multiplication application failed");
    assert_eq!([1, 3, 0, 3, 99], registers.0[0..5]);
}

fn halted(program: &str) -> Vec<usize> {
    execute(program, None, None).expect("the program halts").0
}

#[test]
fn halts_after_one_addition() {
    assert_eq!(halted("1,0,0,0,99"), vec![2, 0, 0, 0, 99]);
}

#[test]
fn halts_after_one_multiplication() {
    assert_eq!(halted("2,3,0,3,99"), vec![2, 3, 0, 6, 99]);
}

#[test]
fn multiplies_into_a_cell_behind_the_stop() {
    assert_eq!(halted("2,4,4,5,99,0"), vec![2, 4, 4, 5, 99, 9801]);
}

#[test]
fn runs_an_instruction_that_the_program_wrote() {
    assert_eq!(
        halted("1,1,1,4,99,5,6,0,99"),
        vec![30, 1, 1, 4, 2, 5, 6, 0, 99]
    );
}

#[test]
fn faults_when_the_pointer_leaves_memory() {
    let mut registers = Registers(vec![1, 0, 0, 0]);
    let run = run_script(&mut registers);
    assert_eq!(
        run,
        Run::Error(RunError::Eval(EvalError(OpCodeParseError::Register(
            RegisterErr::Missing(4)
        ))))
    );
    assert_eq!(registers.0, vec![2, 0, 0, 0]);
    assert_eq!(
        execute("1,0,0,0", None, None),
        Err(Fault::Run(RunError::Eval(EvalError(
            OpCodeParseError::Register(RegisterErr::Missing(4))
        ))))
    );
}

#[test]
fn faults_on_operands_that_are_cut_off() {
    let registers = Registers(vec![99, 1, 0, 0]);
    assert_eq!(
        OpCode::parse(1, &registers),
        Err(OpCodeParseError::Register(RegisterErr::MissingRange(2, 4)))
    );
}

#[test]
fn faults_on_an_operand_outside_memory() {
    let mut registers = Registers(vec![1, 7, 0, 0, 99]);
    assert_eq!(
        run_script(&mut registers),
        Run::Error(RunError::Apply(OpApplicationError::Register(
            RegisterErr::Missing(7)
        )))
    );
    assert_eq!(registers.0, vec![1, 7, 0, 0, 99]);

    let mut registers = Registers(vec![1, 0, 9, 0, 99]);
    assert_eq!(
        OpCode::Add(0, 9, 0).apply(&mut registers),
        Err(OpApplicationError::Register(RegisterErr::Missing(9)))
    );

    let mut registers = Registers(vec![2, 0, 0, 5, 99]);
    assert_eq!(
        run_script(&mut registers),
        Run::Error(RunError::Apply(OpApplicationError::Register(
            RegisterErr::Insert(5)
        )))
    );
    assert_eq!(registers.0, vec![2, 0, 0, 5, 99]);
}

#[test]
fn faults_on_an_unknown_opcode() {
    let registers = Registers(vec![5, 0, 0, 0, 99]);
    assert_eq!(
        OpCode::parse(0, &registers),
        Err(OpCodeParseError::UnknownOpcode {
            value: 5,
            position: 0
        })
    );

    assert_eq!(
        execute("1,0,0,0,5,0,0,0,99", None, None),
        Err(Fault::Run(RunError::Eval(EvalError(
            OpCodeParseError::UnknownOpcode {
                value: 5,
                position: 4
            }
        ))))
    );
}

#[test]
fn faults_on_a_result_too_large_for_a_cell() {
    let mut registers = Registers(vec![1, 5, 5, 0, 99, usize::MAX]);
    assert_eq!(
        run_script(&mut registers),
        Run::Error(RunError::Apply(OpApplicationError::ArithmeticOverflow(
            usize::MAX,
            usize::MAX
        )))
    );
    assert_eq!(registers.0, vec![1, 5, 5, 0, 99, usize::MAX]);

    let mut registers = Registers(vec![2, 5, 6, 0, 99, usize::MAX, 2]);
    assert_eq!(
        OpCode::Mul(5, 6, 0).apply(&mut registers),
        Err(OpApplicationError::ArithmeticOverflow(usize::MAX, 2))
    );

    let mut registers = Registers(vec![1, 5, 6, 0, 99, usize::MAX - 1, 1]);
    assert_eq!(run_script(&mut registers), Run::Finished);
    assert_eq!(registers.0[0], usize::MAX);
}

#[test]
fn applying_a_stop_is_an_error() {
    let mut registers = Registers(vec![99]);
    assert_eq!(
        OpCode::Stop.apply(&mut registers),
        Err(OpApplicationError::Stop)
    );
    assert_eq!(registers.0, vec![99]);
}

#[test]
fn parse_failure_names_the_field_and_its_place() {
    assert_eq!(
        Registers::from_program("1,0,x,0,99"),
        Err(ProgramParseError {
            line_no: 0,
            col_no: 2,
            bad_val: "x".to_string()
        })
    );
    assert_eq!(
        Registers::from_program("1,0\n3,4,-5,x"),
        Err(ProgramParseError {
            line_no: 1,
            col_no: 2,
            bad_val: "-5".to_string()
        })
    );
    assert_eq!(
        execute("1,0,x,0,99", Some(12), Some(2)),
        Err(Fault::Parse(ProgramParseError {
            line_no: 0,
            col_no: 2,
            bad_val: "x".to_string()
        }))
    );
}

#[test]
fn loads_lines_one_after_the_other() {
    assert_eq!(
        Registers::from_program("1,2,3\n4,5\r\n6"),
        Ok(Registers(vec![1, 2, 3, 4, 5, 6]))
    );
    assert_eq!(
        Registers::from_program("1,0,0,0,99\n"),
        Ok(Registers(vec![1, 0, 0, 0, 99]))
    );
    assert_eq!(
        Registers::from_program("+7,007"),
        Ok(Registers(vec![7, 7]))
    );
}

#[test]
fn empty_text_is_empty_memory() {
    assert_eq!(Registers::from_program(""), Ok(Registers(vec![])));
    assert_eq!(
        execute("", None, None),
        Err(Fault::Run(RunError::Eval(EvalError(
            OpCodeParseError::Register(RegisterErr::Missing(0))
        ))))
    );
}

#[test]
fn blank_fields_and_lines_fail_the_load() {
    assert_eq!(
        Registers::from_program("1,,2"),
        Err(ProgramParseError {
            line_no: 0,
            col_no: 1,
            bad_val: String::new()
        })
    );
    assert_eq!(
        Registers::from_program("1,2\n\n3"),
        Err(ProgramParseError {
            line_no: 1,
            col_no: 0,
            bad_val: String::new()
        })
    );
    assert_eq!(
        Registers::from_program("1, 2"),
        Err(ProgramParseError {
            line_no: 0,
            col_no: 1,
            bad_val: " 2".to_string()
        })
    );
    assert_eq!(
        Registers::from_program("1,99999999999999999999999999"),
        Err(ProgramParseError {
            line_no: 0,
            col_no: 1,
            bad_val: "99999999999999999999999999".to_string()
        })
    );
}

#[test]
fn memory_reads_and_writes_stay_in_bounds() {
    let mut registers = Registers(vec![10, 20, 30]);
    assert_eq!(registers.at(0), Ok(&10));
    assert_eq!(registers.at(2), Ok(&30));
    assert_eq!(registers.at(3), Err(RegisterErr::Missing(3)));

    assert_eq!(registers.set(2, 31), Ok(()));
    assert_eq!(registers.0, vec![10, 20, 31]);
    assert_eq!(registers.set(3, 40), Err(RegisterErr::Insert(3)));
    assert_eq!(registers.0, vec![10, 20, 31]);

    assert_eq!(registers.range(0, 2), Ok(&[10, 20, 31][..]));
    assert_eq!(registers.range(1, 1), Ok(&[20][..]));
    assert_eq!(registers.range(1, 0), Ok(&[][..]));
    assert_eq!(registers.range(3, 2), Ok(&[][..]));
    assert_eq!(registers.range(1, 3), Err(RegisterErr::MissingRange(1, 3)));
    assert_eq!(registers.range(2, 0), Err(RegisterErr::MissingRange(2, 0)));
    assert_eq!(
        registers.range(0, usize::MAX),
        Err(RegisterErr::MissingRange(0, usize::MAX))
    );
}

#[test]
fn eval_gives_the_next_state() {
    let registers = Registers(vec![1, 0, 0, 0, 99]);
    assert_eq!(
        EvalStep::new(0).eval(&registers),
        Ok((EvalStep::new(4), OpCode::Add(0, 0, 0)))
    );
    assert_eq!(
        EvalStep::new(4).eval(&registers),
        Ok((EvalStep::new(5), OpCode::Stop))
    );
    assert_eq!(
        EvalStep::new(5).eval(&registers),
        Err(EvalError(OpCodeParseError::Register(RegisterErr::Missing(
            5
        ))))
    );
}

#[test]
fn decoding_twice_gives_the_same() {
    let registers = Registers(vec![2, 3, 0, 3, 99, 7]);
    for position in 0..8 {
        let first = OpCode::parse(position, &registers);
        let second = OpCode::parse(position, &registers);
        assert_eq!(first, second);
    }
    assert_eq!(registers.0, vec![2, 3, 0, 3, 99, 7]);
}

#[test]
fn steps_one_at_a_time() {
    let mut registers = Registers(vec![1, 0, 0, 0, 99]);
    assert_eq!(
        run_step(&EvalStep::new(0), &mut registers),
        Run::Continue(EvalStep::new(4))
    );
    assert_eq!(registers.0, vec![2, 0, 0, 0, 99]);
    assert_eq!(run_step(&EvalStep::new(4), &mut registers), Run::Finished);
    assert_eq!(registers.0, vec![2, 0, 0, 0, 99]);
}

#[test]
fn sets_noun_and_verb_before_the_run() {
    let registers = execute("1,0,0,0,99,7,8,9,10,11,12,13,30", Some(12), Some(2)).unwrap();
    assert_eq!(
        registers.0,
        vec![32, 12, 2, 0, 99, 7, 8, 9, 10, 11, 12, 13, 30]
    );
    assert_eq!(
        execute("99", Some(12), Some(2)),
        Err(Fault::Patch(RegisterErr::Insert(1)))
    );
    assert_eq!(
        execute("99,0", Some(12), Some(2)),
        Err(Fault::Patch(RegisterErr::Insert(2)))
    );
    assert_eq!(execute("99,0", None, None), Ok(Registers(vec![99, 0])));
}

#[test]
fn reports_the_value_at_address_zero() {
    assert_eq!(
        report_result(&Registers(vec![3500, 9])),
        Ok("Final value: 3500".to_string())
    );
    assert_eq!(
        report_result(&Registers(vec![])),
        Err(Error::Failure(
            "Cannot report result from invalid registers: No value at position 0".to_string()
        ))
    );
}

#[test]
fn part_one_of_the_second_puzzle() {
    let mut challenge = Challenge::new();
    let source = challenge.source("one").unwrap();
    assert_eq!((source.challenge, source.part), ("2", "1.txt"));
    assert!(challenge.source("two").is_none());

    assert_eq!(
        challenge.run("one", Ok("1,0,0,0,99,7,8,9,10,11,12,13,30")),
        Ok("Final value: 32".to_string())
    );
    assert_eq!(
        challenge.one("1,0,0,0,99,7,8,9,10,11,12,13,30"),
        Ok("Final value: 32".to_string())
    );
    assert_eq!(
        challenge.run("one", Ok("1,0,0,0,99,7,8,9,10,11,12,13,x")),
        Err(Error::Failure("Parsing failure at 0,12: x".to_string()))
    );
    assert_eq!(
        challenge.run("one", Ok("99")),
        Err(Error::Failure("Failed to insert at position 1".to_string()))
    );
    assert_eq!(
        challenge.run("one", Ok("5,0,0")),
        Err(Error::Failure(
            "Error running script: Error in evaluation: Failure parsing OpCode: Invalid op code 5 at position 0"
                .to_string()
        ))
    );
    assert_eq!(
        challenge.run("one", Err("no such file")),
        Err(Error::Failure(
            "Failed to read input file 1.txt for part 1 of challenge 2: no such file".to_string()
        ))
    );
    assert_eq!(
        challenge.run("two", Ok("99")),
        Err(Error::MissingPart("No part two available".to_string()))
    );
}

#[test]
fn machine_errors_in_words() {
    assert_eq!(
        RegisterErr::Insert(12).to_string(),
        "Failed to insert at position 12"
    );
    assert_eq!(RegisterErr::Missing(0).to_string(), "No value at position 0");
    assert_eq!(
        RegisterErr::MissingRange(5, 7).to_string(),
        "Value in range [5, 7] is missing"
    );
    assert_eq!(
        OpCodeParseError::Register(RegisterErr::MissingRange(5, 7)).to_string(),
        "Failure parsing OpCode: Value in range [5, 7] is missing"
    );
    assert_eq!(
        OpApplicationError::Stop.to_string(),
        "Attempted to apply Stop op code"
    );
    assert_eq!(
        OpApplicationError::Register(RegisterErr::Missing(100)).to_string(),
        "Math failed: No value at position 100"
    );
    assert_eq!(
        OpApplicationError::ArithmeticOverflow(7, 8).to_string(),
        "Math failed: the result of 7 and 8 does not fit a register"
    );
    assert_eq!(
        RunError::Apply(OpApplicationError::Stop).to_string(),
        "Error running script: Attempted to apply Stop op code"
    );
    assert_eq!(
        Fault::Patch(RegisterErr::Insert(2)).to_string(),
        "Failed to insert at position 2"
    );
}

#[test]
fn well_formed_programs_halt_and_keep_their_length() {
    for program in [
        "99",
        "1,0,0,0,99",
        "2,3,0,3,99",
        "1,9,10,3,2,3,11,0,99,30,40,50",
        "1,0,0,4,99,0,0,0,99",
        "2,0,0,0,1,0,0,0,99",
    ] {
        let loaded = Registers::from_program(program).unwrap();
        let mut registers = Registers(loaded.0.clone());
        assert_eq!(run_script(&mut registers), Run::Finished);
        assert_eq!(registers.0.len(), loaded.0.len());
    }
    assert_eq!(
        halted("1,9,10,3,2,3,11,0,99,30,40,50"),
        vec![3500, 9, 10, 70, 2, 3, 11, 0, 99, 30, 40, 50]
    );
}

#[test]
fn a_program_without_a_stop_faults() {
    for program in ["", "1,0,0,0", "1,0,0,0,2,0,0,0", "1,0,0,0,1,0,0"] {
        let mut registers = Registers::from_program(program).unwrap();
        let length = registers.0.len();
        assert!(matches!(run_script(&mut registers), Run::Error(_)));
        assert_eq!(registers.0.len(), length);
    }
    let mut registers = Registers(vec![1, 0, 0, 0, 2, 0, 0]);
    assert_eq!(
        run_script(&mut registers),
        Run::Error(RunError::Eval(EvalError(OpCodeParseError::Register(
            RegisterErr::MissingRange(5, 7)
        ))))
    );
    assert_eq!(registers.0, vec![2, 0, 0, 0, 2, 0, 0]);
}
