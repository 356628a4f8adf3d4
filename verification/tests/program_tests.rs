use rgwbasic::console::{position_adjustment, DefaultConsole};
use rgwbasic::parser::{parse_instruction_line_from_string, ParserResult};
use rgwbasic::program::{
    calculate_jump_result, find_next, find_wend, for_next_counter, next_fragment_position,
    paired_line, step_next_line, while_decision, ControlState, FragmentStep, GwProgram,
    InstructionResult, LineExecutionArgument, RealLine,
};
use rgwbasic::statements::{GwGosub, GwGotoStat, GwInstruction, GwNext, GwReturn, GwWend, ProgramLine};

fn line(text: &str) -> ProgramLine {
    match parse_instruction_line_from_string(String::from(text)) {
        ParserResult::Success(l) => l,
        _ => panic!("line expected: {}", text),
    }
}

fn program_of(texts: &[&str]) -> GwProgram {
    let mut program = GwProgram::new();
    for t in texts {
        program.add_line(line(t));
    }
    program
}

#[test]
fn add_line_keeps_lines_ordered_and_replaces() {
    let mut program = program_of(&["30 x = 3", "10 x = 1", "20 x = 2"]);
    let numbers: Vec<i16> = program.lines.iter().map(|l| l.line).collect();
    assert_eq!(numbers, vec![10, 20, 30]);
    program.add_line(line("20 y = 5"));
    assert_eq!(
        program.list_lines(),
        vec![String::from("(10 X = 1)"), String::from("(20 Y = 5)"), String::from("(30 X = 3)")]
    );
    program.add_line(line("40 END"));
    program.add_line(line("5 CLS"));
    let numbers: Vec<i16> = program.lines.iter().map(|l| l.line).collect();
    assert_eq!(numbers, vec![5, 10, 20, 30, 40]);
}

#[test]
fn prepare_context_flattens_lines_and_maps_line_numbers() {
    let mut program = program_of(&["10 x = 1 : y = 2", "20 GOSUB 40", "30 END", "40 RETURN"]);
    let ctx = program.prepare_context();
    assert_eq!(
        program.real_lines,
        vec![
            RealLine { line_index: 0, slot: 0 },
            RealLine { line_index: 0, slot: 1 },
            RealLine { line_index: 1, slot: 0 },
            RealLine { line_index: 2, slot: 0 },
            RealLine { line_index: 3, slot: 0 },
        ]
    );
    assert_eq!(ctx.get_real_line(10), Some(0));
    assert_eq!(ctx.get_real_line(20), Some(2));
    assert_eq!(ctx.get_real_line(40), Some(4));
    assert_eq!(ctx.get_real_line(50), None);
    let mut text = String::new();
    program.instruction_at(program.real_lines[1]).fill_structure_string(&mut text);
    assert_eq!(text, "Y = 2");
    assert_eq!(ctx.data_position, -1);
    assert_eq!(ctx.current_real_line, -1);
}

#[test]
fn return_goes_back_to_the_gosub() {
    let mut program = program_of(&["10 GOSUB 30", "20 END", "30 RETURN"]);
    let mut ctx = program.prepare_context();
    let gosub = GwGosub::new(30);
    let result = gosub.eval(0, &LineExecutionArgument::Empty, &mut ctx);
    assert!(matches!(result, InstructionResult::EvaluateLine(2)));
    assert_eq!(ctx.subroutine_stack, vec![0]);
    let back = GwReturn::new().eval(&mut ctx);
    match back {
        InstructionResult::EvaluateLineWithArg(0, LineExecutionArgument::SubReturn) => {}
        _ => panic!("return expected"),
    }
    assert!(ctx.subroutine_stack.is_empty());
    let again = gosub.eval(0, &LineExecutionArgument::SubReturn, &mut ctx);
    assert!(matches!(again, InstructionResult::EvaluateNext));
    match GwReturn::new().eval(&mut ctx) {
        InstructionResult::EvaluateToError(msg) => assert_eq!(msg, "RETURN: no place to return"),
        _ => panic!("error expected"),
    }
    match GwGosub::new(99).eval(0, &LineExecutionArgument::Empty, &mut ctx) {
        InstructionResult::EvaluateToError(msg) => assert_eq!(msg, "Unknown line"),
        _ => panic!("error expected"),
    }
}

#[test]
fn goto_and_on_goto_jump_to_real_lines() {
    let mut program = program_of(&["10 x = 1 : y = 2", "20 z = 3", "30 END"]);
    let ctx = program.prepare_context();
    assert!(matches!(GwGotoStat { line: 20 }.eval(&ctx), InstructionResult::EvaluateLine(2)));
    let on_goto = match line("40 ON X GOTO 30, 10, 50").instruction {
        GwInstruction::OnGoto(g) => g,
        _ => panic!("ON GOTO expected"),
    };
    assert!(matches!(on_goto.eval_with_value(1, &ctx), InstructionResult::EvaluateLine(3)));
    assert!(matches!(on_goto.eval_with_value(2, &ctx), InstructionResult::EvaluateLine(0)));
    match on_goto.eval_with_value(3, &ctx) {
        InstructionResult::EvaluateToError(msg) => assert_eq!(msg, "Cannot find real line"),
        _ => panic!("error expected"),
    }
    assert!(matches!(on_goto.eval_with_value(4, &ctx), InstructionResult::EvaluateNext));
    assert!(matches!(on_goto.eval_with_value(-1, &ctx), InstructionResult::EvaluateNext));
    assert!(matches!(calculate_jump_result(&ctx, &30), InstructionResult::EvaluateLine(3)));
}

#[test]
fn finds_the_matching_wend_and_next() {
    let mut program = program_of(&[
        "10 WHILE x",
        "20 WHILE y",
        "30 WEND",
        "40 WEND",
        "50 FOR i = 1 TO 2",
        "60 NEXT i",
    ]);
    let _ctx = program.prepare_context();
    assert_eq!(find_wend(0, &program), 3);
    assert_eq!(find_wend(1, &program), 2);
    assert_eq!(find_wend(3, &program), -1);
    assert_eq!(find_next(4, &program), 5);
    assert_eq!(find_next(5, &program), -1);
}

#[test]
fn pairs_are_recorded_both_ways() {
    let mut program = program_of(&["10 WHILE x", "20 PRINT x", "30 WEND"]);
    let mut ctx = program.prepare_context();
    assert_eq!(paired_line(0, &mut ctx, &program, true), Some(2));
    assert_eq!(ctx.pair_instruction_table.get(&0), Some(&2));
    assert_eq!(ctx.pair_instruction_table.get(&2), Some(&0));
    assert!(matches!(GwWend {}.eval(2, &ctx), InstructionResult::EvaluateLine(0)));
    match (GwNext { variable: None }).eval(1, &ctx) {
        InstructionResult::EvaluateToError(msg) => assert_eq!(msg, "NEXT WITHOUT FOR"),
        _ => panic!("error expected"),
    }
    assert_eq!(paired_line(1, &mut ctx, &program, false), None);
}

#[test]
fn while_and_for_decisions() {
    assert!(matches!(while_decision(7, Some(0)), InstructionResult::EvaluateLine(8)));
    assert!(matches!(while_decision(7, Some(3)), InstructionResult::EvaluateNext));
    match while_decision(7, None) {
        InstructionResult::EvaluateToError(msg) => assert_eq!(msg, "Type mismatch"),
        _ => panic!("error expected"),
    }
    assert_eq!(for_next_counter(2, 1, 5), Some(3));
    assert_eq!(for_next_counter(5, 1, 5), None);
    assert_eq!(for_next_counter(4, -1, 1), Some(3));
    assert_eq!(for_next_counter(1, -1, 1), None);
    assert_eq!(for_next_counter(32767, 1, 32767), None);
    assert_eq!(for_next_counter(-32768, -1, -32768), None);
}

/// The counters a `FOR from TO to STEP step` loop runs its body with.
fn for_counters(from: i16, to: i16, step: i16) -> Vec<i16> {
    let mut values = vec![from];
    let mut counter = from;
    while let Some(next) = for_next_counter(counter, step, to) {
        values.push(next);
        counter = next;
    }
    values
}

#[test]
fn for_loops_run_their_counters() {
    assert_eq!(for_counters(1, 5, 1), vec![1, 2, 3, 4, 5]);
    assert_eq!(for_counters(0, 6, 2), vec![0, 2, 4, 6]);
    assert_eq!(for_counters(5, 1, -1), vec![5, 4, 3, 2, 1]);
    assert_eq!(for_counters(6, 0, -2), vec![6, 4, 2, 0]);
}

#[test]
fn for_loop_with_step_stops_before_passing_the_limit() {
    assert_eq!(for_counters(0, 5, 2), vec![0, 2, 4]);
}

#[test]
fn on_goto_jumps_to_the_chosen_line_or_falls_through() {
    let mut ctx = ControlState::new();
    ctx.jump_table.insert(10, 11);
    ctx.jump_table.insert(20, 21);
    let on_goto = match line("5 ON X GOTO 10, 20, 30").instruction {
        GwInstruction::OnGoto(g) => g,
        _ => panic!("ON GOTO expected"),
    };
    assert!(matches!(on_goto.eval_with_value(2, &ctx), InstructionResult::EvaluateLine(21)));
    assert!(matches!(on_goto.eval_with_value(23, &ctx), InstructionResult::EvaluateNext));
}

#[test]
fn while_runs_or_skips_past_its_wend() {
    let mut program = program_of(&["10 WHILE X", "20 WEND"]);
    let mut ctx = program.prepare_context();
    assert_eq!(paired_line(0, &mut ctx, &program, true), Some(1));
    assert!(matches!(while_decision(1, Some(1)), InstructionResult::EvaluateNext));
    assert!(matches!(while_decision(1, Some(0)), InstructionResult::EvaluateLine(2)));
}

#[test]
fn run_positions_follow_instruction_results() {
    assert!(matches!(
        next_fragment_position(3, InstructionResult::EvaluateNext),
        FragmentStep::Continue(4, LineExecutionArgument::Empty)
    ));
    assert!(matches!(
        next_fragment_position(3, InstructionResult::EvaluateLine(9)),
        FragmentStep::Continue(9, LineExecutionArgument::Empty)
    ));
    assert!(matches!(
        next_fragment_position(3, InstructionResult::EvaluateLineWithArg(1, LineExecutionArgument::SubReturn)),
        FragmentStep::Continue(1, LineExecutionArgument::SubReturn)
    ));
    assert!(matches!(next_fragment_position(3, InstructionResult::EvaluateEnd), FragmentStep::End));
    match next_fragment_position(3, InstructionResult::EvaluateToError(String::from("boom"))) {
        FragmentStep::Error(msg) => assert_eq!(msg, "boom"),
        _ => panic!("error expected"),
    }
    assert_eq!(step_next_line(4, &InstructionResult::EvaluateNext), 5);
    assert_eq!(step_next_line(4, &InstructionResult::EvaluateLine(0)), 0);
    assert_eq!(step_next_line(4, &InstructionResult::EvaluateEnd), 4);
}

#[test]
fn data_items_are_read_in_order() {
    let mut program = GwProgram::new();
    program.data = vec![String::from("A"), String::from("B")];
    let mut ctx = ControlState::new();
    assert_eq!(ctx.get_next_data_item(&program), Some(&String::from("A")));
    assert_eq!(ctx.get_next_data_item(&program), Some(&String::from("B")));
    assert_eq!(ctx.get_next_data_item(&program), None);
    assert_eq!(ctx.data_position, 2);
}

#[test]
fn console_column_and_tab_adjustment() {
    let mut console = DefaultConsole::new();
    assert_eq!(console.current_text_column(), 1);
    console.record_print(5);
    assert_eq!(console.current_text_column(), 6);
    console.record_print_line();
    assert_eq!(console.current_text_column(), 1);
    assert_eq!(position_adjustment(1, 10), (false, 8));
    assert_eq!(position_adjustment(12, 10), (true, 9));
    assert_eq!(position_adjustment(10, 10), (false, 0));
    assert_eq!(position_adjustment(3, 0), (true, 0));
}
