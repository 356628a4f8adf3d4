use rgwbasic::ast::GwExpression;
use rgwbasic::lexer::{PushbackCharsIterator, PushbackTokensIterator};
use rgwbasic::parser::{
    is_numbered_line, parse_expression, parse_exprs_with_separator, parse_instruction,
    parse_instruction_line, parse_instruction_line_from_string, parse_repl_instruction_string,
    parse_with_flexible_separator, try_parse_instruction_line_from_string,
    try_parse_repl_instruction_string, ParserResult,
};
use rgwbasic::statements::{PrintElementWrapper, PrintSeparator};

fn tokens(text: &str) -> PushbackTokensIterator {
    PushbackTokensIterator::create(PushbackCharsIterator::new(text))
}

fn get_parsed_ast_string(a_str: &str) -> Result<String, String> {
    let mut tokens_iterator = tokens(a_str);
    match parse_instruction_line(&mut tokens_iterator) {
        ParserResult::Success(instr) => {
            let mut buf = String::new();
            instr.fill_structure_string(&mut buf);
            Ok(buf)
        }
        ParserResult::Error(error) => Err(error),
        ParserResult::Nothing => Err("Nothing".to_string()),
    }
}

fn quick_parse_expr(code: &str) -> ParserResult<GwExpression> {
    let mut tokens_iterator = tokens(code);
    parse_expression(&mut tokens_iterator)
}

fn expr_string(code: &str) -> String {
    match quick_parse_expr(code) {
        ParserResult::Success(expr) => {
            let mut buf = String::new();
            expr.fill_structure_string(&mut buf);
            buf
        }
        _ => panic!("errror"),
    }
}

fn instruction_string(code: &str) -> String {
    let mut tokens_iterator = tokens(code);
    match parse_instruction(&mut tokens_iterator).unwrap() {
        ParserResult::Success(expr) => {
            let mut buf = String::new();
            expr.fill_structure_string(&mut buf);
            buf
        }
        ParserResult::Error(err) => panic!("Error parsing: {}", err),
        _ => panic!("errror"),
    }
}

#[test]
fn it_parses_additive() {
    assert_eq!(expr_string("ab + bc"), String::from("(AB + BC)"));
}

#[test]
fn mod_it_parses_additive() {
    assert_eq!(expr_string("ab + bc"), String::from("(AB + BC)"));
}

#[test]
fn it_parses_different() {
    assert_eq!(expr_string("ab <> bc"), String::from("(AB <> BC)"));
}

#[test]
fn it_parses_less_than() -> Result<(), &'static str> {
    match quick_parse_expr("ab < bc") {
        ParserResult::Success(expr) => {
            let mut buf = String::new();
            expr.fill_structure_string(&mut buf);
            assert_eq!(buf, String::from("(AB < BC)"));
            Ok(())
        }
        _ => Err("Less than not parsed"),
    }
}

#[test]
fn it_parses_greater_than() -> Result<(), &'static str> {
    match quick_parse_expr("ab > bc") {
        ParserResult::Success(expr) => {
            let mut buf = String::new();
            expr.fill_structure_string(&mut buf);
            assert_eq!(buf, String::from("(AB > BC)"));
            Ok(())
        }
        _ => Err("'Greater-than' not parsed"),
    }
}

#[test]
fn it_parses_less_than_equal() -> Result<(), &'static str> {
    match quick_parse_expr("ab <= bc") {
        ParserResult::Success(expr) => {
            let mut buf = String::new();
            expr.fill_structure_string(&mut buf);
            assert_eq!(buf, String::from("(AB <= BC)"));
            Ok(())
        }
        _ => Err("'Less-than-equal' not parsed"),
    }
}

#[test]
fn it_parses_greater_than_equal() -> Result<(), &'static str> {
    match quick_parse_expr("ab >= bc") {
        ParserResult::Success(expr) => {
            let mut buf = String::new();
            expr.fill_structure_string(&mut buf);
            assert_eq!(buf, String::from("(AB >= BC)"));
            Ok(())
        }
        _ => Err("'Greater-than-equal' not parsed"),
    }
}

#[test]
fn it_parses_minus() {
    assert_eq!(expr_string("ab - bc"), String::from("(AB - BC)"));
}

#[test]
fn mod_it_parses_minus() {
    assert_eq!(expr_string("ab - bc"), String::from("(AB - BC)"));
}

#[test]
fn it_parses_assignment_instruction() -> Result<(), &'static str> {
    match get_parsed_ast_string("10 x = ab") {
        Ok(buf) => {
            assert_eq!(buf, String::from("(10 X = AB)"));
            Ok(())
        }
        Err(_) => Err("Instruction not parsed"),
    }
}

#[test]
fn mod_it_parses_assignment_instruction() {
    assert_eq!(get_parsed_ast_string("10 x = ab").unwrap(), String::from("(10 X = AB)"));
}

#[test]
fn it_results_on_parsing_error() -> Result<(), &'static str> {
    let mut tokens_iterator = tokens("10 PRINT COLOR");
    match parse_instruction_line(&mut tokens_iterator) {
        ParserResult::Success(_) => Err("Instruction must not be parsed"),
        ParserResult::Error(_) => Ok(()),
        ParserResult::Nothing => Err("Wrong parsing result"),
    }
}

#[test]
fn it_parses_input_no_prompt() -> Result<(), String> {
    let buf = get_parsed_ast_string("10 INPUT a")?;
    assert_eq!(buf, String::from("(10 INPUT A)"));
    Ok(())
}

#[test]
fn it_parses_if_with_stats() -> Result<(), String> {
    let result = get_parsed_ast_string("10 IF A>1 THEN PRINT \"a\" : PRINT \"b\"")?;
    assert_eq!("(10 IF (A > 1) THEN PRINT a; : PRINT b;)", result);
    Ok(())
}

#[test]
fn it_parses_simple_data() -> Result<(), String> {
    let result = get_parsed_ast_string("10 DATA 1.23,343,,45")?;
    assert_eq!("(10 DATA 1.23, 343, , 45)", result);
    Ok(())
}

#[test]
fn it_parses_read() -> Result<(), String> {
    let result = get_parsed_ast_string("10 READ x")?;
    assert_eq!("(10 READ X)", result);

    let result_arr = get_parsed_ast_string("10 READ x(1)")?;
    assert_eq!("(10 READ X(1))", result_arr);
    Ok(())
}

#[test]
fn it_parses_if_with_stat() -> Result<(), String> {
    let result = get_parsed_ast_string("10 IF A>1 THEN PRINT \"a\"")?;
    assert_eq!("(10 IF (A > 1) THEN PRINT a;)", result);
    Ok(())
}

#[test]
fn it_parses_input() -> Result<(), String> {
    let buf = get_parsed_ast_string("10 INPUT \"hello?\",a,b,c")?;
    assert_eq!(buf, String::from("(10 INPUT \"hello?\",A,B,C)"));
    Ok(())
}

#[test]
fn it_parses_dim() -> Result<(), String> {
    let buf = get_parsed_ast_string("10 Dim a(10, foo + 1)")?;
    assert_eq!(buf, String::from("(10 (DIM A(10,(FOO + 1)))"));
    Ok(())
}

#[test]
fn it_parses_mult_instruction_line() {
    let buf = get_parsed_ast_string("10 x = ab : y = bc : z = cd").expect("errror");
    assert_eq!(buf, String::from("(10 X = AB :Y = BC:Z = CD)"));
}

#[test]
fn mod_it_parses_mult_instruction_line() {
    let buf = get_parsed_ast_string("10 x = ab : y = bc : z = cd").expect("errror");
    assert_eq!(buf, String::from("(10 X = AB :Y = BC:Z = CD)"));
}

#[test]
fn it_parses_additive_three() {
    assert_eq!(expr_string("ab + bc + cd"), String::from("((AB + BC) + CD)"));
}

#[test]
fn mod_it_parses_additive_three() {
    assert_eq!(expr_string("ab + bc + cd"), String::from("((AB + BC) + CD)"));
}

fn check_sequence_with_separator() {
    let mut tokens_iterator = tokens("ab , 12 , a + cd");
    match parse_exprs_with_separator(&mut tokens_iterator).unwrap() {
        ParserResult::Success(vect) => {
            assert_eq!(3, vect.len());
            let mut buf = String::new();
            vect[0].fill_structure_string(&mut buf);
            assert_eq!(buf, String::from("AB"));

            let mut buf = String::new();
            vect[1].fill_structure_string(&mut buf);
            assert_eq!(buf, String::from("12"));

            let mut buf = String::new();
            vect[2].fill_structure_string(&mut buf);
            assert_eq!(buf, String::from("(A + CD)"));
        }
        _ => panic!("errror"),
    }
}

#[test]
fn it_parses_a_sequence_with_separator() {
    check_sequence_with_separator();
}

#[test]
fn mod_it_parses_a_sequence_with_separator() {
    check_sequence_with_separator();
}

#[test]
fn mod_it_parses_a_sequence_with_flexible_separator() -> Result<(), String> {
    let mut tokens_iterator = tokens("ab ; 12 ;; a + cd;");
    match parse_with_flexible_separator(&mut tokens_iterator).unwrap() {
        ParserResult::Success(vect) => match vect[..] {
            [(PrintElementWrapper::Expr(ref arg1), Some(PrintSeparator::Semicolon)), (PrintElementWrapper::Expr(ref arg2), Some(PrintSeparator::Semicolon)), (PrintElementWrapper::Nothing, Some(PrintSeparator::Semicolon)), (PrintElementWrapper::Expr(ref arg3), Some(PrintSeparator::Semicolon))] =>
            {
                let mut buf = String::new();
                arg1.fill_structure_string(&mut buf);
                assert_eq!(buf, "AB");
                buf.clear();
                arg2.fill_structure_string(&mut buf);
                assert_eq!(buf, "12");
                buf.clear();
                arg3.fill_structure_string(&mut buf);
                assert_eq!(buf, "(A + CD)");
                Ok(())
            }
            _ => Err(format!("Length of array: {}", vect.len())),
        },
        ParserResult::Error(msg) => Err(format!("Unexpected: {}", msg)),
        _ => Err("Unexpected nothing".to_string()),
    }
}

#[test]
fn it_parses_a_sequence_for_print_separators() {
    let mut tokens_iterator = tokens("ab , 1 2 cd");
    match parse_with_flexible_separator(&mut tokens_iterator).unwrap() {
        ParserResult::Success(vect) => match vect[..] {
            [(PrintElementWrapper::Expr(ref arg1), Some(PrintSeparator::Comma)), (PrintElementWrapper::Expr(ref arg2), None), (PrintElementWrapper::Expr(ref arg3), None), (PrintElementWrapper::Expr(ref arg4), None)] =>
            {
                let mut buf = String::new();
                arg1.fill_structure_string(&mut buf);
                assert_eq!(buf, "AB");
                buf.clear();
                arg2.fill_structure_string(&mut buf);
                assert_eq!(buf, "1");
                buf.clear();
                arg3.fill_structure_string(&mut buf);
                assert_eq!(buf, "2");
                buf.clear();
                arg4.fill_structure_string(&mut buf);
                assert_eq!(buf, "CD");
            }
            _ => {
                assert!(false);
            }
        },
        _ => assert!(false),
    }
}

#[test]
fn it_parses_one_element_print() {
    let mut tokens_iterator = tokens("ab");
    match parse_with_flexible_separator(&mut tokens_iterator).unwrap() {
        ParserResult::Success(vect) => match vect[..] {
            [(PrintElementWrapper::Expr(ref arg1), None)] => {
                let mut buf = String::new();
                arg1.fill_structure_string(&mut buf);
                assert_eq!(buf, "AB");
            }
            _ => {
                assert!(false);
            }
        },
        _ => assert!(false),
    }
}

#[test]
fn it_parses_empty_sequence_for_print() {
    let mut tokens_iterator = tokens(" ");
    match parse_with_flexible_separator(&mut tokens_iterator).unwrap() {
        ParserResult::Success(vect) => match vect[..] {
            [] => {
                assert!(true);
            }
            _ => {
                assert!(false);
            }
        },
        _ => assert!(false),
    }
}

#[test]
fn it_parses_color() {
    assert_eq!(instruction_string("color 1,  2,3"), String::from("COLOR 1, 2, 3"));
}

#[test]
fn mod_it_parses_color() {
    assert_eq!(instruction_string("color 1,  2,3"), String::from("COLOR 1, 2, 3"));
}

#[test]
fn it_parses_multiplicative_four() {
    assert_eq!(expr_string("ab + bc + cd *  de"), String::from("((AB + BC) + (CD * DE))"));
}

#[test]
fn mod_it_parses_multiplicative_four() {
    assert_eq!(expr_string("ab + bc + cd *  de"), String::from("((AB + BC) + (CD * DE))"));
}

#[test]
fn it_parser_negative_operator() {
    assert_eq!(expr_string("-(1+1)"), String::from("-((1 + 1))"));
}

#[test]
fn it_parser_call_expression() {
    assert_eq!(expr_string("FNFUNC(1,2)"), String::from("FNFUNC(1,2)"));
}

#[test]
fn it_parses_array_assignment() {
    assert_eq!(
        instruction_string("myarr(x + 1, otherarr(30)) = 20"),
        String::from("MYARR((X + 1)OTHERARR(30)) = 20")
    );
}

#[test]
fn mod_it_parses_array_assignment() {
    assert_eq!(
        instruction_string("myarr(x + 1, otherarr(30)) = 20"),
        String::from("MYARR((X + 1)OTHERARR(30)) = 20")
    );
}

#[test]
fn it_parses_if_stat() {
    let buf = get_parsed_ast_string("10 IF x = 1 THEN 30").expect("IF not parsed!");
    assert_eq!(buf, "(10 IF (X = 1) 30)");
}

#[test]
fn it_parses_while_stat() {
    let buf = get_parsed_ast_string("10 WHILE x = 1").expect("WHILE not parsed!");
    assert_eq!(buf, "(10 WHILE (X = 1))");
}

#[test]
fn it_parses_on_goto_stat() -> Result<(), &'static str> {
    match get_parsed_ast_string("10 ON X GOTO 10,20,30") {
        Ok(buf) => {
            assert_eq!(buf, "(10 ON X GOTO 10, 20, 30)");
            Ok(())
        }
        Err(_) => Err("ON/GOTO not parsed!"),
    }
}

#[test]
fn it_parses_swap_stat() -> Result<(), &'static str> {
    match get_parsed_ast_string("10 SWAP X,Y") {
        Ok(buf) => {
            assert_eq!(buf, "(10 SWAP X, Y)");
            Ok(())
        }
        Err(_) => Err("SWAP not parsed!"),
    }
}

#[test]
fn it_parser_division_with_highest_precedence() {
    let buf = get_parsed_ast_string("10 x = 2*3/4*5").unwrap();
    assert_eq!(buf, "(10 X = (((2 * 3) / 4) * 5))");
}

#[test]
fn it_parser_exp_with_highest_precedence() {
    let buf = get_parsed_ast_string("10 x = 2*5^3").unwrap();
    assert_eq!(buf, "(10 X = (2 * (5 ^ 3)))");
}

// ----- further cases -----

#[test]
fn parses_builtin_functions() {
    assert_eq!(expr_string("abs(x) + int(2.5)"), "(ABS(X) + INT(2.5))");
    assert_eq!(expr_string("rnd(1) * cos(sin(log(y)))"), "(RND(1) * COS(SIN(LOG(Y))))");
}

#[test]
fn parses_inkey_and_string_literal() {
    assert_eq!(expr_string("inkey$ = \"q\""), "(INKEY$ = q)");
}

#[test]
fn reports_missing_right_parenthesis() {
    match quick_parse_expr("(1 + 2") {
        ParserResult::Error(msg) => assert_eq!(msg, "Expecting right side parenthesis"),
        _ => panic!("error expected"),
    }
}

#[test]
fn reports_missing_operand() {
    match quick_parse_expr("1 +") {
        ParserResult::Error(msg) => {
            assert_eq!(msg, "Error parsing additive expression, expecting right side operand ")
        }
        _ => panic!("error expected"),
    }
    match quick_parse_expr("1 <") {
        ParserResult::Error(msg) => {
            assert_eq!(msg, "Error parsing comparison expression, expecting right side operand ")
        }
        _ => panic!("error expected"),
    }
}

#[test]
fn empty_expression_is_nothing() {
    assert!(matches!(quick_parse_expr("   "), ParserResult::Nothing));
    assert!(matches!(quick_parse_expr(")"), ParserResult::Nothing));
}

#[test]
fn assigning_to_a_builtin_function_is_an_error() {
    match get_parsed_ast_string("10 READ abs(1)") {
        Err(msg) => assert_eq!(msg, "Cannot assign to builtin function"),
        Ok(s) => panic!("unexpected {}", s),
    }
}

#[test]
fn parses_for_next_and_gosub() {
    assert_eq!(get_parsed_ast_string("10 FOR i = 1 TO 10 STEP 2").unwrap(), "(10 FOR)");
    assert_eq!(get_parsed_ast_string("20 NEXT i").unwrap(), "(20 NEXT)");
    assert_eq!(get_parsed_ast_string("30 GOSUB 100").unwrap(), "(30 GOSUB )");
    assert_eq!(get_parsed_ast_string("40 RETURN").unwrap(), "(40 RETURN)");
    assert_eq!(get_parsed_ast_string("50 GOTO 10").unwrap(), "(50 GOTO )");
}

#[test]
fn parses_deftype_key_rem_and_simple_statements() {
    assert_eq!(get_parsed_ast_string("10 DEFDBL a-c, x").unwrap(), "(10 DEFDBL A-C,X,)");
    assert_eq!(get_parsed_ast_string("10 DEFINT i").unwrap(), "(10 DEFINT I,)");
    assert_eq!(get_parsed_ast_string("10 KEY OFF").unwrap(), "(10 KEY OFF)");
    assert_eq!(get_parsed_ast_string("10 REM hello : world").unwrap(), "(10 REM  hello : world)");
    assert_eq!(get_parsed_ast_string("10 CLS : END").unwrap(), "(10 CLS :END)");
    assert_eq!(get_parsed_ast_string("10 WEND").unwrap(), "(10 WEND)");
    assert_eq!(get_parsed_ast_string("10 STOP").unwrap(), "(10 STOP)");
}

#[test]
fn parses_print_using_and_tab() {
    assert_eq!(get_parsed_ast_string("10 PRINT USING \"##\"; x").unwrap(), "(10 PRINT USING )");
    assert_eq!(get_parsed_ast_string("10 PRINT TAB(5); x").unwrap(), "(10 PRINT TAB(5);X;)");
}

#[test]
fn line_errors_are_reported() {
    assert_eq!(get_parsed_ast_string("x = 1").unwrap_err(), "line number expected");
    assert_eq!(get_parsed_ast_string("10 GOTO x").unwrap_err(), "Expecting number at GOTO statement");
    assert_eq!(get_parsed_ast_string("10 x = 1 y").unwrap_err(), "Expecting colon");
    assert_eq!(get_parsed_ast_string("10 KEY x").unwrap_err(), "Error parsing Key statement");
    assert_eq!(get_parsed_ast_string("10 COLOR 1, 2").unwrap_err(), "Error parsing Color color components");
    assert_eq!(get_parsed_ast_string("").unwrap_err(), "Nothing");
}

#[test]
fn parses_from_strings() {
    match parse_instruction_line_from_string(String::from("20 x = 1 + 2")) {
        ParserResult::Success(line) => {
            assert_eq!(line.line, 20);
            let mut buf = String::new();
            line.fill_structure_string(&mut buf);
            assert_eq!(buf, "(20 X = (1 + 2))");
        }
        _ => panic!("line expected"),
    }
    match parse_repl_instruction_string(String::from("print 1; 2")) {
        ParserResult::Success(instr) => {
            let mut buf = String::new();
            instr.fill_structure_string(&mut buf);
            assert_eq!(buf, "PRINT 1;2;");
        }
        _ => panic!("statement expected"),
    }
}

#[test]
fn classifies_typed_lines() {
    assert!(is_numbered_line(&String::from("10 PRINT 1")));
    assert!(!is_numbered_line(&String::from("PRINT 1")));
    assert!(!is_numbered_line(&String::new()));
}

#[test]
fn try_parse_refuses_a_character_that_starts_no_token() {
    assert!(try_parse_instruction_line_from_string("10 PRINT @".to_string()).is_none());
    assert!(try_parse_repl_instruction_string("PRINT 1 @".to_string()).is_none());
}

#[test]
fn try_parse_refuses_a_keyword_that_starts_no_statement() {
    assert!(try_parse_instruction_line_from_string("10 THEN".to_string()).is_none());
    assert!(try_parse_repl_instruction_string("TO".to_string()).is_none());
}

#[test]
fn try_parse_refuses_a_builtin_call_with_two_arguments() {
    assert!(try_parse_instruction_line_from_string("10 X = ABS(1, 2)".to_string()).is_none());
}

#[test]
fn try_parse_refuses_then_at_the_end_of_the_line() {
    assert!(try_parse_instruction_line_from_string("10 IF A THEN".to_string()).is_none());
}

#[test]
fn try_parse_agrees_with_parse_where_parsing_completes() {
    match try_parse_instruction_line_from_string("10 PRINT 1".to_string()) {
        Some(ParserResult::Success(line)) => {
            let mut buf = String::new();
            line.fill_structure_string(&mut buf);
            assert_eq!(buf, "(10 PRINT 1;)");
        }
        _ => panic!("expected a parsed line"),
    }
    match try_parse_repl_instruction_string("X = 2".to_string()) {
        Some(ParserResult::Success(_)) => {}
        _ => panic!("expected a parsed statement"),
    }
}
