use rgwbasic::print_using::{format_number_fields, tok_format_string, PrintUsingFormatFragment};

#[test]
fn it_process_string_without_format() {
    let result = tok_format_string("This is a test");
    if let PrintUsingFormatFragment::End(the_str) = result {
        assert_eq!("This is a test", the_str);
    } else {
        assert!(false);
    }
}

#[test]
fn it_process_string_without_format_and_whitespace() {
    let result = tok_format_string("  %");
    if let PrintUsingFormatFragment::End(the_str) = result {
        assert_eq!("  %", the_str);
    } else {
        assert!(false);
    }
}

#[test]
fn it_tokenize_only_format_string() {
    let result = tok_format_string("###.##");
    if let PrintUsingFormatFragment::Numeric { rest, .. } = result {
        assert_eq!("", rest);
        let result = tok_format_string(rest.as_str());
        if let PrintUsingFormatFragment::End(last) = result {
            assert_eq!("", last);
        } else {
            assert!(false);
        }
    } else {
        assert!(false);
    }
}

#[test]
fn it_tokenize_only_format_string_with_currency() -> Result<(), &'static str> {
    let result = tok_format_string("$$###,###,###.##");
    if let PrintUsingFormatFragment::Numeric { dollar: true, digits: 9, comma: true, decimals: 2, rest } =
        result
    {
        assert_eq!("", rest);
        let result = tok_format_string(rest.as_str());
        if let PrintUsingFormatFragment::End(_) = result {
            Ok(())
        } else {
            Err("Format not recognized")
        }
    } else {
        Err("Format not recognized")
    }
}

#[test]
fn it_process_string_with_single_number_format() {
    let result = tok_format_string("This is ### a test");
    if let PrintUsingFormatFragment::Literal(literal, rest1) = result {
        assert_eq!("This is ", literal);
        assert_eq!("### a test", rest1);

        if let PrintUsingFormatFragment::Numeric {
            dollar: false,
            digits: 3,
            comma: false,
            decimals: 0,
            rest: rest2,
        } = tok_format_string(rest1.as_str())
        {
            assert_eq!(" a test", rest2);
        } else {
            assert!(false);
        }
    } else {
        assert!(false);
    }
}

#[test]
fn it_process_string_with_numeric_at_start() -> Result<(), &'static str> {
    let result = tok_format_string("####.#### %");
    if let PrintUsingFormatFragment::Numeric { dollar: false, digits: 4, comma: false, decimals: 4, rest } =
        result
    {
        assert_eq!(" %", rest);
        Ok(())
    } else {
        Err("Format not recognized")
    }
}

#[test]
fn lays_out_a_plain_number() {
    let mut the_string = String::new();
    format_number_fields(482, 24, false, false, 4, false, 2, &mut the_string);
    assert_eq!(" 482.24", the_string);
}

#[test]
fn lays_out_a_number_below_one_with_a_zero() {
    let mut the_string = String::new();
    format_number_fields(0, 99, false, false, 3, false, 2, &mut the_string);
    assert_eq!("  0.99", the_string);
    format_number_fields(1, 0, false, false, 3, false, 2, &mut the_string);
    assert_eq!("  1.00", the_string);
    format_number_fields(0, 0, false, false, 3, false, 2, &mut the_string);
    assert_eq!("  0.00", the_string);
}

#[test]
fn lays_out_a_negative_number() {
    let mut the_string = String::new();
    format_number_fields(482, 24, true, false, 3, false, 2, &mut the_string);
    assert_eq!("-482.24", the_string);
}

#[test]
fn lays_out_currency_with_grouping() {
    let mut the_string = String::new();
    format_number_fields(27749, 47, false, true, 9, true, 2, &mut the_string);
    assert_eq!("    $27,749.47", the_string);
}

#[test]
fn lays_out_grouped_digits() {
    let mut the_string = String::new();
    format_number_fields(4331, 24, false, false, 6, true, 2, &mut the_string);
    assert_eq!("  4,331.24", the_string);
}

#[test]
fn splits_literal_then_field_then_end() {
    match tok_format_string("Total: $##.# !") {
        PrintUsingFormatFragment::Literal(literal, rest) => {
            assert_eq!("Total: ", literal);
            match tok_format_string(rest.as_str()) {
                PrintUsingFormatFragment::Numeric { dollar, digits, comma, decimals, rest } => {
                    assert!(dollar);
                    assert_eq!(2, digits);
                    assert!(!comma);
                    assert_eq!(1, decimals);
                    assert_eq!(" !", rest);
                }
                _ => panic!("numeric field expected"),
            }
        }
        _ => panic!("literal expected"),
    }
}
