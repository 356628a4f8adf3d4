use rgwbasic::lexer::{
    consume_whitespace, recognize_float_number_str, recognize_int_number_str, recognize_word,
    GwToken, PushbackCharsIterator,
};

fn check_push_back() {
    let str = "abc";
    let mut pb = PushbackCharsIterator::new(str);

    if let Some(first) = pb.next() {
        assert_eq!('a', first);
    } else {
        assert!(false, "first character")
    }

    if let Some(second) = pb.next() {
        assert_eq!('b', second);
    } else {
        assert!(false, "second character")
    }

    pb.push_back('x');

    if let Some(third) = pb.next() {
        assert_eq!('x', third);
    } else {
        assert!(false, "pushed character")
    }

    if let Some(fourth) = pb.next() {
        assert_eq!('c', fourth);
    } else {
        assert!(false, "fourth character")
    }

    match pb.next() {
        Some(_) => assert!(false),
        None => assert!(true),
    }
}

#[test]
fn it_pushes_back() {
    check_push_back();
}

#[test]
fn mod_it_pushes_back() {
    check_push_back();
}

#[test]
fn gwparser_it_pushes_back() {
    check_push_back();
}

fn check_identifiers() {
    let str = "werwe10    Excs    AJLAKJ";
    let mut pb = PushbackCharsIterator::new(str);

    match (
        recognize_word(&mut pb),
        consume_whitespace(&mut pb),
        recognize_word(&mut pb),
        consume_whitespace(&mut pb),
        recognize_word(&mut pb),
    ) {
        (Some(w1), _, Some(w2), _, Some(w3))
            if w1.eq(&String::from("werwe10"))
                && w2.eq(&String::from("Excs"))
                && w3.eq(&String::from("AJLAKJ")) =>
        {
            assert!(true)
        }
        _ => assert!(false),
    }
}

#[test]
fn it_identifies_identifiers() {
    check_identifiers();
}

#[test]
fn mod_it_identifies_identifiers() {
    check_identifiers();
}

#[test]
fn gwparser_it_identifies_identifiers() {
    check_identifiers();
}

fn check_int_numbers() {
    let str = "10 20 30";
    let mut pb = PushbackCharsIterator::new(str);

    match (
        recognize_int_number_str(&mut pb),
        consume_whitespace(&mut pb),
        recognize_int_number_str(&mut pb),
        consume_whitespace(&mut pb),
        recognize_int_number_str(&mut pb),
    ) {
        (Some(10), _, Some(20), _, Some(30)) => assert!(true),
        _ => assert!(false),
    }
}

#[test]
fn mod_it_identifies_numbers() {
    check_int_numbers();
}

#[test]
fn it_identifies_numbers() {
    let str = "10 20 30";
    let mut pb = PushbackCharsIterator::new(str);

    match (
        recognize_float_number_str(&mut pb),
        consume_whitespace(&mut pb),
        recognize_float_number_str(&mut pb),
        consume_whitespace(&mut pb),
        recognize_float_number_str(&mut pb),
    ) {
        (Some(GwToken::Integer(10)), _, Some(GwToken::Integer(20)), _, Some(GwToken::Integer(30))) => {
            assert!(true)
        }
        _ => assert!(false),
    }
}

#[test]
fn gwparser_it_identifies_numbers() {
    check_int_numbers();
}

#[test]
fn it_identifies_float_numbers() -> Result<(), String> {
    let str = "10.1 .2 3.2e-1";
    let mut pb = PushbackCharsIterator::new(str);

    match (
        recognize_float_number_str(&mut pb),
        consume_whitespace(&mut pb),
        recognize_float_number_str(&mut pb),
        consume_whitespace(&mut pb),
        recognize_float_number_str(&mut pb),
    ) {
        (Some(GwToken::Double(d1)), _, Some(GwToken::Double(d2)), _, Some(GwToken::Double(d3))) => {
            assert_eq!(10.1, d1.parse::<f64>().unwrap());
            assert_eq!(0.2, d2.parse::<f64>().unwrap());
            assert_eq!(0.32, d3.parse::<f64>().unwrap());
            Ok(())
        }
        t => Err(format!("{:?}", t)),
    }
}
