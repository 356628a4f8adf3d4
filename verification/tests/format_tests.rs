use rgwbasic::extractor::{decode_tokens, init_multi_byte_tokens, init_single_byte_tokens, unprotect, DecodeFailure, TokenEvent};
use rgwbasic::tokens::{GwBasicToken, GwTokenInfo};

#[test]
fn keyword_table_recognizes_keywords_only() {
    let info = GwTokenInfo::create();
    assert_eq!(info.get_token(&String::from("PRINT")), Some(&GwBasicToken::PrintTok));
    assert_eq!(info.get_token(&String::from("INPUT")), Some(&GwBasicToken::InpTok));
    assert_eq!(info.get_token(&String::from("print")), None);
    assert_eq!(info.get_token(&String::from("FOO")), None);
    assert_eq!(info.get_token(&String::from("GOTO")), Some(&GwBasicToken::GotoTok));
    assert_eq!(info.get_token(&String::from("COLOR")), Some(&GwBasicToken::ColorTok));
    assert_eq!(info.get_token(&String::from("+")), Some(&GwBasicToken::PlusTok));
    assert_eq!(info.get_token(&String::from("goto")), None);
    assert_eq!(info.get_token(&String::from("LIST")), None);
    assert_eq!(info.get_token(&String::from("IF")), None);
}

#[test]
fn statement_keyword_table_extends_the_basic_one() {
    let info = GwTokenInfo::create_statement_keywords();
    assert_eq!(info.get_token(&String::from("LIST")), Some(&GwBasicToken::ListTok));
    assert_eq!(info.get_token(&String::from("THEN")), Some(&GwBasicToken::ThenTok));
    assert_eq!(info.get_token(&String::from("GOTO")), Some(&GwBasicToken::GotoTok));
    assert_eq!(info.get_token(&String::from("FOO")), None);
}

#[test]
fn added_keyword_is_found_again() {
    let mut info = GwTokenInfo::create();
    info.add_token("FOO", GwBasicToken::CallTok);
    assert_eq!(info.get_token(&String::from("FOO")), Some(&GwBasicToken::CallTok));
    info.add_token("PRINT", GwBasicToken::LprintTok);
    assert_eq!(info.get_token(&String::from("PRINT")), Some(&GwBasicToken::LprintTok));
    assert_eq!(info.get_token(&String::from("GOTO")), Some(&GwBasicToken::GotoTok));
}

#[test]
fn byte_tables_hold_known_codes() {
    let single = init_single_byte_tokens();
    assert_eq!(single.get(&0x81), Some(&GwBasicToken::EndTok));
    let multi = init_multi_byte_tokens();
    assert_eq!(multi.get(&0xFE).and_then(|m| m.get(&0x81)), Some(&GwBasicToken::FilesTok));
}

#[test]
fn decodes_a_small_tokenized_line() {
    let single = init_single_byte_tokens();
    // header, then a line start (next offset 0x1234, line 10), PRINT, "A", constant 3
    let bytes: Vec<u8> = vec![0xFF, 0x00, 0x00, 0x00, 0x00, 0x34, 0x12, 0x0A, 0x00, 0x91, 0x41, 0x14];
    let (events, failure) = decode_tokens(&bytes, &single);
    assert!(failure.is_none());
    assert_eq!(events.len(), 4);
    assert!(matches!(events[0], TokenEvent::LineNumber(10, 0x1234)));
    assert!(matches!(events[1], TokenEvent::Recognized(GwBasicToken::PrintTok, 0x91)));
    assert!(matches!(events[2], TokenEvent::Unrecognized('A')));
    assert!(matches!(events[3], TokenEvent::NumberConstant(3)));
}

#[test]
fn decoding_stops_on_unknown_bytes() {
    let single = init_single_byte_tokens();
    let bytes: Vec<u8> = vec![0xFF, 0x00, 0x00, 0x00, 0x41, 0x01, 0x41];
    let (events, failure) = decode_tokens(&bytes, &single);
    assert_eq!(events.len(), 1);
    assert!(matches!(failure, Some(DecodeFailure::NotImplemented(0x01))));
}

#[test]
fn unprotect_applies_the_cipher() {
    let mut contents: Vec<u8> = vec![0x00, 0x00];
    unprotect(&mut contents);
    // first byte: (0 - 11) ^ key1[12] ^ key2[10] + 13
    let b0 = ((0u8.wrapping_sub(11) ^ 0xA9) ^ 0x1E).wrapping_add(13);
    let b1 = ((0u8.wrapping_sub(10) ^ 0x84) ^ 0x1D).wrapping_add(12);
    assert_eq!(contents, vec![b0, b1]);
}
