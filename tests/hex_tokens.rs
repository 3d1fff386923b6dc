use xtool::error::ToolError;
use xtool::hex::{from_hex, hex_token, parse_hex_tokens, render_hex};

fn strings(tokens: &[&str]) -> Vec<String> {
    tokens.iter().map(|t| t.to_string()).collect()
}

#[test]
fn from_hex_reads_both_cases() {
    assert_eq!(from_hex("4C"), Ok(0x4C));
    assert_eq!(from_hex("4c"), Ok(0x4C));
    assert_eq!(from_hex("00"), Ok(0x00));
    assert_eq!(from_hex("FF"), Ok(0xFF));
    assert_eq!(from_hex("a0"), Ok(0xA0));
    assert_eq!(from_hex("09"), Ok(0x09));
}

#[test]
fn from_hex_refuses_wrong_length() {
    assert_eq!(from_hex("F"), Err(ToolError::InvalidHexByte("F".to_string())));
    assert_eq!(from_hex("0FF"), Err(ToolError::InvalidHexByte("0FF".to_string())));
    assert_eq!(from_hex(""), Err(ToolError::InvalidHexByte(String::new())));
}

#[test]
fn from_hex_refuses_non_hex_characters() {
    assert_eq!(from_hex("G0"), Err(ToolError::InvalidHexByte("G0".to_string())));
    assert_eq!(from_hex("0x"), Err(ToolError::InvalidHexByte("0x".to_string())));
    assert_eq!(from_hex("+F"), Err(ToolError::InvalidHexByte("+F".to_string())));
    assert_eq!(from_hex(" 1"), Err(ToolError::InvalidHexByte(" 1".to_string())));
    assert_eq!(from_hex("é1"), Err(ToolError::InvalidHexByte("é1".to_string())));
}

#[test]
fn parse_hex_tokens_reads_payload() {
    let tokens = strings(&["48", "45", "4C", "4C", "4F"]);
    assert_eq!(parse_hex_tokens(&tokens), Ok(vec![0x48, 0x45, 0x4C, 0x4C, 0x4F]));
    assert_eq!(parse_hex_tokens(&strings(&["01", "FF", "0A"])), Ok(vec![0x01, 0xFF, 0x0A]));
}

#[test]
fn parse_hex_tokens_of_nothing_is_empty() {
    assert_eq!(parse_hex_tokens(&Vec::new()), Ok(Vec::new()));
}

#[test]
fn parse_hex_tokens_reports_first_invalid_token() {
    let tokens = strings(&["01", "XY", "123", "02"]);
    assert_eq!(parse_hex_tokens(&tokens), Err(ToolError::InvalidHexByte("XY".to_string())));
    let tokens = strings(&["01", "02", "3"]);
    assert_eq!(parse_hex_tokens(&tokens), Err(ToolError::InvalidHexByte("3".to_string())));
}

#[test]
fn hex_token_renders_upper_case() {
    assert_eq!(hex_token(0x0A), "0A");
    assert_eq!(hex_token(0x00), "00");
    assert_eq!(hex_token(0xFF), "FF");
    assert_eq!(hex_token(0x4c), "4C");
}

#[test]
fn render_hex_renders_each_byte() {
    assert_eq!(render_hex(&vec![0x48, 0x45, 0x4C]), strings(&["48", "45", "4C"]));
    assert_eq!(render_hex(&Vec::new()), Vec::<String>::new());
}

#[test]
fn parse_render_parse_round_trip() {
    let tokens = strings(&["de", "AD", "be", "EF", "00", "7f"]);
    let bytes = parse_hex_tokens(&tokens).unwrap();
    assert_eq!(bytes, vec![0xDE, 0xAD, 0xBE, 0xEF, 0x00, 0x7F]);
    let rendered = render_hex(&bytes);
    assert_eq!(rendered, strings(&["DE", "AD", "BE", "EF", "00", "7F"]));
    assert_eq!(parse_hex_tokens(&rendered), Ok(bytes));
}

#[test]
fn every_byte_round_trips() {
    for b in 0..=255u8 {
        let t = hex_token(b);
        assert_eq!(t.len(), 2);
        assert_eq!(from_hex(&t), Ok(b));
    }
}
