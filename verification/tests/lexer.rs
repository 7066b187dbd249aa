use kap16::inst::Op2;
use kap16::lex::{
    keep_nonempty, parse_imm, parse_reg, split_whitespace, split_word, strip_comment, tokenize,
    LexemeError,
};

fn strings(items: &[&str]) -> Vec<String> {
    items.iter().map(|s| s.to_string()).collect()
}

#[test]
fn tokenize_splits_at_whitespace_and_punctuation() {
    assert_eq!(tokenize("add r1, r2"), Some(strings(&["add", "r1", ",", "r2"])));
    assert_eq!(tokenize("add r1,r2"), Some(strings(&["add", "r1", ",", "r2"])));
    assert_eq!(tokenize("  mov\tr3 ,0x1f  "), Some(strings(&["mov", "r3", ",", "0x1f"])));
}

#[test]
fn tokenize_label_and_directives() {
    assert_eq!(tokenize("loop:"), Some(strings(&["loop", ":"])));
    assert_eq!(tokenize(".begin"), Some(strings(&[".", "begin"])));
    assert_eq!(tokenize(".end"), Some(strings(&[".", "end"])));
    assert_eq!(tokenize(".func"), Some(strings(&[".", "func"])));
}

#[test]
fn tokenize_strips_comment() {
    assert_eq!(tokenize("b loop ; go round"), Some(strings(&["b", "loop"])));
    assert_eq!(tokenize("b loop;again"), Some(strings(&["b", "loop"])));
    assert_eq!(tokenize("; only a comment"), None);
}

#[test]
fn tokenize_empty_line_has_no_tokens() {
    assert_eq!(tokenize(""), None);
    assert_eq!(tokenize("   \t "), None);
}

#[test]
fn tokenize_keeps_unicode_words_whole() {
    assert_eq!(tokenize("été: b été"), Some(strings(&["été", ":", "b", "été"])));
}

#[test]
fn tokenize_double_semicolon_is_one_token() {
    assert_eq!(tokenize("b x ;; y"), Some(strings(&["b", "x", ";;", "y"])));
}

#[test]
fn split_whitespace_gives_words() {
    assert_eq!(split_whitespace(" a  bc\td "), strings(&["a", "bc", "d"]));
    assert_eq!(split_whitespace(""), Vec::<String>::new());
    assert_eq!(split_whitespace("\u{2003}x\u{a0}y"), strings(&["x", "y"]));
}

#[test]
fn split_word_splits_at_boundaries() {
    assert_eq!(split_word("r1,r2"), strings(&["r1", ",", "r2"]));
    assert_eq!(split_word("loop:"), strings(&["loop", ":"]));
    assert_eq!(split_word("0x1f"), strings(&["0x1f"]));
    assert_eq!(split_word(",,"), strings(&[",,"]));
}

#[test]
fn keep_nonempty_drops_empty_pieces() {
    assert_eq!(keep_nonempty(&strings(&["", "a", "", "b", ""])), strings(&["a", "b"]));
    assert_eq!(keep_nonempty(&strings(&["", ""])), Vec::<String>::new());
}

#[test]
fn strip_comment_cuts_at_first_semicolon() {
    assert_eq!(strip_comment(&strings(&["a", ";", "b", ";", "c"])), strings(&["a"]));
    assert_eq!(strip_comment(&strings(&["a", "b"])), strings(&["a", "b"]));
    assert_eq!(strip_comment(&strings(&[";"])), Vec::<String>::new());
}

#[test]
fn parse_reg_accepts_numbers_and_aliases() {
    assert_eq!(parse_reg("r0").unwrap(), 0);
    assert_eq!(parse_reg("r15").unwrap(), 15);
    assert_eq!(parse_reg("r007").unwrap(), 7);
    assert_eq!(parse_reg("r65535").unwrap(), 65535);
    assert_eq!(parse_reg("sp").unwrap(), 13);
    assert_eq!(parse_reg("lr").unwrap(), 14);
    assert_eq!(parse_reg("pc").unwrap(), 15);
}

#[test]
fn parse_reg_rejects_other_tokens() {
    for token in ["", "r", "R1", "r-1", "r1x", "x1", "r65536", "spx", "r١"] {
        match parse_reg(token) {
            Err(LexemeError::InvalidReg(t)) => assert_eq!(t, token),
            other => panic!("{:?}", other),
        }
    }
}

#[test]
fn parse_imm_reads_every_base() {
    assert_eq!(parse_imm("0b101").unwrap(), 5);
    assert_eq!(parse_imm("0o17").unwrap(), 15);
    assert_eq!(parse_imm("0d42").unwrap(), 42);
    assert_eq!(parse_imm("0x1f").unwrap(), 31);
    assert_eq!(parse_imm("0x1F").unwrap(), 31);
    assert_eq!(parse_imm("0xffff").unwrap(), 0xffff);
    assert_eq!(parse_imm("0d65535").unwrap(), 65535);
    assert_eq!(parse_imm("0x0000000001").unwrap(), 1);
}

#[test]
fn parse_imm_rejects_other_tokens() {
    for token in ["", "0", "0x", "12", "0b102", "0o8", "0dff", "0xg", "0x10000", "0d65536", "0X1f", "1x1f"] {
        match parse_imm(token) {
            Err(LexemeError::InvalidImm(t)) => assert_eq!(t, token),
            other => panic!("{:?}", other),
        }
    }
}

#[test]
fn op2_parse_tells_registers_from_immediates() {
    assert_eq!(Op2::parse("r3").unwrap(), Op2::Reg(3));
    assert_eq!(Op2::parse("sp").unwrap(), Op2::Reg(13));
    assert_eq!(Op2::parse("0x7f").unwrap(), Op2::Imm(0x7f));
    assert!(matches!(Op2::parse(""), Err(LexemeError::EmptyToken)));
    assert!(matches!(Op2::parse("0q1"), Err(LexemeError::InvalidImm(_))));
    assert!(matches!(Op2::parse("q1"), Err(LexemeError::InvalidReg(_))));
}

#[test]
fn lexeme_error_messages() {
    assert_eq!(LexemeError::EmptyToken.message(), "Found empty token; expected content");
    assert_eq!(
        LexemeError::InvalidReg("rx".to_string()).message(),
        "Could not parse register from `rx`"
    );
    assert_eq!(
        LexemeError::InvalidImm("0z".to_string()).message(),
        "Could not parse immediate from `0z`"
    );
}
