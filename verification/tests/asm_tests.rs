use hacktools::assembler::{assemble, Assembler, AsmErrorKind};
use hacktools::hack::Code;
use hacktools::text::{bin16_string, is_number, is_symbol, parse_dec_masked};

fn lines(src: &[&str]) -> Vec<String> {
    src.iter().map(|s| s.to_string()).collect()
}

#[test]
fn encodes_a_whole_program_in_order() {
    let words = assemble(&lines(&["@3", "D=A", "@5", "D=D+A", "@R1", "M=D"])).unwrap();
    assert_eq!(
        words,
        vec![
            "0000000000000011".to_string(),
            "1110110000010000".to_string(),
            "0000000000000101".to_string(),
            "1110000010010000".to_string(),
            "0000000000000001".to_string(),
            "1110001100001000".to_string(),
        ],
    );
}

#[test]
fn forward_reference_resolves_like_a_backward_one() {
    let words = assemble(&lines(&["@LOOP", "(LOOP)", "@LOOP", "0;JMP"])).unwrap();
    assert_eq!(words[0], words[1]);
    assert_eq!(words[0], "0000000000000001");
}

#[test]
fn labels_bind_the_instruction_slot_count() {
    let words = assemble(&lines(&["@1", "D=A", "(HERE)", "@HERE"])).unwrap();
    // Two real instructions precede the label, so HERE binds slot 2.
    assert_eq!(words[2], "0000000000000010");
}

#[test]
fn variables_get_sixteen_and_seventeen_in_first_occurrence_order() {
    let words = assemble(&lines(&["@first", "@second", "@first", "@second"])).unwrap();
    assert_eq!(words[0], bin16_string(16));
    assert_eq!(words[1], bin16_string(17));
    assert_eq!(words[2], words[0]);
    assert_eq!(words[3], words[1]);
}

#[test]
fn oversized_address_literal_is_masked_not_rejected() {
    let words = assemble(&lines(&["@40000"])).unwrap();
    // 40000 mod 32768 == 7232
    assert_eq!(words[0], bin16_string(7232));
}

#[test]
fn comments_and_blank_lines_vanish() {
    let words = assemble(&lines(&["", "// top", "  @2 // inline", "   ", "D=A"])).unwrap();
    assert_eq!(words.len(), 2);
    assert_eq!(words[0], "0000000000000010");
}

#[test]
fn duplicate_label_is_refused_with_context() {
    let e = assemble(&lines(&["(X)", "@1", "(X)"])).unwrap_err();
    assert_eq!(e.kind, AsmErrorKind::DuplicateLabel);
    assert_eq!(e.line_number, 3);
    assert_eq!(e.line, "(X)");
}

#[test]
fn bad_label_name_is_refused() {
    let e = assemble(&lines(&["(9X)"])).unwrap_err();
    assert_eq!(e.kind, AsmErrorKind::InvalidSymbolName);
}

#[test]
fn bad_address_operand_is_refused() {
    let e = assemble(&lines(&["@1x"])).unwrap_err();
    assert_eq!(e.kind, AsmErrorKind::InvalidSymbolName);
    let e2 = assemble(&lines(&["@"])).unwrap_err();
    assert_eq!(e2.kind, AsmErrorKind::MalformedInstruction);
}

#[test]
fn unknown_mnemonic_is_an_error_not_a_default() {
    let e = assemble(&lines(&["D=Q"])).unwrap_err();
    assert_eq!(e.kind, AsmErrorKind::MalformedInstruction);
    assert_eq!(e.line_number, 1);
    let e2 = assemble(&lines(&["D=A;JXX"])).unwrap_err();
    assert_eq!(e2.kind, AsmErrorKind::MalformedInstruction);
    let e3 = assemble(&lines(&["Q=A"])).unwrap_err();
    assert_eq!(e3.kind, AsmErrorKind::MalformedInstruction);
}

#[test]
fn predefined_symbols_resolve() {
    let words = assemble(&lines(&["@SP", "@LCL", "@ARG", "@THIS", "@THAT", "@SCREEN", "@KBD", "@R15"]))
        .unwrap();
    assert_eq!(words[0], bin16_string(0));
    assert_eq!(words[1], bin16_string(1));
    assert_eq!(words[2], bin16_string(2));
    assert_eq!(words[3], bin16_string(3));
    assert_eq!(words[4], bin16_string(4));
    assert_eq!(words[5], bin16_string(16384));
    assert_eq!(words[6], bin16_string(24576));
    assert_eq!(words[7], bin16_string(15));
}

#[test]
fn compute_instructions_with_jumps_encode() {
    let words = assemble(&lines(&["0;JMP", "D;JEQ", "MD=M-1"])).unwrap();
    assert_eq!(words[0], "1110101010000111");
    assert_eq!(words[1], "1110001100000010");
    assert_eq!(words[2], "1111110010011000");
}

#[test]
fn code_tables_give_bits_or_refuse() {
    let c = Code;
    assert_eq!(c.comp_to_binary("D+A"), Some("0000010"));
    assert_eq!(c.comp_to_binary("M-1"), Some("1110010"));
    assert_eq!(c.comp_to_binary("Q"), None);
    assert_eq!(c.dest_to_binary("null"), Some("000"));
    assert_eq!(c.dest_to_binary("AMD"), Some("111"));
    assert_eq!(c.dest_to_binary("X"), None);
    assert_eq!(c.jump_to_binary("JNE"), Some("101"));
    assert_eq!(c.jump_to_binary("null"), Some("000"));
    assert_eq!(c.jump_to_binary("JJ"), None);
}

#[test]
fn symbol_grammar_accepts_and_rejects() {
    assert!(is_symbol("loop.start$x:y_9"));
    assert!(is_symbol("_under"));
    assert!(!is_symbol("9lives"));
    assert!(!is_symbol(""));
    assert!(!is_symbol("has space"));
    assert!(is_number("0123"));
    assert!(!is_number("12a"));
    assert!(!is_number(""));
}

#[test]
fn field_extractors_follow_the_last_delimiters() {
    let a = Assembler::new();
    assert_eq!(a.comp("D=M+1;JGT"), "M+1");
    assert_eq!(a.comp("M+1;JGT"), "M+1");
    assert_eq!(a.comp("D=M+1"), "M+1");
    assert_eq!(a.comp("D"), "D");
    assert_eq!(a.dest("AM=D"), Some("AM"));
    assert_eq!(a.dest("D;JMP"), None);
    assert_eq!(a.jump("0;JMP"), Some("JMP"));
    assert_eq!(a.jump("D=A"), None);
}

#[test]
fn masked_decimal_parse_wraps_at_fifteen_bits() {
    assert_eq!(parse_dec_masked("32768"), 0);
    assert_eq!(parse_dec_masked("32769"), 1);
    assert_eq!(parse_dec_masked("00042"), 42);
    assert_eq!(parse_dec_masked("184467440737095516161"), (184467440737095516161u128 % 32768) as u16);
}

#[test]
fn bin16_renders_all_sixteen_bits() {
    assert_eq!(bin16_string(0), "0000000000000000");
    assert_eq!(bin16_string(0x7FFF), "0111111111111111");
    assert_eq!(bin16_string(5), "0000000000000101");
}
