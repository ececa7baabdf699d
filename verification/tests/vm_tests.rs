use hacktools::code_writer::{
    dedent, ArithmeticTranslation, CodeWriter, LogicalTranslation, VmError,
};
use hacktools::parser::{InstructionType, Parser};

#[test]
fn add_fragment_text() {
    let out_text = ArithmeticTranslation::Add.value();
    assert_eq!(out_text, "@SP\nM=M-1\nA=M\nD=M\n@SP\nM=M-1\nA=M\nM=D+M\n@SP\nM=M+1\n");
}

#[test]
fn sub_fragment_text() {
    let out_text = ArithmeticTranslation::Sub.value();
    assert_eq!(out_text, "@SP\nM=M-1\nA=M\nD=M\n@SP\nM=M-1\nA=M\nM=M-D\n@SP\nM=M+1\n");
}

#[test]
fn neg_fragment_text() {
    let out_text = ArithmeticTranslation::Neg.value();
    assert_eq!(out_text, "@SP\nM=M-1\nA=M\nM=-M\n@SP\nM=M+1\n");
}

#[test]
fn dedent_strips_leading_indentation() {
    let out = dedent("@SP\n    M=M-1\n\tA=M".to_string());
    assert_eq!(out, "@SP\nM=M-1\nA=M");
}

#[test]
fn dedent_drops_the_final_line_ending() {
    assert_eq!(dedent("@SP\n    M=M+1\n".to_string()), "@SP\nM=M+1");
    assert_eq!(dedent("x\n".to_string()), "x");
    assert_eq!(dedent("\n".to_string()), "");
    assert_eq!(dedent("x\n\n".to_string()), "x\n");
}

#[test]
fn dedent_strips_carriage_returns_of_crlf_endings() {
    assert_eq!(dedent("  a\r\n\tb\r\n".to_string()), "a\nb");
    assert_eq!(dedent("  a\r\n  b".to_string()), "a\nb");
}

#[test]
fn dedent_is_idempotent() {
    let once = dedent("  @SP \nM=M-1  \n\n   D=M\n".to_string());
    let twice = dedent(once.clone());
    assert_eq!(once, twice);
}

#[test]
fn cleaning_and_tokenizing_follow_unicode_whitespace() {
    let p = Parser::new(Vec::new(), CodeWriter::new());
    assert_eq!(p.clean_line("\u{00A0}add\u{2003}// note"), "add");
    assert_eq!(p.arg_n("push\u{000B}constant\u{2007}7", &InstructionType::Push, false), "7");
}

#[test]
fn comparison_labels_use_the_occurrence_counter() {
    let mut w = CodeWriter::new();
    let first = w.write_arithmetic_or_logical("eq").unwrap();
    let second = w.write_arithmetic_or_logical("eq").unwrap();
    assert!(first.contains("@EQUAL_0"));
    assert!(first.contains("(NOT_EQUAL_0)"));
    assert!(first.contains("(END_EQUAL_0)"));
    assert!(second.contains("@EQUAL_1"));
    assert!(!second.contains("@EQUAL_0"));
    // No label token of the first fragment appears in the second.
    for line in first.lines() {
        if line.starts_with('(') {
            assert!(!second.contains(line));
        }
    }
}

#[test]
fn comparison_kinds_use_their_own_counters() {
    let mut w = CodeWriter::new();
    w.write_arithmetic_or_logical("eq").unwrap();
    let lt = w.write_arithmetic_or_logical("lt").unwrap();
    assert!(lt.contains("@LT_0"));
    assert!(lt.contains("D;JLT"));
    let gt = LogicalTranslation::GreaterThan.value(&w.command_counts);
    assert!(gt.contains("@GT_0"));
    assert!(gt.contains("D;JGT"));
}

#[test]
fn unknown_command_is_refused() {
    let mut w = CodeWriter::new();
    assert_eq!(w.write_arithmetic_or_logical("mul"), Err(VmError::UnknownCommand));
}

#[test]
fn push_constant_fragment_text() {
    let w = CodeWriter::new();
    let out_text = w.write_push_pop("constant", "7", InstructionType::Push).unwrap();
    assert_eq!(out_text, "@7\nD=A\n@SP\nA=M\nM=D\n@SP\nM=M+1\n");
}

#[test]
fn pop_constant_is_an_invalid_destination() {
    let w = CodeWriter::new();
    let r = w.write_push_pop("constant", "7", InstructionType::Pop);
    assert_eq!(r, Err(VmError::InvalidDestination));
}

#[test]
fn temp_index_out_of_range_is_refused() {
    let w = CodeWriter::new();
    let r = w.write_push_pop("temp", "8", InstructionType::Push);
    assert_eq!(r, Err(VmError::InvalidSegmentIndex));
    let ok = w.write_push_pop("temp", "7", InstructionType::Push).unwrap();
    assert!(ok.starts_with("@12\n"));
}

#[test]
fn pointer_selects_this_or_that() {
    let w = CodeWriter::new();
    let p0 = w.write_push_pop("pointer", "0", InstructionType::Push).unwrap();
    let p1 = w.write_push_pop("pointer", "1", InstructionType::Push).unwrap();
    assert!(p0.starts_with("@THIS\n"));
    assert!(p1.starts_with("@THAT\n"));
    let bad = w.write_push_pop("pointer", "2", InstructionType::Push);
    assert_eq!(bad, Err(VmError::InvalidSegmentIndex));
}

#[test]
fn static_uses_fixed_offset_sixteen() {
    let w = CodeWriter::new();
    let push = w.write_push_pop("static", "3", InstructionType::Push).unwrap();
    let pop = w.write_push_pop("static", "3", InstructionType::Pop).unwrap();
    assert!(push.starts_with("@19\nD=M\n"));
    assert!(pop.ends_with("@19\nM=D\n"));
}

#[test]
fn pop_local_parks_address_in_r13() {
    let w = CodeWriter::new();
    let pop = w.write_push_pop("local", "2", InstructionType::Pop).unwrap();
    assert_eq!(
        pop,
        "@2\nD=A\n@LCL\nD=D+M\n@R13\nM=D\n@SP\nM=M-1\nA=M\nD=M\n@R13\nA=M\nM=D\n",
    );
}

#[test]
fn unknown_segment_is_refused() {
    let w = CodeWriter::new();
    let r = w.write_push_pop("global", "0", InstructionType::Push);
    assert_eq!(r, Err(VmError::InvalidSegmentIndex));
}

#[test]
fn parser_classifies_and_splits_commands() {
    let p = Parser::new(Vec::new(), CodeWriter::new());
    assert_eq!(p.command_type("push constant 7"), InstructionType::Push);
    assert_eq!(p.command_type("pop local 0"), InstructionType::Pop);
    assert_eq!(p.command_type("add"), InstructionType::Arithmetic);
    assert_eq!(p.arg_n("push constant 7", &InstructionType::Push, true), "constant");
    assert_eq!(p.arg_n("push constant 7", &InstructionType::Push, false), "7");
    assert_eq!(p.arg_n("add", &InstructionType::Arithmetic, true), "add");
    assert_eq!(p.clean_line("  add  // comment"), "add");
}

#[test]
fn parser_translates_in_source_order() {
    let lines = vec![
        "// a comment line".to_string(),
        "push constant 7".to_string(),
        "".to_string(),
        "push constant 8".to_string(),
        "add".to_string(),
    ];
    let mut p = Parser::new(lines, CodeWriter::new());
    let out = p.parse().unwrap();
    let expected = "@7\nD=A\n@SP\nA=M\nM=D\n@SP\nM=M+1\n\
                    @8\nD=A\n@SP\nA=M\nM=D\n@SP\nM=M+1\n\
                    @SP\nM=M-1\nA=M\nD=M\n@SP\nM=M-1\nA=M\nM=D+M\n@SP\nM=M+1\n";
    assert_eq!(out, expected);
}

#[test]
fn parser_reports_the_offending_line() {
    let lines = vec!["add".to_string(), "frobnicate".to_string()];
    let mut p = Parser::new(lines, CodeWriter::new());
    let e = p.parse().unwrap_err();
    assert_eq!(e.kind, VmError::UnknownCommand);
    assert_eq!(e.line_number, 2);
    assert_eq!(e.line, "frobnicate");
}
