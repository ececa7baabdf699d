//! The target architecture's instruction vocabulary, shared by both stages:
//! closed enumerations for the `dest`, `comp` and `jump` fields, their
//! mnemonic and bit-encoding tables, and a structured form of symbolic
//! assembly lines together with its textual rendering.
use vstd::prelude::*;

use crate::text::{spec_dec, dec_string, str_eq};

verus! {

/// The destination field of a compute instruction.
#[derive(Clone, Copy, Debug, PartialEq, Eq, Structural)]
pub enum Dest {
    Null,
    M,
    D,
    MD,
    A,
    AM,
    AD,
    AMD,
}

/// The computation field of a compute instruction.
#[derive(Clone, Copy, Debug, PartialEq, Eq, Structural)]
pub enum Comp {
    Zero,
    One,
    NegOne,
    D,
    A,
    NotD,
    NotA,
    NegD,
    NegA,
    DPlusOne,
    APlusOne,
    DMinusOne,
    AMinusOne,
    DPlusA,
    DMinusA,
    AMinusD,
    DAndA,
    DOrA,
    M,
    NotM,
    NegM,
    MPlusOne,
    MMinusOne,
    DPlusM,
    DMinusM,
    MMinusD,
    DAndM,
    DOrM,
}

/// The jump field of a compute instruction.
#[derive(Clone, Copy, Debug, PartialEq, Eq, Structural)]
pub enum Jump {
    Null,
    JGT,
    JEQ,
    JGE,
    JLT,
    JNE,
    JLE,
    JMP,
}

/// The source mnemonic of each destination field; `null` stands for absence.
pub open spec fn spec_dest_mnemonic(d: Dest) -> Seq<char> {
    match d {
        Dest::Null => "null"@,
        Dest::M => "M"@,
        Dest::D => "D"@,
        Dest::MD => "MD"@,
        Dest::A => "A"@,
        Dest::AM => "AM"@,
        Dest::AD => "AD"@,
        Dest::AMD => "AMD"@,
    }
}

/// The three destination bits.
pub open spec fn spec_dest_bits(d: Dest) -> Seq<char> {
    match d {
        Dest::Null => "000"@,
        Dest::M => "001"@,
        Dest::D => "010"@,
        Dest::MD => "011"@,
        Dest::A => "100"@,
        Dest::AM => "101"@,
        Dest::AD => "110"@,
        Dest::AMD => "111"@,
    }
}

/// The destination field a mnemonic denotes; `None` for anything outside the
/// architecture's vocabulary.
pub open spec fn spec_dest_of(s: Seq<char>) -> Option<Dest> {
    if s == "null"@ {
        Some(Dest::Null)
    } else if s == "M"@ {
        Some(Dest::M)
    } else if s == "D"@ {
        Some(Dest::D)
    } else if s == "MD"@ {
        Some(Dest::MD)
    } else if s == "A"@ {
        Some(Dest::A)
    } else if s == "AM"@ {
        Some(Dest::AM)
    } else if s == "AD"@ {
        Some(Dest::AD)
    } else if s == "AMD"@ {
        Some(Dest::AMD)
    } else {
        None
    }
}

/// The source mnemonic of each computation.
pub open spec fn spec_comp_mnemonic(c: Comp) -> Seq<char> {
    match c {
        Comp::Zero => "0"@,
        Comp::One => "1"@,
        Comp::NegOne => "-1"@,
        Comp::D => "D"@,
        Comp::A => "A"@,
        Comp::NotD => "!D"@,
        Comp::NotA => "!A"@,
        Comp::NegD => "-D"@,
        Comp::NegA => "-A"@,
        Comp::DPlusOne => "D+1"@,
        Comp::APlusOne => "A+1"@,
        Comp::DMinusOne => "D-1"@,
        Comp::AMinusOne => "A-1"@,
        Comp::DPlusA => "D+A"@,
        Comp::DMinusA => "D-A"@,
        Comp::AMinusD => "A-D"@,
        Comp::DAndA => "D&A"@,
        Comp::DOrA => "D|A"@,
        Comp::M => "M"@,
        Comp::NotM => "!M"@,
        Comp::NegM => "-M"@,
        Comp::MPlusOne => "M+1"@,
        Comp::MMinusOne => "M-1"@,
        Comp::DPlusM => "D+M"@,
        Comp::DMinusM => "D-M"@,
        Comp::MMinusD => "M-D"@,
        Comp::DAndM => "D&M"@,
        Comp::DOrM => "D|M"@,
    }
}

/// The seven computation bits (the `a` bit followed by six control bits).
pub open spec fn spec_comp_bits(c: Comp) -> Seq<char> {
    match c {
        Comp::Zero => "0101010"@,
        Comp::One => "0111111"@,
        Comp::NegOne => "0111010"@,
        Comp::D => "0001100"@,
        Comp::A => "0110000"@,
        Comp::NotD => "0001101"@,
        Comp::NotA => "0110001"@,
        Comp::NegD => "0001111"@,
        Comp::NegA => "0110011"@,
        Comp::DPlusOne => "0011111"@,
        Comp::APlusOne => "0110111"@,
        Comp::DMinusOne => "0001110"@,
        Comp::AMinusOne => "0110010"@,
        Comp::DPlusA => "0000010"@,
        Comp::DMinusA => "0010011"@,
        Comp::AMinusD => "0000111"@,
        Comp::DAndA => "0000000"@,
        Comp::DOrA => "0010101"@,
        Comp::M => "1110000"@,
        Comp::NotM => "1110001"@,
        Comp::NegM => "1110011"@,
        Comp::MPlusOne => "1110111"@,
        Comp::MMinusOne => "1110010"@,
        Comp::DPlusM => "1000010"@,
        Comp::DMinusM => "1010011"@,
        Comp::MMinusD => "1000111"@,
        Comp::DAndM => "1000000"@,
        Comp::DOrM => "1010101"@,
    }
}

/// The computation a mnemonic denotes; `None` outside the vocabulary.
pub open spec fn spec_comp_of(s: Seq<char>) -> Option<Comp> {
    if s == "0"@ {
        Some(Comp::Zero)
    } else if s == "1"@ {
        Some(Comp::One)
    } else if s == "-1"@ {
        Some(Comp::NegOne)
    } else if s == "D"@ {
        Some(Comp::D)
    } else if s == "A"@ {
        Some(Comp::A)
    } else if s == "!D"@ {
        Some(Comp::NotD)
    } else if s == "!A"@ {
        Some(Comp::NotA)
    } else if s == "-D"@ {
        Some(Comp::NegD)
    } else if s == "-A"@ {
        Some(Comp::NegA)
    } else if s == "D+1"@ {
        Some(Comp::DPlusOne)
    } else if s == "A+1"@ {
        Some(Comp::APlusOne)
    } else if s == "D-1"@ {
        Some(Comp::DMinusOne)
    } else if s == "A-1"@ {
        Some(Comp::AMinusOne)
    } else if s == "D+A"@ {
        Some(Comp::DPlusA)
    } else if s == "D-A"@ {
        Some(Comp::DMinusA)
    } else if s == "A-D"@ {
        Some(Comp::AMinusD)
    } else if s == "D&A"@ {
        Some(Comp::DAndA)
    } else if s == "D|A"@ {
        Some(Comp::DOrA)
    } else if s == "M"@ {
        Some(Comp::M)
    } else if s == "!M"@ {
        Some(Comp::NotM)
    } else if s == "-M"@ {
        Some(Comp::NegM)
    } else if s == "M+1"@ {
        Some(Comp::MPlusOne)
    } else if s == "M-1"@ {
        Some(Comp::MMinusOne)
    } else if s == "D+M"@ {
        Some(Comp::DPlusM)
    } else if s == "D-M"@ {
        Some(Comp::DMinusM)
    } else if s == "M-D"@ {
        Some(Comp::MMinusD)
    } else if s == "D&M"@ {
        Some(Comp::DAndM)
    } else if s == "D|M"@ {
        Some(Comp::DOrM)
    } else {
        None
    }
}

/// The source mnemonic of each jump condition; `null` stands for absence.
pub open spec fn spec_jump_mnemonic(j: Jump) -> Seq<char> {
    match j {
        Jump::Null => "null"@,
        Jump::JGT => "JGT"@,
        Jump::JEQ => "JEQ"@,
        Jump::JGE => "JGE"@,
        Jump::JLT => "JLT"@,
        Jump::JNE => "JNE"@,
        Jump::JLE => "JLE"@,
        Jump::JMP => "JMP"@,
    }
}

/// The three jump bits.
pub open spec fn spec_jump_bits(j: Jump) -> Seq<char> {
    match j {
        Jump::Null => "000"@,
        Jump::JGT => "001"@,
        Jump::JEQ => "010"@,
        Jump::JGE => "011"@,
        Jump::JLT => "100"@,
        Jump::JNE => "101"@,
        Jump::JLE => "110"@,
        Jump::JMP => "111"@,
    }
}

/// The jump condition a mnemonic denotes; `None` outside the vocabulary.
pub open spec fn spec_jump_of(s: Seq<char>) -> Option<Jump> {
    if s == "null"@ {
        Some(Jump::Null)
    } else if s == "JGT"@ {
        Some(Jump::JGT)
    } else if s == "JEQ"@ {
        Some(Jump::JEQ)
    } else if s == "JGE"@ {
        Some(Jump::JGE)
    } else if s == "JLT"@ {
        Some(Jump::JLT)
    } else if s == "JNE"@ {
        Some(Jump::JNE)
    } else if s == "JLE"@ {
        Some(Jump::JLE)
    } else if s == "JMP"@ {
        Some(Jump::JMP)
    } else {
        None
    }
}

pub fn parse_dest(s: &str) -> (r: Option<Dest>)
    ensures
        r == spec_dest_of(s@),
{
    if str_eq(s, "null") {
        Some(Dest::Null)
    } else if str_eq(s, "M") {
        Some(Dest::M)
    } else if str_eq(s, "D") {
        Some(Dest::D)
    } else if str_eq(s, "MD") {
        Some(Dest::MD)
    } else if str_eq(s, "A") {
        Some(Dest::A)
    } else if str_eq(s, "AM") {
        Some(Dest::AM)
    } else if str_eq(s, "AD") {
        Some(Dest::AD)
    } else if str_eq(s, "AMD") {
        Some(Dest::AMD)
    } else {
        None
    }
}

pub fn parse_comp(s: &str) -> (r: Option<Comp>)
    ensures
        r == spec_comp_of(s@),
{
    if str_eq(s, "0") {
        Some(Comp::Zero)
    } else if str_eq(s, "1") {
        Some(Comp::One)
    } else if str_eq(s, "-1") {
        Some(Comp::NegOne)
    } else if str_eq(s, "D") {
        Some(Comp::D)
    } else if str_eq(s, "A") {
        Some(Comp::A)
    } else if str_eq(s, "!D") {
        Some(Comp::NotD)
    } else if str_eq(s, "!A") {
        Some(Comp::NotA)
    } else if str_eq(s, "-D") {
        Some(Comp::NegD)
    } else if str_eq(s, "-A") {
        Some(Comp::NegA)
    } else if str_eq(s, "D+1") {
        Some(Comp::DPlusOne)
    } else if str_eq(s, "A+1") {
        Some(Comp::APlusOne)
    } else if str_eq(s, "D-1") {
        Some(Comp::DMinusOne)
    } else if str_eq(s, "A-1") {
        Some(Comp::AMinusOne)
    } else if str_eq(s, "D+A") {
        Some(Comp::DPlusA)
    } else if str_eq(s, "D-A") {
        Some(Comp::DMinusA)
    } else if str_eq(s, "A-D") {
        Some(Comp::AMinusD)
    } else if str_eq(s, "D&A") {
        Some(Comp::DAndA)
    } else if str_eq(s, "D|A") {
        Some(Comp::DOrA)
    } else if str_eq(s, "M") {
        Some(Comp::M)
    } else if str_eq(s, "!M") {
        Some(Comp::NotM)
    } else if str_eq(s, "-M") {
        Some(Comp::NegM)
    } else if str_eq(s, "M+1") {
        Some(Comp::MPlusOne)
    } else if str_eq(s, "M-1") {
        Some(Comp::MMinusOne)
    } else if str_eq(s, "D+M") {
        Some(Comp::DPlusM)
    } else if str_eq(s, "D-M") {
        Some(Comp::DMinusM)
    } else if str_eq(s, "M-D") {
        Some(Comp::MMinusD)
    } else if str_eq(s, "D&M") {
        Some(Comp::DAndM)
    } else if str_eq(s, "D|M") {
        Some(Comp::DOrM)
    } else {
        None
    }
}

pub fn parse_jump(s: &str) -> (r: Option<Jump>)
    ensures
        r == spec_jump_of(s@),
{
    if str_eq(s, "null") {
        Some(Jump::Null)
    } else if str_eq(s, "JGT") {
        Some(Jump::JGT)
    } else if str_eq(s, "JEQ") {
        Some(Jump::JEQ)
    } else if str_eq(s, "JGE") {
        Some(Jump::JGE)
    } else if str_eq(s, "JLT") {
        Some(Jump::JLT)
    } else if str_eq(s, "JNE") {
        Some(Jump::JNE)
    } else if str_eq(s, "JLE") {
        Some(Jump::JLE)
    } else if str_eq(s, "JMP") {
        Some(Jump::JMP)
    } else {
        None
    }
}

pub fn dest_bits_str(d: Dest) -> (r: &'static str)
    ensures
        r@ == spec_dest_bits(d),
{
    match d {
        Dest::Null => "000",
        Dest::M => "001",
        Dest::D => "010",
        Dest::MD => "011",
        Dest::A => "100",
        Dest::AM => "101",
        Dest::AD => "110",
        Dest::AMD => "111",
    }
}

pub fn comp_bits_str(c: Comp) -> (r: &'static str)
    ensures
        r@ == spec_comp_bits(c),
{
    match c {
        Comp::Zero => "0101010",
        Comp::One => "0111111",
        Comp::NegOne => "0111010",
        Comp::D => "0001100",
        Comp::A => "0110000",
        Comp::NotD => "0001101",
        Comp::NotA => "0110001",
        Comp::NegD => "0001111",
        Comp::NegA => "0110011",
        Comp::DPlusOne => "0011111",
        Comp::APlusOne => "0110111",
        Comp::DMinusOne => "0001110",
        Comp::AMinusOne => "0110010",
        Comp::DPlusA => "0000010",
        Comp::DMinusA => "0010011",
        Comp::AMinusD => "0000111",
        Comp::DAndA => "0000000",
        Comp::DOrA => "0010101",
        Comp::M => "1110000",
        Comp::NotM => "1110001",
        Comp::NegM => "1110011",
        Comp::MPlusOne => "1110111",
        Comp::MMinusOne => "1110010",
        Comp::DPlusM => "1000010",
        Comp::DMinusM => "1010011",
        Comp::MMinusD => "1000111",
        Comp::DAndM => "1000000",
        Comp::DOrM => "1010101",
    }
}

pub fn jump_bits_str(j: Jump) -> (r: &'static str)
    ensures
        r@ == spec_jump_bits(j),
{
    match j {
        Jump::Null => "000",
        Jump::JGT => "001",
        Jump::JEQ => "010",
        Jump::JGE => "011",
        Jump::JLT => "100",
        Jump::JNE => "101",
        Jump::JLE => "110",
        Jump::JMP => "111",
    }
}

pub fn dest_mnemonic_str(d: Dest) -> (r: &'static str)
    ensures
        r@ == spec_dest_mnemonic(d),
{
    match d {
        Dest::Null => "null",
        Dest::M => "M",
        Dest::D => "D",
        Dest::MD => "MD",
        Dest::A => "A",
        Dest::AM => "AM",
        Dest::AD => "AD",
        Dest::AMD => "AMD",
    }
}

pub fn comp_mnemonic_str(c: Comp) -> (r: &'static str)
    ensures
        r@ == spec_comp_mnemonic(c),
{
    match c {
        Comp::Zero => "0",
        Comp::One => "1",
        Comp::NegOne => "-1",
        Comp::D => "D",
        Comp::A => "A",
        Comp::NotD => "!D",
        Comp::NotA => "!A",
        Comp::NegD => "-D",
        Comp::NegA => "-A",
        Comp::DPlusOne => "D+1",
        Comp::APlusOne => "A+1",
        Comp::DMinusOne => "D-1",
        Comp::AMinusOne => "A-1",
        Comp::DPlusA => "D+A",
        Comp::DMinusA => "D-A",
        Comp::AMinusD => "A-D",
        Comp::DAndA => "D&A",
        Comp::DOrA => "D|A",
        Comp::M => "M",
        Comp::NotM => "!M",
        Comp::NegM => "-M",
        Comp::MPlusOne => "M+1",
        Comp::MMinusOne => "M-1",
        Comp::DPlusM => "D+M",
        Comp::DMinusM => "D-M",
        Comp::MMinusD => "M-D",
        Comp::DAndM => "D&M",
        Comp::DOrM => "D|M",
    }
}

pub fn jump_mnemonic_str(j: Jump) -> (r: &'static str)
    ensures
        r@ == spec_jump_mnemonic(j),
{
    match j {
        Jump::Null => "null",
        Jump::JGT => "JGT",
        Jump::JEQ => "JEQ",
        Jump::JGE => "JGE",
        Jump::JLT => "JLT",
        Jump::JNE => "JNE",
        Jump::JLE => "JLE",
        Jump::JMP => "JMP",
    }
}

/// The fixed encoding tables, offered in the shape the assembler's pass 2
/// consumes them: mnemonic text in, bit text out, `None` for an unknown
/// mnemonic.
pub struct Code;

impl Code {
    /// The seven `comp` bits of a computation mnemonic.
    pub fn comp_to_binary(&self, comp_str: &str) -> (r: Option<&'static str>)
        ensures
            spec_comp_of(comp_str@) is Some ==> (r matches Some(b) && b@ == spec_comp_bits(
                spec_comp_of(comp_str@)->Some_0,
            )),
            spec_comp_of(comp_str@) is None ==> r is None,
    {
        match parse_comp(comp_str) {
            Some(c) => Some(comp_bits_str(c)),
            None => None,
        }
    }

    /// The three `dest` bits of a destination mnemonic.
    pub fn dest_to_binary(&self, dest_str: &str) -> (r: Option<&'static str>)
        ensures
            spec_dest_of(dest_str@) is Some ==> (r matches Some(b) && b@ == spec_dest_bits(
                spec_dest_of(dest_str@)->Some_0,
            )),
            spec_dest_of(dest_str@) is None ==> r is None,
    {
        match parse_dest(dest_str) {
            Some(d) => Some(dest_bits_str(d)),
            None => None,
        }
    }

    /// The three `jump` bits of a jump mnemonic.
    pub fn jump_to_binary(&self, jump_str: &str) -> (r: Option<&'static str>)
        ensures
            spec_jump_of(jump_str@) is Some ==> (r matches Some(b) && b@ == spec_jump_bits(
                spec_jump_of(jump_str@)->Some_0,
            )),
            spec_jump_of(jump_str@) is None ==> r is None,
    {
        match parse_jump(jump_str) {
            Some(j) => Some(jump_bits_str(j)),
            None => None,
        }
    }
}

/// The architectural registers the VM code generator addresses by name.
#[derive(Clone, Copy, Debug, PartialEq, Eq, Structural)]
pub enum Reg {
    SP,
    LCL,
    ARG,
    THIS,
    THAT,
    R13,
}

/// The symbol each register is written as.
pub open spec fn spec_reg_text(r: Reg) -> Seq<char> {
    match r {
        Reg::SP => "SP"@,
        Reg::LCL => "LCL"@,
        Reg::ARG => "ARG"@,
        Reg::THIS => "THIS"@,
        Reg::THAT => "THAT"@,
        Reg::R13 => "R13"@,
    }
}

/// The fixed address each register symbol is bound to.
pub open spec fn spec_reg_addr(r: Reg) -> u16 {
    match r {
        Reg::SP => 0,
        Reg::LCL => 1,
        Reg::ARG => 2,
        Reg::THIS => 3,
        Reg::THAT => 4,
        Reg::R13 => 13,
    }
}

pub fn reg_text_str(r: Reg) -> (s: &'static str)
    ensures
        s@ == spec_reg_text(r),
{
    match r {
        Reg::SP => "SP",
        Reg::LCL => "LCL",
        Reg::ARG => "ARG",
        Reg::THIS => "THIS",
        Reg::THAT => "THAT",
        Reg::R13 => "R13",
    }
}

/// The three comparison commands, each with its own label family and
/// occurrence counter.
#[derive(Clone, Copy, Debug, PartialEq, Eq, Structural)]
pub enum CmpKind {
    Equal,
    LessThan,
    GreaterThan,
}

/// The keyword each comparison kind uses in its branch labels.
pub open spec fn spec_cmp_keyword(k: CmpKind) -> Seq<char> {
    match k {
        CmpKind::Equal => "EQUAL"@,
        CmpKind::LessThan => "LT"@,
        CmpKind::GreaterThan => "GT"@,
    }
}

/// The conditional jump each comparison kind branches on.
pub open spec fn spec_cmp_jump(k: CmpKind) -> Jump {
    match k {
        CmpKind::Equal => Jump::JEQ,
        CmpKind::LessThan => Jump::JLT,
        CmpKind::GreaterThan => Jump::JGT,
    }
}

/// The three labels one comparison emits: the true branch target, the false
/// branch target, and the join point after both.
#[derive(Clone, Copy, Debug, PartialEq, Eq, Structural)]
pub enum LabelRole {
    Plain,
    Not,
    End,
}

pub open spec fn spec_role_prefix(r: LabelRole) -> Seq<char> {
    match r {
        LabelRole::Plain => Seq::empty(),
        LabelRole::Not => "NOT_"@,
        LabelRole::End => "END_"@,
    }
}

/// A branch label synthesised for one comparison command: keyword, role and
/// the per-kind occurrence count that keeps it unique across one output.
#[derive(Clone, Copy, Debug, PartialEq, Eq, Structural)]
pub struct CmpLabel {
    pub kind: CmpKind,
    pub role: LabelRole,
    pub count: u64,
}

/// The token a comparison label renders to.
pub open spec fn spec_label_text(l: CmpLabel) -> Seq<char> {
    spec_role_prefix(l.role) + spec_cmp_keyword(l.kind) + "_"@ + spec_dec(l.count as int)
}

/// One line of generated symbolic assembly, in structured form.
#[derive(Clone, Copy, Debug, PartialEq, Eq, Structural)]
pub enum AsmLine {
    AtNumber(u16),
    AtRegister(Reg),
    AtLabel(CmpLabel),
    Compute(Dest, Comp, Jump),
    LabelDef(CmpLabel),
}

/// The source text of one structured assembly line.
pub open spec fn spec_render_line(a: AsmLine) -> Seq<char> {
    match a {
        AsmLine::AtNumber(n) => "@"@ + spec_dec(n as int),
        AsmLine::AtRegister(r) => "@"@ + spec_reg_text(r),
        AsmLine::AtLabel(l) => "@"@ + spec_label_text(l),
        AsmLine::Compute(d, c, j) => (if d is Null {
            Seq::empty()
        } else {
            spec_dest_mnemonic(d) + "="@
        }) + spec_comp_mnemonic(c) + (if j is Null {
            Seq::empty()
        } else {
            ";"@ + spec_jump_mnemonic(j)
        }),
        AsmLine::LabelDef(l) => "("@ + spec_label_text(l) + ")"@,
    }
}

/// The source text of a fragment: each line followed by a newline.
pub open spec fn spec_render_lines(ls: Seq<AsmLine>) -> Seq<char>
    decreases ls.len(),
{
    if ls.len() == 0 {
        Seq::empty()
    } else {
        spec_render_line(ls[0]) + "\n"@ + spec_render_lines(ls.drop_first())
    }
}

pub fn render_label(l: &CmpLabel) -> (r: String)
    ensures
        r@ == spec_label_text(*l),
{
    let mut s = match l.role {
        LabelRole::Plain => String::new(),
        LabelRole::Not => String::from_str("NOT_"),
        LabelRole::End => String::from_str("END_"),
    };
    match l.kind {
        CmpKind::Equal => s.append("EQUAL"),
        CmpKind::LessThan => s.append("LT"),
        CmpKind::GreaterThan => s.append("GT"),
    }
    s.append("_");
    let d = dec_string(l.count);
    s.append(d.as_str());
    proof {
        assert(s@ =~= spec_label_text(*l));
    }
    s
}

pub fn render_line(a: &AsmLine) -> (r: String)
    ensures
        r@ == spec_render_line(*a),
{
    match a {
        AsmLine::AtNumber(n) => {
            let mut s = String::from_str("@");
            let d = dec_string(*n as u64);
            s.append(d.as_str());
            s
        },
        AsmLine::AtRegister(rg) => {
            let mut s = String::from_str("@");
            s.append(reg_text_str(*rg));
            s
        },
        AsmLine::AtLabel(l) => {
            let mut s = String::from_str("@");
            let t = render_label(l);
            s.append(t.as_str());
            s
        },
        AsmLine::Compute(d, c, j) => {
            let mut s = String::new();
            if !matches!(d, Dest::Null) {
                s.append(dest_mnemonic_str(*d));
                s.append("=");
            }
            s.append(comp_mnemonic_str(*c));
            if !matches!(j, Jump::Null) {
                s.append(";");
                s.append(jump_mnemonic_str(*j));
            }
            proof {
                assert(s@ =~= spec_render_line(*a));
            }
            s
        },
        AsmLine::LabelDef(l) => {
            let mut s = String::from_str("(");
            let t = render_label(l);
            s.append(t.as_str());
            s.append(")");
            proof {
                assert(s@ =~= spec_render_line(*a));
            }
            s
        },
    }
}

fn render_lines_from(v: &Vec<AsmLine>, i: usize) -> (r: String)
    requires
        i <= v@.len(),
    ensures
        r@ == spec_render_lines(v@.skip(i as int)),
    decreases v@.len() - i,
{
    if i == v.len() {
        proof {
            assert(v@.skip(i as int) =~= Seq::<AsmLine>::empty());
        }
        String::new()
    } else {
        let mut s = render_line(&v[i]);
        s.append("\n");
        let rest = render_lines_from(v, i + 1);
        s.append(rest.as_str());
        proof {
            assert(v@.skip(i as int).drop_first() =~= v@.skip(i as int + 1));
            assert(v@.skip(i as int)[0] == v@[i as int]);
            assert(s@ =~= spec_render_lines(v@.skip(i as int)));
        }
        s
    }
}

/// Renders a structured fragment to its source text, one line per
/// instruction, each closed by a newline.
pub fn render_lines(v: &Vec<AsmLine>) -> (r: String)
    ensures
        r@ == spec_render_lines(v@),
{
    let r = render_lines_from(v, 0);
    proof {
        assert(v@.skip(0) =~= v@);
    }
    r
}

} // verus!
