//! The VM code generator: each stack-machine command becomes a fixed fragment
//! of symbolic assembly, with per-kind occurrence counters keeping the branch
//! labels of comparison commands unique across one output.
use vstd::prelude::*;

use crate::hack::{
    AsmLine, CmpKind, Comp, Dest, Jump, Reg, render_lines, spec_cmp_jump, spec_cmp_keyword,
    spec_jump_mnemonic, spec_render_lines,
};
use crate::parser::InstructionType;
use crate::text::{
    dec_string, spec_dec, spec_dec_val, spec_index_of, spec_is_number, spec_trim_start, index_of,
    str_eq, trim_start, parse_index,
};

pub use crate::hack::CmpKind as LogicalTranslation;

verus! {

/// How the VM code generator can fail.
#[derive(Clone, Copy, Debug, PartialEq, Eq, Structural)]
pub enum VmError {
    /// The arithmetic/logical mnemonic is not one of the nine commands.
    UnknownCommand,
    /// The segment name or its index is outside the legal set.
    InvalidSegmentIndex,
    /// `pop constant` was asked for: constants are not writable.
    InvalidDestination,
    /// The command shape itself is wrong for the requested operation.
    MalformedCommand,
}

/// The eight memory segments of a push/pop command.
#[derive(Clone, Copy, Debug, PartialEq, Eq, Structural)]
pub enum Segment {
    Constant,
    Local,
    Argument,
    This,
    That,
    Static,
    Temp,
    Pointer,
}

/// The segment a source name denotes; `None` outside the legal set.
pub open spec fn spec_segment_of(s: Seq<char>) -> Option<Segment> {
    if s == "constant"@ {
        Some(Segment::Constant)
    } else if s == "local"@ {
        Some(Segment::Local)
    } else if s == "argument"@ {
        Some(Segment::Argument)
    } else if s == "this"@ {
        Some(Segment::This)
    } else if s == "that"@ {
        Some(Segment::That)
    } else if s == "static"@ {
        Some(Segment::Static)
    } else if s == "temp"@ {
        Some(Segment::Temp)
    } else if s == "pointer"@ {
        Some(Segment::Pointer)
    } else {
        None
    }
}

pub fn parse_segment(s: &str) -> (r: Option<Segment>)
    ensures
        r == spec_segment_of(s@),
{
    if str_eq(s, "constant") {
        Some(Segment::Constant)
    } else if str_eq(s, "local") {
        Some(Segment::Local)
    } else if str_eq(s, "argument") {
        Some(Segment::Argument)
    } else if str_eq(s, "this") {
        Some(Segment::This)
    } else if str_eq(s, "that") {
        Some(Segment::That)
    } else if str_eq(s, "static") {
        Some(Segment::Static)
    } else if str_eq(s, "temp") {
        Some(Segment::Temp)
    } else if str_eq(s, "pointer") {
        Some(Segment::Pointer)
    } else {
        None
    }
}

/// The legal index range of each segment: `temp` has eight slots, `pointer`
/// two; `static` must land in the 15-bit space after its fixed offset of 16;
/// every other index must itself be a 15-bit address.
pub open spec fn spec_valid_index(seg: Segment, idx: u16) -> bool {
    match seg {
        Segment::Temp => idx <= 7,
        Segment::Pointer => idx <= 1,
        Segment::Static => idx <= 0x7FFF - 16,
        _ => idx <= 0x7FFF,
    }
}

pub fn valid_index(seg: Segment, idx: u16) -> (r: bool)
    ensures
        r == spec_valid_index(seg, idx),
{
    match seg {
        Segment::Temp => idx <= 7,
        Segment::Pointer => idx <= 1,
        Segment::Static => idx <= 0x7FFF - 16,
        _ => idx <= 0x7FFF,
    }
}

/// The segments addressed indirectly through a base register.
pub open spec fn spec_is_base_segment(seg: Segment) -> bool {
    seg == Segment::Local || seg == Segment::Argument || seg == Segment::This || seg
        == Segment::That
}

/// The base register of an indirectly addressed segment.
pub open spec fn spec_seg_reg(seg: Segment) -> Reg
    recommends
        spec_is_base_segment(seg),
{
    match seg {
        Segment::Local => Reg::LCL,
        Segment::Argument => Reg::ARG,
        Segment::This => Reg::THIS,
        Segment::That => Reg::THAT,
        _ => Reg::SP,
    }
}

fn seg_reg(seg: Segment) -> (r: Reg)
    requires
        spec_is_base_segment(seg),
    ensures
        r == spec_seg_reg(seg),
{
    match seg {
        Segment::Local => Reg::LCL,
        Segment::Argument => Reg::ARG,
        Segment::This => Reg::THIS,
        Segment::That => Reg::THAT,
        _ => Reg::SP,
    }
}

/// The tail shared by every push fragment: write `D` to the cell the stack
/// pointer addresses, then advance the stack pointer.
pub open spec fn spec_push_tail() -> Seq<AsmLine> {
    seq![
        AsmLine::AtRegister(Reg::SP),
        AsmLine::Compute(Dest::A, Comp::M, Jump::Null),
        AsmLine::Compute(Dest::M, Comp::D, Jump::Null),
        AsmLine::AtRegister(Reg::SP),
        AsmLine::Compute(Dest::M, Comp::MPlusOne, Jump::Null),
    ]
}

/// The structured fragment of `push seg idx`: load the source value into `D`
/// per the segment mapping, then run the shared push tail.
pub open spec fn spec_push_instrs(seg: Segment, idx: u16) -> Seq<AsmLine>
    recommends
        spec_valid_index(seg, idx),
{
    match seg {
        Segment::Constant => seq![
            AsmLine::AtNumber(idx),
            AsmLine::Compute(Dest::D, Comp::A, Jump::Null),
        ] + spec_push_tail(),
        Segment::Temp => seq![
            AsmLine::AtNumber((5 + idx) as u16),
            AsmLine::Compute(Dest::D, Comp::M, Jump::Null),
        ] + spec_push_tail(),
        Segment::Static => seq![
            AsmLine::AtNumber((16 + idx) as u16),
            AsmLine::Compute(Dest::D, Comp::M, Jump::Null),
        ] + spec_push_tail(),
        Segment::Pointer => seq![
            AsmLine::AtRegister(if idx == 0 { Reg::THIS } else { Reg::THAT }),
            AsmLine::Compute(Dest::D, Comp::M, Jump::Null),
        ] + spec_push_tail(),
        _ => seq![
            AsmLine::AtRegister(spec_seg_reg(seg)),
            AsmLine::Compute(Dest::D, Comp::M, Jump::Null),
            AsmLine::AtNumber(idx),
            AsmLine::Compute(Dest::D, Comp::DPlusA, Jump::Null),
            AsmLine::Compute(Dest::A, Comp::D, Jump::Null),
            AsmLine::Compute(Dest::D, Comp::M, Jump::Null),
        ] + spec_push_tail(),
    }
}

/// The head shared by every pop fragment: retreat the stack pointer and read
/// the popped value into `D`.
pub open spec fn spec_pop_head() -> Seq<AsmLine> {
    seq![
        AsmLine::AtRegister(Reg::SP),
        AsmLine::Compute(Dest::M, Comp::MMinusOne, Jump::Null),
        AsmLine::Compute(Dest::A, Comp::M, Jump::Null),
        AsmLine::Compute(Dest::D, Comp::M, Jump::Null),
    ]
}

/// The structured fragment of `pop seg idx`: directly addressed segments
/// store straight to their cell; base-register segments first park the
/// destination address in `R13`.
pub open spec fn spec_pop_instrs(seg: Segment, idx: u16) -> Seq<AsmLine>
    recommends
        spec_valid_index(seg, idx),
        seg != Segment::Constant,
{
    match seg {
        Segment::Temp => spec_pop_head() + seq![
            AsmLine::AtNumber((5 + idx) as u16),
            AsmLine::Compute(Dest::M, Comp::D, Jump::Null),
        ],
        Segment::Static => spec_pop_head() + seq![
            AsmLine::AtNumber((16 + idx) as u16),
            AsmLine::Compute(Dest::M, Comp::D, Jump::Null),
        ],
        Segment::Pointer => spec_pop_head() + seq![
            AsmLine::AtRegister(if idx == 0 { Reg::THIS } else { Reg::THAT }),
            AsmLine::Compute(Dest::M, Comp::D, Jump::Null),
        ],
        _ => seq![
            AsmLine::AtNumber(idx),
            AsmLine::Compute(Dest::D, Comp::A, Jump::Null),
            AsmLine::AtRegister(spec_seg_reg(seg)),
            AsmLine::Compute(Dest::D, Comp::DPlusM, Jump::Null),
            AsmLine::AtRegister(Reg::R13),
            AsmLine::Compute(Dest::M, Comp::D, Jump::Null),
        ] + spec_pop_head() + seq![
            AsmLine::AtRegister(Reg::R13),
            AsmLine::Compute(Dest::A, Comp::M, Jump::Null),
            AsmLine::Compute(Dest::M, Comp::D, Jump::Null),
        ],
    }
}

/// A line piece with the carriage return of a `\r\n` line ending removed.
pub open spec fn spec_drop_cr(s: Seq<char>) -> Seq<char> {
    if s.len() > 0 && s.last() == '\r' {
        s.drop_last()
    } else {
        s
    }
}

/// Splits a text into lines — a line ends at `\n` or `\r\n`, and a final
/// line ending opens no further line — removes each line's leading
/// whitespace, and joins the lines back with single newlines, leaving no
/// trailing newline.
pub open spec fn spec_dedent(s: Seq<char>) -> Seq<char>
    decreases s.len(),
{
    let k = spec_index_of(s, '\n', 0);
    if 0 <= k < s.len() {
        if k + 1 == s.len() {
            spec_trim_start(spec_drop_cr(s.subrange(0, k)))
        } else {
            spec_trim_start(spec_drop_cr(s.subrange(0, k))) + seq!['\n'] + spec_dedent(
                s.subrange(k + 1, s.len() as int),
            )
        }
    } else {
        spec_trim_start(s)
    }
}

fn drop_cr<'a>(s: &'a str) -> (r: &'a str)
    ensures
        r@ == spec_drop_cr(s@),
{
    let n = s.unicode_len();
    if n > 0 && s.get_char(n - 1) == '\r' {
        s.substring_char(0, n - 1)
    } else {
        s
    }
}

fn dedent_str(s: &str) -> (r: String)
    ensures
        r@ == spec_dedent(s@),
    decreases s@.len(),
{
    let n = s.unicode_len();
    let k = index_of(s, '\n', 0);
    if k == n {
        trim_start(s)
    } else if k + 1 == n {
        trim_start(drop_cr(s.substring_char(0, k)))
    } else {
        let mut out = trim_start(drop_cr(s.substring_char(0, k)));
        out.append("\n");
        let rest = dedent_str(s.substring_char(k + 1, n));
        out.append(rest.as_str());
        proof {
            reveal_strlit("\n");
            assert(out@ =~= spec_dedent(s@));
        }
        out
    }
}

/// Removes the leading indentation of every line of an assembly fragment.
pub fn dedent(translation: String) -> (r: String)
    ensures
        r@ == spec_dedent(translation@),
{
    dedent_str(translation.as_str())
}

/// The nine arithmetic/logical commands' non-branching six: the two-operand
/// combinations and the single-operand transformations.
#[derive(Clone, Copy, Debug, PartialEq, Eq, Structural)]
pub enum ArithmeticTranslation {
    Add,
    Neg,
    Sub,
    And,
    Or,
    Not,
}

/// The fragment template of a two-operand command: pop into `D`, combine with
/// the new top of stack in place, leave the stack pointer one lower.
pub open spec fn spec_two_arg_text(op: Seq<char>) -> Seq<char> {
    "@SP\nM=M-1\nA=M\nD=M\n@SP\nM=M-1\nA=M\nM=M"@ + op + "D\n@SP\nM=M+1\n"@
}

/// The fragment template of a single-operand command: transform the top of
/// stack in place, leaving the stack pointer where it was.
pub open spec fn spec_one_arg_text(op: Seq<char>) -> Seq<char> {
    "@SP\nM=M-1\nA=M\nM="@ + op + "M\n@SP\nM=M+1\n"@
}

/// The commutative variant, combining as `popped OP new-top`: the encoding
/// tables spell the `+`, `&` and `|` computations with `D` first.
pub open spec fn spec_two_arg_commutative_text(op: Seq<char>) -> Seq<char> {
    "@SP\nM=M-1\nA=M\nD=M\n@SP\nM=M-1\nA=M\nM=D"@ + op + "M\n@SP\nM=M+1\n"@
}

/// The assembly text each arithmetic/logical command translates to.
pub open spec fn spec_value_text(k: ArithmeticTranslation) -> Seq<char> {
    match k {
        ArithmeticTranslation::Add => spec_two_arg_commutative_text("+"@),
        ArithmeticTranslation::Neg => spec_one_arg_text("-"@),
        ArithmeticTranslation::Sub => spec_two_arg_text("-"@),
        ArithmeticTranslation::And => spec_two_arg_commutative_text("&"@),
        ArithmeticTranslation::Or => spec_two_arg_commutative_text("|"@),
        ArithmeticTranslation::Not => spec_one_arg_text("!"@),
    }
}

impl ArithmeticTranslation {
    /// The two-operand template with `operation` spliced into the combining
    /// instruction.
    pub fn two_arg_f(&self, operation: &str) -> (r: String)
        ensures
            r@ == spec_two_arg_text(operation@),
    {
        let mut s = String::from_str("@SP\nM=M-1\nA=M\nD=M\n@SP\nM=M-1\nA=M\nM=M");
        s.append(operation);
        s.append("D\n@SP\nM=M+1\n");
        proof {
            assert(s@ =~= spec_two_arg_text(operation@));
        }
        s
    }

    /// The single-operand template with `operation` spliced in.
    pub fn one_arg_f(&self, operation: &str) -> (r: String)
        ensures
            r@ == spec_one_arg_text(operation@),
    {
        let mut s = String::from_str("@SP\nM=M-1\nA=M\nM=");
        s.append(operation);
        s.append("M\n@SP\nM=M+1\n");
        proof {
            assert(s@ =~= spec_one_arg_text(operation@));
        }
        s
    }

    /// The commutative two-operand template with `operation` spliced in.
    pub fn two_arg_commutative_f(&self, operation: &str) -> (r: String)
        ensures
            r@ == spec_two_arg_commutative_text(operation@),
    {
        let mut s = String::from_str("@SP\nM=M-1\nA=M\nD=M\n@SP\nM=M-1\nA=M\nM=D");
        s.append(operation);
        s.append("M\n@SP\nM=M+1\n");
        proof {
            assert(s@ =~= spec_two_arg_commutative_text(operation@));
        }
        s
    }

    /// Removes the leading indentation of every line of a fragment.
    pub fn dedent(&self, translation: String) -> (r: String)
        ensures
            r@ == spec_dedent(translation@),
    {
        dedent(translation)
    }

    /// The assembly fragment of this command.
    pub fn value(&self) -> (r: String)
        ensures
            r@ == spec_value_text(*self),
    {
        match self {
            ArithmeticTranslation::Add => self.two_arg_commutative_f("+"),
            ArithmeticTranslation::Neg => self.one_arg_f("-"),
            ArithmeticTranslation::Sub => self.two_arg_f("-"),
            ArithmeticTranslation::And => self.two_arg_commutative_f("&"),
            ArithmeticTranslation::Or => self.two_arg_commutative_f("|"),
            ArithmeticTranslation::Not => self.one_arg_f("!"),
        }
    }
}

/// The per-kind occurrence counters behind comparison label numbering: a
/// fixed three-entry table, one counter per comparison kind.
#[derive(Clone, Copy, Debug, PartialEq, Eq, Structural)]
pub struct ComparisonCounts {
    pub eq: u64,
    pub lt: u64,
    pub gt: u64,
}

/// The counter a comparison kind owns.
pub open spec fn spec_count_of(c: ComparisonCounts, k: CmpKind) -> u64 {
    match k {
        CmpKind::Equal => c.eq,
        CmpKind::LessThan => c.lt,
        CmpKind::GreaterThan => c.gt,
    }
}

/// The counters after one comparison of kind `k` has been emitted.
pub open spec fn spec_bump(c: ComparisonCounts, k: CmpKind) -> ComparisonCounts {
    match k {
        CmpKind::Equal => ComparisonCounts { eq: (c.eq + 1) as u64, ..c },
        CmpKind::LessThan => ComparisonCounts { lt: (c.lt + 1) as u64, ..c },
        CmpKind::GreaterThan => ComparisonCounts { gt: (c.gt + 1) as u64, ..c },
    }
}

/// The comparison fragment template over its three spliced pieces: pop both
/// operands, branch on the sign of their difference, and push the all-bits
/// `true` sentinel or the zero `false` sentinel.
pub open spec fn spec_compare_template(keyword: Seq<char>, jump: Seq<char>, cnt: u64) -> Seq<
    char,
> {
    let plain = keyword + "_"@ + spec_dec(cnt as int);
    let notl = "NOT_"@ + keyword + "_"@ + spec_dec(cnt as int);
    let endl = "END_"@ + keyword + "_"@ + spec_dec(cnt as int);
    "@SP\nM=M-1\nA=M\nD=M\n@SP\nM=M-1\nA=M\nD=M-D\n@"@ + plain + "\nD;"@ + jump + "\n@"@ + notl
        + "\n0;JMP\n("@ + plain + ")\n@SP\nA=M\nM=-1\n@SP\nM=M+1\n@"@ + endl + "\n0;JMP\n("@ + notl
        + ")\n@SP\nA=M\nM=0\n@SP\nM=M+1\n("@ + endl + ")\n"@
}

/// The assembly fragment of a comparison command at occurrence `cnt`.
pub open spec fn spec_compare_text(k: CmpKind, cnt: u64) -> Seq<char> {
    spec_compare_template(spec_cmp_keyword(k), spec_jump_mnemonic(spec_cmp_jump(k)), cnt)
}

impl LogicalTranslation {
    /// The comparison template with its label keyword, conditional jump and
    /// occurrence count spliced in.
    pub fn generate_bool_compare_asm(&self, keyword: &str, jump: &str, cnt: u64) -> (r: String)
        ensures
            r@ == spec_compare_template(keyword@, jump@, cnt),
    {
        let num = dec_string(cnt);
        let mut plain = String::from_str(keyword);
        plain.append("_");
        plain.append(num.as_str());
        let mut notl = String::from_str("NOT_");
        notl.append(keyword);
        notl.append("_");
        notl.append(num.as_str());
        let mut endl = String::from_str("END_");
        endl.append(keyword);
        endl.append("_");
        endl.append(num.as_str());
        proof {
            assert(plain@ =~= keyword@ + "_"@ + spec_dec(cnt as int));
            assert(notl@ =~= "NOT_"@ + keyword@ + "_"@ + spec_dec(cnt as int));
            assert(endl@ =~= "END_"@ + keyword@ + "_"@ + spec_dec(cnt as int));
        }
        let mut s = String::from_str("@SP\nM=M-1\nA=M\nD=M\n@SP\nM=M-1\nA=M\nD=M-D\n@");
        s.append(plain.as_str());
        s.append("\nD;");
        s.append(jump);
        s.append("\n@");
        s.append(notl.as_str());
        s.append("\n0;JMP\n(");
        s.append(plain.as_str());
        s.append(")\n@SP\nA=M\nM=-1\n@SP\nM=M+1\n@");
        s.append(endl.as_str());
        s.append("\n0;JMP\n(");
        s.append(notl.as_str());
        s.append(")\n@SP\nA=M\nM=0\n@SP\nM=M+1\n(");
        s.append(endl.as_str());
        s.append(")\n");
        proof {
            assert(s@ =~= spec_compare_template(keyword@, jump@, cnt));
        }
        s
    }

    /// The assembly fragment of this comparison at its current occurrence
    /// count.
    pub fn value(&self, command_counts: &ComparisonCounts) -> (r: String)
        ensures
            r@ == spec_compare_text(*self, spec_count_of(*command_counts, *self)),
    {
        match self {
            CmpKind::Equal => self.generate_bool_compare_asm("EQUAL", "JEQ", command_counts.eq),
            CmpKind::LessThan => self.generate_bool_compare_asm("LT", "JLT", command_counts.lt),
            CmpKind::GreaterThan => self.generate_bool_compare_asm(
                "GT",
                "JGT",
                command_counts.gt,
            ),
        }
    }
}

/// What translating one arithmetic/logical mnemonic yields: the fragment text
/// and the counters afterwards, or the error.
pub open spec fn spec_write_arith(c: ComparisonCounts, s: Seq<char>) -> Result<
    (Seq<char>, ComparisonCounts),
    VmError,
> {
    if s == "eq"@ {
        Ok((spec_compare_text(CmpKind::Equal, c.eq), spec_bump(c, CmpKind::Equal)))
    } else if s == "lt"@ {
        Ok((spec_compare_text(CmpKind::LessThan, c.lt), spec_bump(c, CmpKind::LessThan)))
    } else if s == "gt"@ {
        Ok((spec_compare_text(CmpKind::GreaterThan, c.gt), spec_bump(c, CmpKind::GreaterThan)))
    } else if s == "add"@ {
        Ok((spec_value_text(ArithmeticTranslation::Add), c))
    } else if s == "neg"@ {
        Ok((spec_value_text(ArithmeticTranslation::Neg), c))
    } else if s == "sub"@ {
        Ok((spec_value_text(ArithmeticTranslation::Sub), c))
    } else if s == "and"@ {
        Ok((spec_value_text(ArithmeticTranslation::And), c))
    } else if s == "or"@ {
        Ok((spec_value_text(ArithmeticTranslation::Or), c))
    } else if s == "not"@ {
        Ok((spec_value_text(ArithmeticTranslation::Not), c))
    } else {
        Err(VmError::UnknownCommand)
    }
}

/// What translating one push/pop command yields. `constant` cannot be popped;
/// a segment name outside the legal set, or an index outside the segment's
/// range, is rejected rather than clamped.
pub open spec fn spec_push_pop(a1: Seq<char>, a2: Seq<char>, ty: InstructionType) -> Result<
    Seq<char>,
    VmError,
> {
    if ty == InstructionType::Arithmetic {
        Err(VmError::MalformedCommand)
    } else {
        match spec_segment_of(a1) {
            None => Err(VmError::InvalidSegmentIndex),
            Some(seg) => {
                if !(spec_is_number(a2) && spec_dec_val(a2) <= 0x7FFF && spec_valid_index(
                    seg,
                    spec_dec_val(a2) as u16,
                )) {
                    Err(VmError::InvalidSegmentIndex)
                } else {
                    let idx = spec_dec_val(a2) as u16;
                    if ty == InstructionType::Push {
                        Ok(spec_render_lines(spec_push_instrs(seg, idx)))
                    } else if seg == Segment::Constant {
                        Err(VmError::InvalidDestination)
                    } else {
                        Ok(spec_render_lines(spec_pop_instrs(seg, idx)))
                    }
                }
            },
        }
    }
}

/// The VM code generator's state: the three comparison occurrence counters.
/// Fragments are returned to the caller, who owns the output stream.
#[derive(Clone, Copy, Debug, PartialEq, Eq, Structural)]
pub struct CodeWriter {
    pub command_counts: ComparisonCounts,
}

impl CodeWriter {
    /// A fresh generator: every comparison counter at zero.
    pub fn new() -> (r: Self)
        ensures
            r.command_counts == (ComparisonCounts { eq: 0, lt: 0, gt: 0 }),
    {
        CodeWriter { command_counts: ComparisonCounts { eq: 0, lt: 0, gt: 0 } }
    }

    /// Translates one arithmetic/logical command. A comparison bumps its own
    /// counter, after its fragment is fully formed; nothing else changes any
    /// counter. An unknown mnemonic is refused.
    pub fn write_arithmetic_or_logical(&mut self, arg1: &str) -> (r: Result<String, VmError>)
        requires
            old(self).command_counts.eq < u64::MAX,
            old(self).command_counts.lt < u64::MAX,
            old(self).command_counts.gt < u64::MAX,
        ensures
            match spec_write_arith(old(self).command_counts, arg1@) {
                Ok((t, c)) => (r matches Ok(s) && s@ == t) && final (self).command_counts == c,
                Err(e) => (r matches Err(e2) && e2 == e) && *final (self) == *old(self),
            },
    {
        if str_eq(arg1, "eq") {
            let s = LogicalTranslation::Equal.value(&self.command_counts);
            self.command_counts.eq = self.command_counts.eq + 1;
            Ok(s)
        } else if str_eq(arg1, "lt") {
            let s = LogicalTranslation::LessThan.value(&self.command_counts);
            self.command_counts.lt = self.command_counts.lt + 1;
            Ok(s)
        } else if str_eq(arg1, "gt") {
            let s = LogicalTranslation::GreaterThan.value(&self.command_counts);
            self.command_counts.gt = self.command_counts.gt + 1;
            Ok(s)
        } else if str_eq(arg1, "add") {
            Ok(ArithmeticTranslation::Add.value())
        } else if str_eq(arg1, "neg") {
            Ok(ArithmeticTranslation::Neg.value())
        } else if str_eq(arg1, "sub") {
            Ok(ArithmeticTranslation::Sub.value())
        } else if str_eq(arg1, "and") {
            Ok(ArithmeticTranslation::And.value())
        } else if str_eq(arg1, "or") {
            Ok(ArithmeticTranslation::Or.value())
        } else if str_eq(arg1, "not") {
            Ok(ArithmeticTranslation::Not.value())
        } else {
            Err(VmError::UnknownCommand)
        }
    }

    /// Translates one arithmetic/logical command; the narrower entry point
    /// kept beside `write_arithmetic_or_logical`, with the same meaning.
    pub fn write_arithmetic(&mut self, arg1: &str) -> (r: Result<String, VmError>)
        requires
            old(self).command_counts.eq < u64::MAX,
            old(self).command_counts.lt < u64::MAX,
            old(self).command_counts.gt < u64::MAX,
        ensures
            match spec_write_arith(old(self).command_counts, arg1@) {
                Ok((t, c)) => (r matches Ok(s) && s@ == t) && final (self).command_counts == c,
                Err(e) => (r matches Err(e2) && e2 == e) && *final (self) == *old(self),
            },
    {
        self.write_arithmetic_or_logical(arg1)
    }

    /// The symbol or literal address a segment/index pair resolves to at
    /// translation time: the base register's name, or the fixed cell number.
    pub fn get_address_symbol(&self, seg: Segment, idx: u16) -> (r: String)
        requires
            seg != Segment::Constant,
            spec_valid_index(seg, idx),
        ensures
            r@ == spec_address_symbol(seg, idx),
    {
        match seg {
            Segment::Local => String::from_str("LCL"),
            Segment::This => String::from_str("THIS"),
            Segment::That => String::from_str("THAT"),
            Segment::Argument => String::from_str("ARG"),
            Segment::Static => dec_string(16 + idx as u64),
            Segment::Pointer => {
                if idx == 0 {
                    String::from_str("THIS")
                } else {
                    String::from_str("THAT")
                }
            },
            _ => dec_string(5 + idx as u64),
        }
    }

    /// The push fragment of a segment/index pair, rendered.
    pub fn get_push_asm(&self, seg: Segment, idx: u16) -> (r: String)
        requires
            spec_valid_index(seg, idx),
        ensures
            r@ == spec_render_lines(spec_push_instrs(seg, idx)),
    {
        let mut v: Vec<AsmLine> = Vec::new();
        match seg {
            Segment::Constant => {
                v.push(AsmLine::AtNumber(idx));
                v.push(AsmLine::Compute(Dest::D, Comp::A, Jump::Null));
            },
            Segment::Temp => {
                v.push(AsmLine::AtNumber(5 + idx));
                v.push(AsmLine::Compute(Dest::D, Comp::M, Jump::Null));
            },
            Segment::Static => {
                v.push(AsmLine::AtNumber(16 + idx));
                v.push(AsmLine::Compute(Dest::D, Comp::M, Jump::Null));
            },
            Segment::Pointer => {
                v.push(
                    AsmLine::AtRegister(
                        if idx == 0 {
                            Reg::THIS
                        } else {
                            Reg::THAT
                        },
                    ),
                );
                v.push(AsmLine::Compute(Dest::D, Comp::M, Jump::Null));
            },
            Segment::Local | Segment::Argument | Segment::This | Segment::That => {
                v.push(AsmLine::AtRegister(seg_reg(seg)));
                v.push(AsmLine::Compute(Dest::D, Comp::M, Jump::Null));
                v.push(AsmLine::AtNumber(idx));
                v.push(AsmLine::Compute(Dest::D, Comp::DPlusA, Jump::Null));
                v.push(AsmLine::Compute(Dest::A, Comp::D, Jump::Null));
                v.push(AsmLine::Compute(Dest::D, Comp::M, Jump::Null));
            },
        }
        v.push(AsmLine::AtRegister(Reg::SP));
        v.push(AsmLine::Compute(Dest::A, Comp::M, Jump::Null));
        v.push(AsmLine::Compute(Dest::M, Comp::D, Jump::Null));
        v.push(AsmLine::AtRegister(Reg::SP));
        v.push(AsmLine::Compute(Dest::M, Comp::MPlusOne, Jump::Null));
        proof {
            assert(v@ =~= spec_push_instrs(seg, idx));
        }
        render_lines(&v)
    }

    /// The pop fragment of a segment/index pair, rendered. Constants cannot
    /// be popped, so `constant` is excluded here.
    pub fn get_pop_asm(&self, seg: Segment, idx: u16) -> (r: String)
        requires
            seg != Segment::Constant,
            spec_valid_index(seg, idx),
        ensures
            r@ == spec_render_lines(spec_pop_instrs(seg, idx)),
    {
        let mut v: Vec<AsmLine> = Vec::new();
        if matches!(seg, Segment::Local | Segment::Argument | Segment::This | Segment::That) {
            v.push(AsmLine::AtNumber(idx));
            v.push(AsmLine::Compute(Dest::D, Comp::A, Jump::Null));
            v.push(AsmLine::AtRegister(seg_reg(seg)));
            v.push(AsmLine::Compute(Dest::D, Comp::DPlusM, Jump::Null));
            v.push(AsmLine::AtRegister(Reg::R13));
            v.push(AsmLine::Compute(Dest::M, Comp::D, Jump::Null));
        }
        v.push(AsmLine::AtRegister(Reg::SP));
        v.push(AsmLine::Compute(Dest::M, Comp::MMinusOne, Jump::Null));
        v.push(AsmLine::Compute(Dest::A, Comp::M, Jump::Null));
        v.push(AsmLine::Compute(Dest::D, Comp::M, Jump::Null));
        match seg {
            Segment::Temp => {
                v.push(AsmLine::AtNumber(5 + idx));
                v.push(AsmLine::Compute(Dest::M, Comp::D, Jump::Null));
            },
            Segment::Static => {
                v.push(AsmLine::AtNumber(16 + idx));
                v.push(AsmLine::Compute(Dest::M, Comp::D, Jump::Null));
            },
            Segment::Pointer => {
                v.push(
                    AsmLine::AtRegister(
                        if idx == 0 {
                            Reg::THIS
                        } else {
                            Reg::THAT
                        },
                    ),
                );
                v.push(AsmLine::Compute(Dest::M, Comp::D, Jump::Null));
            },
            _ => {
                v.push(AsmLine::AtRegister(Reg::R13));
                v.push(AsmLine::Compute(Dest::A, Comp::M, Jump::Null));
                v.push(AsmLine::Compute(Dest::M, Comp::D, Jump::Null));
            },
        }
        proof {
            assert(v@ =~= spec_pop_instrs(seg, idx));
        }
        render_lines(&v)
    }

    /// Translates one push or pop command given its segment name and index
    /// text, exactly as `spec_push_pop` lays the cases out.
    pub fn write_push_pop(&self, arg1: &str, arg2: &str, instruction_type: InstructionType) -> (r:
        Result<String, VmError>)
        ensures
            match spec_push_pop(arg1@, arg2@, instruction_type) {
                Ok(t) => r matches Ok(s) && s@ == t,
                Err(e) => r matches Err(e2) && e2 == e,
            },
    {
        if matches!(instruction_type, InstructionType::Arithmetic) {
            return Err(VmError::MalformedCommand);
        }
        let seg = match parse_segment(arg1) {
            Some(seg) => seg,
            None => {
                return Err(VmError::InvalidSegmentIndex);
            },
        };
        let idx = match parse_index(arg2) {
            Some(idx) => idx,
            None => {
                return Err(VmError::InvalidSegmentIndex);
            },
        };
        if !valid_index(seg, idx) {
            return Err(VmError::InvalidSegmentIndex);
        }
        if matches!(instruction_type, InstructionType::Push) {
            Ok(self.get_push_asm(seg, idx))
        } else if matches!(seg, Segment::Constant) {
            Err(VmError::InvalidDestination)
        } else {
            Ok(self.get_pop_asm(seg, idx))
        }
    }
}

/// The translation-time address text of each directly or indirectly
/// addressed segment: the base register's symbol for the indirect four and
/// `pointer`, the resolved cell number for `temp` and `static`.
pub open spec fn spec_address_symbol(seg: Segment, idx: u16) -> Seq<char> {
    match seg {
        Segment::Local => "LCL"@,
        Segment::This => "THIS"@,
        Segment::That => "THAT"@,
        Segment::Argument => "ARG"@,
        Segment::Static => spec_dec(16 + idx as int),
        Segment::Pointer => if idx == 0 {
            "THIS"@
        } else {
            "THAT"@
        },
        _ => spec_dec(5 + idx as int),
    }
}

} // verus!
