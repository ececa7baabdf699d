//! The assembler: two sequential passes over the same cleaned instruction
//! lines. Pass 1 binds label symbols to instruction-slot counts; pass 2
//! resolves every address operand (literal, label or first-seen variable)
//! and encodes each real instruction into a 16-character binary word.
use vstd::prelude::*;

use crate::hack::{
    parse_comp, parse_dest, parse_jump, spec_comp_bits, spec_comp_of, spec_dest_bits,
    spec_dest_of, spec_jump_bits, spec_jump_of, Dest, Jump,
};
use crate::text::{
    bin16_string, clean_line, is_number, is_symbol, last_index_of, parse_dec_masked,
    spec_bin16, spec_clean_line, spec_dec_val, spec_is_number, spec_is_symbol,
    spec_last_index_of, str_eq,
};

verus! {

/// The three syntactic instruction kinds of the assembly language.
#[derive(Clone, Copy, Debug, PartialEq, Eq, Structural)]
pub enum InstructionType {
    LInstruction,
    AInstruction,
    CInstruction,
}

/// The ways one line can defeat the assembler.
#[derive(Clone, Copy, Debug, PartialEq, Eq, Structural)]
pub enum AsmErrorKind {
    /// A label name was bound twice (or shadows a predefined symbol).
    DuplicateLabel,
    /// A field is missing or outside the encoding tables.
    MalformedInstruction,
    /// An address operand or label name breaks the symbol grammar.
    InvalidSymbolName,
}

/// An assembly error with the offending line's text and 1-based number.
#[derive(Clone, Debug)]
pub struct AsmError {
    pub kind: AsmErrorKind,
    pub line_number: usize,
    pub line: String,
}

/// The mathematical shadow of an `AsmError`.
pub struct AsmFault {
    pub kind: AsmErrorKind,
    pub line_number: int,
    pub line: Seq<char>,
}

impl View for AsmError {
    type V = AsmFault;

    open spec fn view(&self) -> AsmFault {
        AsmFault { kind: self.kind, line_number: self.line_number as int, line: self.line@ }
    }
}

/// A cleaned, non-empty line's kind, read off its delimiters.
pub open spec fn spec_instruction_type(line: Seq<char>) -> InstructionType
    recommends
        line.len() > 0,
{
    if line[0] == '@' {
        InstructionType::AInstruction
    } else if line[0] == '(' && line.last() == ')' {
        InstructionType::LInstruction
    } else {
        InstructionType::CInstruction
    }
}

/// The symbol table's mathematical form: name/address pairs in binding
/// order, the earliest binding of a name being the one that holds.
pub open spec fn spec_lookup(t: Seq<(Seq<char>, int)>, name: Seq<char>) -> Option<int>
    decreases t.len(),
{
    if t.len() == 0 {
        None
    } else if t[0].0 == name {
        Some(t[0].1)
    } else {
        spec_lookup(t.drop_first(), name)
    }
}

/// The view of the executable symbol table.
pub open spec fn spec_table_view(t: Seq<(String, usize)>) -> Seq<(Seq<char>, int)> {
    t.map_values(|p: (String, usize)| (p.0@, p.1 as int))
}

/// The assembler's mathematical state: the symbol table, the instruction
/// slot counter of pass 1, and the next free variable address of pass 2.
pub struct AsmModel {
    pub table: Seq<(Seq<char>, int)>,
    pub slot: int,
    pub next_var: int,
}

/// The architectural names every run starts from.
pub open spec fn spec_initial_table() -> Seq<(Seq<char>, int)> {
    seq![
        ("SP"@, 0int),
        ("LCL"@, 1int),
        ("ARG"@, 2int),
        ("THIS"@, 3int),
        ("THAT"@, 4int),
        ("SCREEN"@, 0x4000int),
        ("KBD"@, 0x6000int),
        ("R0"@, 0int),
        ("R1"@, 1int),
        ("R2"@, 2int),
        ("R3"@, 3int),
        ("R4"@, 4int),
        ("R5"@, 5int),
        ("R6"@, 6int),
        ("R7"@, 7int),
        ("R8"@, 8int),
        ("R9"@, 9int),
        ("R10"@, 10int),
        ("R11"@, 11int),
        ("R12"@, 12int),
        ("R13"@, 13int),
        ("R14"@, 14int),
        ("R15"@, 15int),
    ]
}

/// Where every translation starts: the architectural names, slot zero, and
/// variables allocated from 16 up.
pub open spec fn spec_initial_model() -> AsmModel {
    AsmModel { table: spec_initial_table(), slot: 0, next_var: 16 }
}

/// A table address masked into the 15-bit space an address word can carry.
pub open spec fn spec_mask15(v: int) -> u16
    recommends
        v >= 0,
{
    (v % 0x8000) as u16
}

/// What one line does to pass 1: blank lines vanish, a label definition
/// binds its validated name to the current slot count (a rebinding is an
/// error), and every real instruction advances the slot count by one.
pub open spec fn spec_pass1_line(m: AsmModel, raw: Seq<char>, lineno: int) -> Result<
    AsmModel,
    AsmFault,
> {
    let line = spec_clean_line(raw);
    if line.len() == 0 {
        Ok(m)
    } else if spec_instruction_type(line) == InstructionType::LInstruction {
        let name = line.subrange(1, line.len() - 1);
        if !spec_is_symbol(name) {
            Err(AsmFault { kind: AsmErrorKind::InvalidSymbolName, line_number: lineno, line: raw })
        } else if spec_lookup(m.table, name) is Some {
            Err(AsmFault { kind: AsmErrorKind::DuplicateLabel, line_number: lineno, line: raw })
        } else {
            Ok(AsmModel { table: m.table.push((name, m.slot)), ..m })
        }
    } else {
        Ok(AsmModel { slot: m.slot + 1, ..m })
    }
}

/// Pass 1 over the first `n` lines.
pub open spec fn spec_pass1_upto(lines: Seq<Seq<char>>, m0: AsmModel, n: int) -> Result<
    AsmModel,
    AsmFault,
>
    decreases n,
{
    if n <= 0 {
        Ok(m0)
    } else {
        match spec_pass1_upto(lines, m0, n - 1) {
            Err(f) => Err(f),
            Ok(m) => spec_pass1_line(m, lines[n - 1], n),
        }
    }
}

/// The destination field's text: what stands before the last `=`, if any.
pub open spec fn spec_dest_text(line: Seq<char>) -> Option<Seq<char>> {
    let e = spec_last_index_of(line, '=', line.len() as int);
    if e >= 0 {
        Some(line.subrange(0, e))
    } else {
        None
    }
}

/// The jump field's text: what stands after the last `;`, if any.
pub open spec fn spec_jump_text(line: Seq<char>) -> Option<Seq<char>> {
    let sc = spec_last_index_of(line, ';', line.len() as int);
    if sc >= 0 {
        Some(line.subrange(sc + 1, line.len() as int))
    } else {
        None
    }
}

/// The mandatory computation field's text: between the last `=` and the
/// following `;` when present, the whole line otherwise.
pub open spec fn spec_comp_text(line: Seq<char>) -> Seq<char> {
    let e = spec_last_index_of(line, '=', line.len() as int);
    if e >= 0 {
        let after = line.subrange(e + 1, line.len() as int);
        let sc = spec_last_index_of(after, ';', after.len() as int);
        if sc >= 0 {
            after.subrange(0, sc)
        } else {
            after
        }
    } else {
        let sc = spec_last_index_of(line, ';', line.len() as int);
        if sc >= 0 {
            line.subrange(0, sc)
        } else {
            line
        }
    }
}

/// The 16-bit word of a compute instruction: `111`, then the computation,
/// destination and jump bits; a field outside its table refuses the line.
pub open spec fn spec_c_word(line: Seq<char>) -> Result<Seq<char>, AsmErrorKind> {
    let comp = spec_comp_of(spec_comp_text(line));
    let dest = match spec_dest_text(line) {
        Some(t) => spec_dest_of(t),
        None => Some(Dest::Null),
    };
    let jump = match spec_jump_text(line) {
        Some(t) => spec_jump_of(t),
        None => Some(Jump::Null),
    };
    if comp is None || dest is None || jump is None {
        Err(AsmErrorKind::MalformedInstruction)
    } else {
        Ok(
            "111"@ + spec_comp_bits(comp->Some_0) + spec_dest_bits(dest->Some_0) + spec_jump_bits(
                jump->Some_0,
            ),
        )
    }
}

/// What one address operand does to pass 2: a known symbol resolves to its
/// bound address; an unseen valid symbol becomes a variable at the next free
/// address; a digit run encodes masked to 15 bits; anything else is refused.
pub open spec fn spec_a_step(m: AsmModel, op: Seq<char>) -> Result<
    (AsmModel, Seq<char>),
    AsmErrorKind,
> {
    if op.len() == 0 {
        Err(AsmErrorKind::MalformedInstruction)
    } else if spec_is_symbol(op) {
        match spec_lookup(m.table, op) {
            Some(v) => Ok((m, spec_bin16(spec_mask15(v)))),
            None => Ok(
                (
                    AsmModel { table: m.table.push((op, m.next_var)), next_var: m.next_var + 1, ..m },
                    spec_bin16(spec_mask15(m.next_var)),
                ),
            ),
        }
    } else if spec_is_number(op) {
        Ok((m, spec_bin16((spec_dec_val(op) % 0x8000) as u16)))
    } else {
        Err(AsmErrorKind::InvalidSymbolName)
    }
}

/// What one line does to pass 2: blank lines and label definitions emit
/// nothing; an address instruction resolves and encodes its operand; a
/// compute instruction encodes its three fields.
pub open spec fn spec_pass2_line(m: AsmModel, raw: Seq<char>) -> Result<
    (AsmModel, Seq<Seq<char>>),
    AsmErrorKind,
> {
    let line = spec_clean_line(raw);
    if line.len() == 0 {
        Ok((m, Seq::empty()))
    } else if spec_instruction_type(line) == InstructionType::LInstruction {
        Ok((m, Seq::empty()))
    } else if spec_instruction_type(line) == InstructionType::AInstruction {
        match spec_a_step(m, line.subrange(1, line.len() as int)) {
            Ok((m2, w)) => Ok((m2, seq![w])),
            Err(k) => Err(k),
        }
    } else {
        match spec_c_word(line) {
            Ok(w) => Ok((m, seq![w])),
            Err(k) => Err(k),
        }
    }
}

/// Pass 2 over the first `n` lines: the words emitted so far, in source
/// order, and the state carried forward.
pub open spec fn spec_pass2_upto(lines: Seq<Seq<char>>, m0: AsmModel, n: int) -> Result<
    (AsmModel, Seq<Seq<char>>),
    AsmFault,
>
    decreases n,
{
    if n <= 0 {
        Ok((m0, Seq::empty()))
    } else {
        match spec_pass2_upto(lines, m0, n - 1) {
            Err(f) => Err(f),
            Ok((m, ws)) => match spec_pass2_line(m, lines[n - 1]) {
                Ok((m2, w)) => Ok((m2, ws + w)),
                Err(k) => Err(AsmFault { kind: k, line_number: n, line: lines[n - 1] }),
            },
        }
    }
}

/// Both passes over one document, started at state `m0`: pass 1 binds every
/// label before pass 2 resolves anything, so forward references work.
pub open spec fn spec_assemble_from(m0: AsmModel, lines: Seq<Seq<char>>) -> Result<
    Seq<Seq<char>>,
    AsmFault,
> {
    match spec_pass1_upto(lines, m0, lines.len() as int) {
        Err(f) => Err(f),
        Ok(m1) => match spec_pass2_upto(lines, m1, lines.len() as int) {
            Err(f) => Err(f),
            Ok((m2, ws)) => Ok(ws),
        },
    }
}

/// Both passes over one document, started on the architectural symbol table.
pub open spec fn spec_assemble(lines: Seq<Seq<char>>) -> Result<Seq<Seq<char>>, AsmFault> {
    spec_assemble_from(spec_initial_model(), lines)
}

/// The assembler's working state: the symbol table as name/address pairs in
/// binding order, the instruction-slot counter of pass 1, and the next free
/// variable address of pass 2.
pub struct Assembler {
    pub symbols: Vec<(String, usize)>,
    pub program_counter: usize,
    pub symbol_counter: usize,
}

impl View for Assembler {
    type V = AsmModel;

    open spec fn view(&self) -> AsmModel {
        AsmModel {
            table: spec_table_view(self.symbols@),
            slot: self.program_counter as int,
            next_var: self.symbol_counter as int,
        }
    }
}

/// First-match lookup from position `i` on.
fn lookup_from(symbols: &Vec<(String, usize)>, name: &str, i: usize) -> (r: Option<usize>)
    requires
        i <= symbols@.len(),
    ensures
        spec_lookup(spec_table_view(symbols@).skip(i as int), name@) == (match r {
            Some(v) => Some(v as int),
            None => None::<int>,
        }),
    decreases symbols@.len() - i,
{
    if i == symbols.len() {
        proof {
            assert(spec_table_view(symbols@).skip(i as int) =~= Seq::<(Seq<char>, int)>::empty());
        }
        None
    } else {
        proof {
            assert(spec_table_view(symbols@).skip(i as int)[0] == (
                symbols@[i as int].0@,
                symbols@[i as int].1 as int,
            ));
            assert(spec_table_view(symbols@).skip(i as int).drop_first() =~= spec_table_view(
                symbols@,
            ).skip(i as int + 1));
        }
        if str_eq(symbols[i].0.as_str(), name) {
            Some(symbols[i].1)
        } else {
            lookup_from(symbols, name, i + 1)
        }
    }
}

/// First-match lookup over the whole table.
pub fn lookup_symbol(symbols: &Vec<(String, usize)>, name: &str) -> (r: Option<usize>)
    ensures
        spec_lookup(spec_table_view(symbols@), name@) == (match r {
            Some(v) => Some(v as int),
            None => None::<int>,
        }),
{
    let r = lookup_from(symbols, name, 0);
    proof {
        assert(spec_table_view(symbols@).skip(0) =~= spec_table_view(symbols@));
    }
    r
}

impl Assembler {
    /// A fresh assembler over the architectural symbol table.
    pub fn new() -> (r: Self)
        ensures
            r@ == spec_initial_model(),
    {
        let mut symbols: Vec<(String, usize)> = Vec::new();
        symbols.push((String::from_str("SP"), 0));
        symbols.push((String::from_str("LCL"), 1));
        symbols.push((String::from_str("ARG"), 2));
        symbols.push((String::from_str("THIS"), 3));
        symbols.push((String::from_str("THAT"), 4));
        symbols.push((String::from_str("SCREEN"), 0x4000));
        symbols.push((String::from_str("KBD"), 0x6000));
        symbols.push((String::from_str("R0"), 0));
        symbols.push((String::from_str("R1"), 1));
        symbols.push((String::from_str("R2"), 2));
        symbols.push((String::from_str("R3"), 3));
        symbols.push((String::from_str("R4"), 4));
        symbols.push((String::from_str("R5"), 5));
        symbols.push((String::from_str("R6"), 6));
        symbols.push((String::from_str("R7"), 7));
        symbols.push((String::from_str("R8"), 8));
        symbols.push((String::from_str("R9"), 9));
        symbols.push((String::from_str("R10"), 10));
        symbols.push((String::from_str("R11"), 11));
        symbols.push((String::from_str("R12"), 12));
        symbols.push((String::from_str("R13"), 13));
        symbols.push((String::from_str("R14"), 14));
        symbols.push((String::from_str("R15"), 15));
        let r = Assembler { symbols, program_counter: 0, symbol_counter: 16 };
        proof {
            assert(r@.table =~= spec_initial_table());
        }
        r
    }

    /// The line with any `//` comment removed and surrounding blanks trimmed.
    pub fn clean_line(&self, line: &str) -> (r: String)
        ensures
            r@ == spec_clean_line(line@),
    {
        clean_line(line)
    }

    /// Classifies one cleaned, non-empty line by its delimiters.
    pub fn instruction_type(&self, line: &str) -> (r: InstructionType)
        requires
            line@.len() > 0,
        ensures
            r == spec_instruction_type(line@),
    {
        let n = line.unicode_len();
        if line.get_char(0) == '@' {
            InstructionType::AInstruction
        } else if line.get_char(0) == '(' && line.get_char(n - 1) == ')' {
            InstructionType::LInstruction
        } else {
            InstructionType::CInstruction
        }
    }

    /// An address instruction's operand: everything after the `@`.
    pub fn addr<'a>(&self, instruction: &'a str) -> (r: &'a str)
        requires
            instruction@.len() >= 1,
        ensures
            r@ == instruction@.subrange(1, instruction@.len() as int),
    {
        instruction.substring_char(1, instruction.unicode_len())
    }

    /// The computation field of a compute instruction.
    pub fn comp<'a>(&self, instruction: &'a str) -> (r: &'a str)
        ensures
            r@ == spec_comp_text(instruction@),
    {
        let n = instruction.unicode_len();
        match last_index_of(instruction, '=', n) {
            Some(e) => {
                let after = instruction.substring_char(e + 1, n);
                match last_index_of(after, ';', after.unicode_len()) {
                    Some(sc) => after.substring_char(0, sc),
                    None => after,
                }
            },
            None => {
                match last_index_of(instruction, ';', n) {
                    Some(sc) => instruction.substring_char(0, sc),
                    None => instruction,
                }
            },
        }
    }

    /// The destination field, when an `=` is present.
    pub fn dest<'a>(&self, instruction: &'a str) -> (r: Option<&'a str>)
        ensures
            match spec_dest_text(instruction@) {
                Some(t) => r matches Some(s) && s@ == t,
                None => r is None,
            },
    {
        let n = instruction.unicode_len();
        match last_index_of(instruction, '=', n) {
            Some(e) => Some(instruction.substring_char(0, e)),
            None => None,
        }
    }

    /// The jump field, when a `;` is present.
    pub fn jump<'a>(&self, instruction: &'a str) -> (r: Option<&'a str>)
        ensures
            match spec_jump_text(instruction@) {
                Some(t) => r matches Some(s) && s@ == t,
                None => r is None,
            },
    {
        let n = instruction.unicode_len();
        match last_index_of(instruction, ';', n) {
            Some(sc) => Some(instruction.substring_char(sc + 1, n)),
            None => None,
        }
    }

    /// Encodes one compute instruction into its 16-bit word.
    pub fn parse_c_instruction(&self, current_instruction: &str) -> (r: Result<
        String,
        AsmErrorKind,
    >)
        ensures
            match spec_c_word(current_instruction@) {
                Ok(w) => r matches Ok(s) && s@ == w,
                Err(k) => r matches Err(k2) && k2 == k,
            },
    {
        let comp = parse_comp(self.comp(current_instruction));
        let dest = match self.dest(current_instruction) {
            Some(t) => parse_dest(t),
            None => Some(Dest::Null),
        };
        let jump = match self.jump(current_instruction) {
            Some(t) => parse_jump(t),
            None => Some(Jump::Null),
        };
        match (comp, dest, jump) {
            (Some(c), Some(d), Some(j)) => {
                let mut s = String::from_str("111");
                s.append(crate::hack::comp_bits_str(c));
                s.append(crate::hack::dest_bits_str(d));
                s.append(crate::hack::jump_bits_str(j));
                proof {
                    assert(s@ =~= spec_c_word(current_instruction@)->Ok_0);
                }
                Ok(s)
            },
            _ => Err(AsmErrorKind::MalformedInstruction),
        }
    }

    /// Pass 1's handling of one label definition: validate the enclosed name
    /// and bind it to the current slot count; rebinding is refused.
    pub fn parse_label_symbol(&mut self, current_instruction: &str) -> (r: Result<
        String,
        AsmErrorKind,
    >)
        requires
            current_instruction@.len() >= 2,
        ensures
            ({
                let name = current_instruction@.subrange(
                    1,
                    current_instruction@.len() - 1,
                );
                if !spec_is_symbol(name) {
                    (r matches Err(k) && k == AsmErrorKind::InvalidSymbolName) && *final (self)
                        == *old(self)
                } else if spec_lookup(old(self)@.table, name) is Some {
                    (r matches Err(k) && k == AsmErrorKind::DuplicateLabel) && *final (self)
                        == *old(self)
                } else {
                    (r matches Ok(s) && s@ == name) && final (self)@ == (AsmModel {
                        table: old(self)@.table.push((name, old(self)@.slot)),
                        ..old(self)@
                    }) && final (self).program_counter == old(self).program_counter
                        && final (self).symbol_counter == old(self).symbol_counter
                }
            }),
    {
        let n = current_instruction.unicode_len();
        let label = current_instruction.substring_char(1, n - 1);
        if !is_symbol(label) {
            return Err(AsmErrorKind::InvalidSymbolName);
        }
        if lookup_symbol(&self.symbols, label).is_some() {
            return Err(AsmErrorKind::DuplicateLabel);
        }
        let owned = String::from_str(label);
        self.symbols.push((String::from_str(label), self.program_counter));
        proof {
            assert(self@.table =~= old(self)@.table.push(
                (label@, old(self)@.slot),
            ));
        }
        Ok(owned)
    }

    /// Pass 2's symbol resolution: a known name resolves to its bound
    /// address; an unseen one becomes a variable at the next free address.
    pub fn parse_symbol(&mut self, addr_str: &str) -> (r: String)
        requires
            spec_is_symbol(addr_str@),
            old(self).symbol_counter < usize::MAX,
        ensures
            spec_a_step(old(self)@, addr_str@) matches Ok((m2, w)) && final (self)@ == m2 && r@
                == w,
            final (self).program_counter == old(self).program_counter,
    {
        match lookup_symbol(&self.symbols, addr_str) {
            Some(v) => {
                proof {
                    assert(v as int % 0x8000 == (v % 0x8000) as int);
                }
                bin16_string((v % 0x8000) as u16)
            },
            None => {
                let v = self.symbol_counter;
                self.symbols.push((String::from_str(addr_str), v));
                self.symbol_counter = v + 1;
                proof {
                    assert(self@.table =~= old(self)@.table.push((addr_str@, v as int)));
                }
                bin16_string((v % 0x8000) as u16)
            },
        }
    }

    /// Pass 2's handling of one address instruction: classify the operand
    /// and encode it, allocating a variable when the symbol is unseen.
    pub fn parse_a_instruction(&mut self, current_instruction: &str) -> (r: Result<
        String,
        AsmErrorKind,
    >)
        requires
            current_instruction@.len() >= 1,
            old(self).symbol_counter < usize::MAX,
        ensures
            ({
                let op = current_instruction@.subrange(1, current_instruction@.len() as int);
                match spec_a_step(old(self)@, op) {
                    Ok((m2, w)) => (r matches Ok(s) && s@ == w) && final (self)@ == m2
                        && final (self).program_counter == old(self).program_counter,
                    Err(k) => (r matches Err(k2) && k2 == k) && *final (self) == *old(self),
                }
            }),
    {
        let op = self.addr(current_instruction);
        if op.unicode_len() == 0 {
            return Err(AsmErrorKind::MalformedInstruction);
        }
        if is_symbol(op) {
            return Ok(self.parse_symbol(op));
        }
        if is_number(op) {
            let w = parse_dec_masked(op);
            return Ok(bin16_string(w));
        }
        Err(AsmErrorKind::InvalidSymbolName)
    }
}

/// Pass 1 never touches the variable allocator.
proof fn lemma_pass1_keeps_next_var(lines: Seq<Seq<char>>, m0: AsmModel, n: int)
    requires
        spec_pass1_upto(lines, m0, n) is Ok,
    ensures
        spec_pass1_upto(lines, m0, n)->Ok_0.next_var == m0.next_var,
    decreases n,
{
    if n > 0 {
        if spec_pass1_upto(lines, m0, n - 1) is Ok {
            lemma_pass1_keeps_next_var(lines, m0, n - 1);
        }
    }
}

impl Assembler {
    /// Pass 1: bind every label to its instruction-slot count, counting only
    /// real instructions; the first bad or rebound label aborts the pass.
    pub fn first_pass(&mut self, lines: &Vec<String>) -> (r: Result<(), AsmError>)
        requires
            old(self).program_counter + lines@.len() <= usize::MAX,
        ensures
            match spec_pass1_upto(
                lines@.map_values(|l: String| l@),
                old(self)@,
                lines@.len() as int,
            ) {
                Ok(m) => (r matches Ok(u)) && final (self)@ == m && final (self).symbol_counter
                    == old(self).symbol_counter,
                Err(f) => r matches Err(e) && e@ == f,
            },
    {
        let ghost lines_v = lines@.map_values(|l: String| l@);
        let ghost m0 = self@;
        let n = lines.len();
        let mut i: usize = 0;
        while i < n
            invariant
                n == lines@.len(),
                i <= n,
                lines_v == lines@.map_values(|l: String| l@),
                m0 == old(self)@,
                m0.slot + n <= usize::MAX,
                self.program_counter <= m0.slot + i,
                self.symbol_counter as int == m0.next_var,
                spec_pass1_upto(lines_v, m0, i as int) == Ok::<AsmModel, AsmFault>(self@),
            decreases n - i,
        {
            proof {
                assert(lines_v[i as int] == lines@[i as int]@);
            }
            let cur = clean_line(lines[i].as_str());
            if cur.as_str().unicode_len() == 0 {
                i = i + 1;
                continue ;
            }
            let ty = self.instruction_type(cur.as_str());
            if matches!(ty, InstructionType::LInstruction) {
                match self.parse_label_symbol(cur.as_str()) {
                    Ok(_) => {},
                    Err(k) => {
                        let e = AsmError {
                            kind: k,
                            line_number: i + 1,
                            line: lines[i].clone(),
                        };
                        proof {
                            assert(spec_pass1_upto(lines_v, m0, i + 1) == Err::<
                                AsmModel,
                                AsmFault,
                            >(e@));
                            lemma_pass1_err_stable(lines_v, m0, i + 1, n as int);
                        }
                        return Err(e);
                    },
                }
            } else {
                self.program_counter = self.program_counter + 1;
            }
            i = i + 1;
        }
        Ok(())
    }

    /// Pass 2: resolve every address operand against the table pass 1 left,
    /// allocating first-seen variables from 16 up, and encode each real
    /// instruction into a 16-character binary word, in source order.
    pub fn second_pass(&mut self, lines: &Vec<String>) -> (r: Result<Vec<String>, AsmError>)
        requires
            old(self).symbol_counter + lines@.len() <= usize::MAX,
        ensures
            match spec_pass2_upto(
                lines@.map_values(|l: String| l@),
                old(self)@,
                lines@.len() as int,
            ) {
                Ok((m, ws)) => (r matches Ok(words) && words@.map_values(|w: String| w@) == ws)
                    && final (self)@ == m,
                Err(f) => r matches Err(e) && e@ == f,
            },
    {
        let ghost lines_v = lines@.map_values(|l: String| l@);
        let ghost m0 = self@;
        let mut words: Vec<String> = Vec::new();
        proof {
            assert(words@.map_values(|w: String| w@) =~= Seq::<Seq<char>>::empty());
        }
        let n = lines.len();
        let mut i: usize = 0;
        while i < n
            invariant
                n == lines@.len(),
                i <= n,
                lines_v == lines@.map_values(|l: String| l@),
                m0 == old(self)@,
                m0.next_var + n <= usize::MAX,
                self.symbol_counter <= m0.next_var + i,
                spec_pass2_upto(lines_v, m0, i as int) == Ok::<
                    (AsmModel, Seq<Seq<char>>),
                    AsmFault,
                >((self@, words@.map_values(|w: String| w@))),
            decreases n - i,
        {
            proof {
                assert(lines_v[i as int] == lines@[i as int]@);
            }
            let ghost words_before = words@.map_values(|w: String| w@);
            let cur = clean_line(lines[i].as_str());
            if cur.as_str().unicode_len() == 0 {
                proof {
                    assert(words_before + Seq::<Seq<char>>::empty() =~= words_before);
                }
                i = i + 1;
                continue ;
            }
            let ty = self.instruction_type(cur.as_str());
            let word = match ty {
                InstructionType::LInstruction => {
                    proof {
                        assert(words_before + Seq::<Seq<char>>::empty() =~= words_before);
                    }
                    i = i + 1;
                    continue ;
                },
                InstructionType::AInstruction => self.parse_a_instruction(cur.as_str()),
                InstructionType::CInstruction => self.parse_c_instruction(cur.as_str()),
            };
            match word {
                Ok(w) => {
                    proof {
                        assert(words_before.push(w@) =~= words_before + seq![w@]);
                    }
                    words.push(w);
                    proof {
                        assert(words@.map_values(|w2: String| w2@) =~= words_before.push(w@));
                    }
                    i = i + 1;
                },
                Err(k) => {
                    let e = AsmError {
                        kind: k,
                        line_number: i + 1,
                        line: lines[i].clone(),
                    };
                    proof {
                        assert(spec_pass2_upto(lines_v, m0, i + 1) == Err::<
                            (AsmModel, Seq<Seq<char>>),
                            AsmFault,
                        >(e@));
                        lemma_pass2_err_stable(lines_v, m0, i + 1, n as int);
                    }
                    return Err(e);
                },
            }
        }
        Ok(words)
    }

    /// A whole translation: pass 1 completes before pass 2 resolves
    /// anything, so a label may be referenced before its definition.
    pub fn parse(&mut self, lines: &Vec<String>) -> (r: Result<Vec<String>, AsmError>)
        requires
            old(self).program_counter + lines@.len() <= usize::MAX,
            old(self).symbol_counter + lines@.len() <= usize::MAX,
        ensures
            match spec_assemble_from(old(self)@, lines@.map_values(|l: String| l@)) {
                Ok(ws) => r matches Ok(words) && words@.map_values(|w: String| w@) == ws,
                Err(f) => r matches Err(e) && e@ == f,
            },
    {
        let ghost lines_v = lines@.map_values(|l: String| l@);
        match self.first_pass(lines) {
            Ok(_) => {},
            Err(e) => {
                return Err(e);
            },
        }
        proof {
            lemma_pass1_keeps_next_var(lines_v, old(self)@, lines_v.len() as int);
        }
        self.second_pass(lines)
    }
}

/// Assembles a whole document from the architectural symbol table: the
/// 16-character binary words of its real instructions, in source order, or
/// the first fault with its line text and 1-based number.
pub fn assemble(lines: &Vec<String>) -> (r: Result<Vec<String>, AsmError>)
    requires
        lines@.len() + 16 <= usize::MAX,
    ensures
        match spec_assemble(lines@.map_values(|l: String| l@)) {
            Ok(ws) => r matches Ok(words) && words@.map_values(|w: String| w@) == ws,
            Err(f) => r matches Err(e) && e@ == f,
        },
{
    let mut a = Assembler::new();
    a.parse(lines)
}

/// Once pass 1 has faulted, every longer prefix reports the same fault.
proof fn lemma_pass1_err_stable(lines: Seq<Seq<char>>, m0: AsmModel, n: int, m: int)
    requires
        0 <= n <= m,
        spec_pass1_upto(lines, m0, n) is Err,
    ensures
        spec_pass1_upto(lines, m0, m) == spec_pass1_upto(lines, m0, n),
    decreases m,
{
    if m > n {
        lemma_pass1_err_stable(lines, m0, n, m - 1);
    }
}

/// Once pass 2 has faulted, every longer prefix reports the same fault.
proof fn lemma_pass2_err_stable(lines: Seq<Seq<char>>, m0: AsmModel, n: int, m: int)
    requires
        0 <= n <= m,
        spec_pass2_upto(lines, m0, n) is Err,
    ensures
        spec_pass2_upto(lines, m0, m) == spec_pass2_upto(lines, m0, n),
    decreases m,
{
    if m > n {
        lemma_pass2_err_stable(lines, m0, n, m - 1);
    }
}

} // verus!
