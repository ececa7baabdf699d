//! The code generator's stack-discipline laws, proved over the semantic
//! model: push/pop round trips, the effect of pushed constants, and the
//! uniqueness of comparison branch labels.
use vstd::prelude::*;

use crate::code_writer::{
    spec_pop_head, spec_pop_instrs, spec_push_instrs, spec_seg_reg, spec_valid_index, Segment,
};
use crate::hack::{spec_label_text, spec_reg_addr, AsmLine, CmpLabel, Comp, Dest, Jump, Reg};
use crate::machine::{
    lemma_run_append, spec_run, spec_run_from, state_wf, wadd, MachineState,
};
use crate::assembler::{
    spec_instruction_type, spec_lookup, spec_mask15, spec_pass2_line, spec_pass2_upto, AsmModel,
    InstructionType,
};
use crate::text::{
    lemma_dec_injective, lemma_dec_len, spec_bin16, spec_clean_line, spec_dec, spec_is_symbol,
};

verus! {

/// The memory cell a push/pop command addresses in a given state: fixed for
/// `temp`, `static` and `pointer`, base register plus index for the rest.
pub open spec fn spec_cell_addr(seg: Segment, idx: u16, s: MachineState) -> int
    recommends
        seg != Segment::Constant,
{
    match seg {
        Segment::Temp => 5 + idx as int,
        Segment::Static => 16 + idx as int,
        Segment::Pointer => if idx == 0 {
            3int
        } else {
            4int
        },
        _ => wadd(s.ram[spec_reg_addr(spec_seg_reg(seg)) as int], idx) as int,
    }
}

/// Round-trip law: a valid `push seg i` immediately followed by `pop seg i`
/// leaves both the addressed cell and the stack pointer exactly as they
/// were, from any state whose stack pointer sits above the register file.
pub proof fn lemma_push_pop_round_trip(seg: Segment, idx: u16, s: MachineState)
    requires
        state_wf(s),
        seg != Segment::Constant,
        spec_valid_index(seg, idx),
        16 <= s.ram[0] < 0xFFFF,
    ensures
        ({
            let r = spec_run(s, spec_push_instrs(seg, idx) + spec_pop_instrs(seg, idx));
            let c = spec_cell_addr(seg, idx, s);
            &&& r is Some
            &&& r->Some_0.ram[0] == s.ram[0]
            &&& r->Some_0.ram[c] == s.ram[c]
            &&& state_wf(r->Some_0)
        }),
{
    match seg {
        Segment::Temp => lemma_push_pop_temp(seg, idx, s),
        Segment::Static => lemma_push_pop_static_seg(seg, idx, s),
        Segment::Pointer => lemma_push_pop_pointer(seg, idx, s),
        Segment::Local => lemma_push_pop_local(seg, idx, s),
        Segment::Argument => lemma_push_pop_argument(seg, idx, s),
        Segment::This => lemma_push_pop_this_seg(seg, idx, s),
        _ => lemma_push_pop_that_seg(seg, idx, s),
    }
}

/// The round trip for the `temp` segment.
#[verifier::rlimit(100)]
proof fn lemma_push_pop_temp(seg: Segment, idx: u16, s: MachineState)
    requires
        state_wf(s),
        seg == Segment::Temp,
        spec_valid_index(seg, idx),
        16 <= s.ram[0] < 0xFFFF,
    ensures
        ({
            let r = spec_run(s, spec_push_instrs(seg, idx) + spec_pop_instrs(seg, idx));
            let c = spec_cell_addr(seg, idx, s);
            &&& r is Some
            &&& r->Some_0.ram[0] == s.ram[0]
            &&& r->Some_0.ram[c] == s.ram[c]
            &&& state_wf(r->Some_0)
        }),
{
    let push = spec_push_instrs(seg, idx);
    let pop = spec_pop_instrs(seg, idx);
    lemma_run_append(s, push, pop);
    reveal_with_fuel(spec_run_from, 14);
    assert(spec_run(s, push) is Some);
    let t = spec_run(s, push)->Some_0;
    assert(spec_run(t, pop) is Some);
}

/// The round trip for the `static` segment.
#[verifier::rlimit(100)]
proof fn lemma_push_pop_static_seg(seg: Segment, idx: u16, s: MachineState)
    requires
        state_wf(s),
        seg == Segment::Static,
        spec_valid_index(seg, idx),
        16 <= s.ram[0] < 0xFFFF,
    ensures
        ({
            let r = spec_run(s, spec_push_instrs(seg, idx) + spec_pop_instrs(seg, idx));
            let c = spec_cell_addr(seg, idx, s);
            &&& r is Some
            &&& r->Some_0.ram[0] == s.ram[0]
            &&& r->Some_0.ram[c] == s.ram[c]
            &&& state_wf(r->Some_0)
        }),
{
    let push = spec_push_instrs(seg, idx);
    let pop = spec_pop_instrs(seg, idx);
    let c = spec_cell_addr(seg, idx, s);
    lemma_run_append(s, push, pop);
    reveal_with_fuel(spec_run_from, 8);
    assert(spec_run(s, push) is Some);
    let t = spec_run(s, push)->Some_0;
    assert(t.ram[0] == s.ram[0] + 1);
    assert(t.ram[c] == s.ram[c]);
    assert(spec_run(t, pop) is Some);
}

/// The round trip for the `pointer` segment.
#[verifier::rlimit(100)]
proof fn lemma_push_pop_pointer(seg: Segment, idx: u16, s: MachineState)
    requires
        state_wf(s),
        seg == Segment::Pointer,
        spec_valid_index(seg, idx),
        16 <= s.ram[0] < 0xFFFF,
    ensures
        ({
            let r = spec_run(s, spec_push_instrs(seg, idx) + spec_pop_instrs(seg, idx));
            let c = spec_cell_addr(seg, idx, s);
            &&& r is Some
            &&& r->Some_0.ram[0] == s.ram[0]
            &&& r->Some_0.ram[c] == s.ram[c]
            &&& state_wf(r->Some_0)
        }),
{
    let push = spec_push_instrs(seg, idx);
    let pop = spec_pop_instrs(seg, idx);
    lemma_run_append(s, push, pop);
    reveal_with_fuel(spec_run_from, 14);
    assert(spec_run(s, push) is Some);
    let t = spec_run(s, push)->Some_0;
    assert(spec_run(t, pop) is Some);
}

/// The round trip for the `local` segment.
#[verifier::rlimit(100)]
#[verifier::spinoff_prover]
proof fn lemma_push_pop_local(seg: Segment, idx: u16, s: MachineState)
    requires
        state_wf(s),
        seg == Segment::Local,
        spec_valid_index(seg, idx),
        16 <= s.ram[0] < 0xFFFF,
    ensures
        ({
            let r = spec_run(s, spec_push_instrs(seg, idx) + spec_pop_instrs(seg, idx));
            let c = spec_cell_addr(seg, idx, s);
            &&& r is Some
            &&& r->Some_0.ram[0] == s.ram[0]
            &&& r->Some_0.ram[c] == s.ram[c]
            &&& state_wf(r->Some_0)
        }),
{
    let push = spec_push_instrs(seg, idx);
    let pop = spec_pop_instrs(seg, idx);
    let pre = seq![
        AsmLine::AtNumber(idx),
        AsmLine::Compute(Dest::D, Comp::A, Jump::Null),
        AsmLine::AtRegister(spec_seg_reg(seg)),
        AsmLine::Compute(Dest::D, Comp::DPlusM, Jump::Null),
        AsmLine::AtRegister(Reg::R13),
        AsmLine::Compute(Dest::M, Comp::D, Jump::Null),
    ] + spec_pop_head();
    let post = seq![
        AsmLine::AtRegister(Reg::R13),
        AsmLine::Compute(Dest::A, Comp::M, Jump::Null),
        AsmLine::Compute(Dest::M, Comp::D, Jump::Null),
    ];
    assert(pop =~= pre + post);
    lemma_run_append(s, push, pop);
    reveal_with_fuel(spec_run_from, 12);
    assert(spec_run(s, push) is Some);
    let t = spec_run(s, push)->Some_0;
    lemma_run_append(t, pre, post);
    assert(spec_run(t, pre) is Some);
    let t2 = spec_run(t, pre)->Some_0;
    assert(spec_run(t2, post) is Some);
}

/// The round trip for the `argument` segment.
#[verifier::rlimit(100)]
#[verifier::spinoff_prover]
proof fn lemma_push_pop_argument(seg: Segment, idx: u16, s: MachineState)
    requires
        state_wf(s),
        seg == Segment::Argument,
        spec_valid_index(seg, idx),
        16 <= s.ram[0] < 0xFFFF,
    ensures
        ({
            let r = spec_run(s, spec_push_instrs(seg, idx) + spec_pop_instrs(seg, idx));
            let c = spec_cell_addr(seg, idx, s);
            &&& r is Some
            &&& r->Some_0.ram[0] == s.ram[0]
            &&& r->Some_0.ram[c] == s.ram[c]
            &&& state_wf(r->Some_0)
        }),
{
    let push = spec_push_instrs(seg, idx);
    let pop = spec_pop_instrs(seg, idx);
    let pre = seq![
        AsmLine::AtNumber(idx),
        AsmLine::Compute(Dest::D, Comp::A, Jump::Null),
        AsmLine::AtRegister(spec_seg_reg(seg)),
        AsmLine::Compute(Dest::D, Comp::DPlusM, Jump::Null),
        AsmLine::AtRegister(Reg::R13),
        AsmLine::Compute(Dest::M, Comp::D, Jump::Null),
    ] + spec_pop_head();
    let post = seq![
        AsmLine::AtRegister(Reg::R13),
        AsmLine::Compute(Dest::A, Comp::M, Jump::Null),
        AsmLine::Compute(Dest::M, Comp::D, Jump::Null),
    ];
    assert(pop =~= pre + post);
    lemma_run_append(s, push, pop);
    reveal_with_fuel(spec_run_from, 12);
    assert(spec_run(s, push) is Some);
    let t = spec_run(s, push)->Some_0;
    lemma_run_append(t, pre, post);
    assert(spec_run(t, pre) is Some);
    let t2 = spec_run(t, pre)->Some_0;
    assert(spec_run(t2, post) is Some);
}

/// The round trip for the `this` segment.
#[verifier::rlimit(100)]
#[verifier::spinoff_prover]
proof fn lemma_push_pop_this_seg(seg: Segment, idx: u16, s: MachineState)
    requires
        state_wf(s),
        seg == Segment::This,
        spec_valid_index(seg, idx),
        16 <= s.ram[0] < 0xFFFF,
    ensures
        ({
            let r = spec_run(s, spec_push_instrs(seg, idx) + spec_pop_instrs(seg, idx));
            let c = spec_cell_addr(seg, idx, s);
            &&& r is Some
            &&& r->Some_0.ram[0] == s.ram[0]
            &&& r->Some_0.ram[c] == s.ram[c]
            &&& state_wf(r->Some_0)
        }),
{
    let push = spec_push_instrs(seg, idx);
    let pop = spec_pop_instrs(seg, idx);
    let pre = seq![
        AsmLine::AtNumber(idx),
        AsmLine::Compute(Dest::D, Comp::A, Jump::Null),
        AsmLine::AtRegister(spec_seg_reg(seg)),
        AsmLine::Compute(Dest::D, Comp::DPlusM, Jump::Null),
        AsmLine::AtRegister(Reg::R13),
        AsmLine::Compute(Dest::M, Comp::D, Jump::Null),
    ] + spec_pop_head();
    let post = seq![
        AsmLine::AtRegister(Reg::R13),
        AsmLine::Compute(Dest::A, Comp::M, Jump::Null),
        AsmLine::Compute(Dest::M, Comp::D, Jump::Null),
    ];
    assert(pop =~= pre + post);
    lemma_run_append(s, push, pop);
    reveal_with_fuel(spec_run_from, 12);
    assert(spec_run(s, push) is Some);
    let t = spec_run(s, push)->Some_0;
    lemma_run_append(t, pre, post);
    assert(spec_run(t, pre) is Some);
    let t2 = spec_run(t, pre)->Some_0;
    assert(spec_run(t2, post) is Some);
}

/// The round trip for the `that` segment.
#[verifier::rlimit(100)]
#[verifier::spinoff_prover]
proof fn lemma_push_pop_that_seg(seg: Segment, idx: u16, s: MachineState)
    requires
        state_wf(s),
        seg == Segment::That,
        spec_valid_index(seg, idx),
        16 <= s.ram[0] < 0xFFFF,
    ensures
        ({
            let r = spec_run(s, spec_push_instrs(seg, idx) + spec_pop_instrs(seg, idx));
            let c = spec_cell_addr(seg, idx, s);
            &&& r is Some
            &&& r->Some_0.ram[0] == s.ram[0]
            &&& r->Some_0.ram[c] == s.ram[c]
            &&& state_wf(r->Some_0)
        }),
{
    let push = spec_push_instrs(seg, idx);
    let pop = spec_pop_instrs(seg, idx);
    let pre = seq![
        AsmLine::AtNumber(idx),
        AsmLine::Compute(Dest::D, Comp::A, Jump::Null),
        AsmLine::AtRegister(spec_seg_reg(seg)),
        AsmLine::Compute(Dest::D, Comp::DPlusM, Jump::Null),
        AsmLine::AtRegister(Reg::R13),
        AsmLine::Compute(Dest::M, Comp::D, Jump::Null),
    ] + spec_pop_head();
    let post = seq![
        AsmLine::AtRegister(Reg::R13),
        AsmLine::Compute(Dest::A, Comp::M, Jump::Null),
        AsmLine::Compute(Dest::M, Comp::D, Jump::Null),
    ];
    assert(pop =~= pre + post);
    lemma_run_append(s, push, pop);
    reveal_with_fuel(spec_run_from, 12);
    assert(spec_run(s, push) is Some);
    let t = spec_run(s, push)->Some_0;
    lemma_run_append(t, pre, post);
    assert(spec_run(t, pre) is Some);
    let t2 = spec_run(t, pre)->Some_0;
    assert(spec_run(t2, post) is Some);
    let u = spec_run(t2, post)->Some_0;
    assert(spec_run(s, push + pop) == Some(u));
    let c = spec_cell_addr(seg, idx, s);
    assert(u.ram[0] == s.ram[0]);
    assert(u.ram[c] == s.ram[c]);
}

/// One pushed constant: the stack pointer advances by one, the old top slot
/// takes the literal, and no other cell moves.
proof fn lemma_push_constant_step(k: u16, s: MachineState)
    requires
        state_wf(s),
        k <= 0x7FFF,
        1 <= s.ram[0] < 0xFFFF,
    ensures
        ({
            let r = spec_run(s, spec_push_instrs(Segment::Constant, k));
            &&& r is Some
            &&& r->Some_0.ram[0] == s.ram[0] + 1
            &&& r->Some_0.ram[s.ram[0] as int] == k
            &&& (forall|addr: int|
                addr != 0 && addr != s.ram[0] as int ==> r->Some_0.ram[addr] == s.ram[addr])
            &&& state_wf(r->Some_0)
        }),
{
    reveal_with_fuel(spec_run_from, 9);
    assert(spec_run(s, spec_push_instrs(Segment::Constant, k)) is Some);
}

/// The concatenated fragments of a whole sequence of `push constant`
/// commands, in order.
pub open spec fn spec_push_constants(ks: Seq<u16>) -> Seq<AsmLine>
    decreases ks.len(),
{
    if ks.len() == 0 {
        Seq::empty()
    } else {
        spec_push_instrs(Segment::Constant, ks[0]) + spec_push_constants(ks.drop_first())
    }
}

/// Pushed-constants law: after `N` `push constant k` commands the stack
/// pointer stands exactly `N` above its initial value, each pushed cell read
/// back in order holds its own literal, and every other cell is untouched.
pub proof fn lemma_push_constants_effect(ks: Seq<u16>, s: MachineState)
    requires
        state_wf(s),
        forall|j: int| 0 <= j < ks.len() ==> #[trigger] ks[j] <= 0x7FFF,
        1 <= s.ram[0],
        s.ram[0] + ks.len() < 0x10000,
    ensures
        ({
            let r = spec_run(s, spec_push_constants(ks));
            &&& r is Some
            &&& r->Some_0.ram[0] == s.ram[0] + ks.len()
            &&& (forall|j: int|
                0 <= j < ks.len() ==> r->Some_0.ram[s.ram[0] + j] == ks[j])
            &&& (forall|addr: int|
                addr != 0 && !(s.ram[0] <= addr < s.ram[0] + ks.len())
                    ==> r->Some_0.ram[addr] == s.ram[addr])
            &&& state_wf(r->Some_0)
        }),
    decreases ks.len(),
{
    if ks.len() == 0 {
        assert(spec_run(s, spec_push_constants(ks)) == Some(s));
    } else {
        let first = spec_push_instrs(Segment::Constant, ks[0]);
        let rest = spec_push_constants(ks.drop_first());
        lemma_run_append(s, first, rest);
        lemma_push_constant_step(ks[0], s);
        let t = spec_run(s, first)->Some_0;
        assert(forall|j: int|
            0 <= j < ks.drop_first().len() ==> #[trigger] ks.drop_first()[j] <= 0x7FFF);
        lemma_push_constants_effect(ks.drop_first(), t);
        let u = spec_run(t, rest)->Some_0;
        assert(spec_run(s, spec_push_constants(ks)) == Some(u));
        assert forall|j: int| 0 <= j < ks.len() implies u.ram[s.ram[0] + j] == ks[j] by {
            if j == 0 {
                assert(u.ram[s.ram[0] as int] == t.ram[s.ram[0] as int]);
            } else {
                assert(ks.drop_first()[j - 1] == ks[j]);
                assert(u.ram[t.ram[0] + (j - 1)] == ks.drop_first()[j - 1]);
            }
        }
        assert forall|addr: int|
            addr != 0 && !(s.ram[0] <= addr < s.ram[0] + ks.len()) implies u.ram[addr]
            == s.ram[addr] by {
            assert(u.ram[addr] == t.ram[addr]);
        }
    }
}

/// Distinct comparison labels render to distinct tokens: the label text is
/// injective in its kind, role and occurrence count. Two comparison commands
/// in one output therefore never collide, since a repeated kind carries a
/// larger count and distinct kinds carry distinct keywords.
pub proof fn lemma_label_text_injective(l1: CmpLabel, l2: CmpLabel)
    requires
        spec_label_text(l1) == spec_label_text(l2),
    ensures
        l1 == l2,
{
    reveal_strlit("NOT_");
    reveal_strlit("END_");
    reveal_strlit("EQUAL");
    reveal_strlit("LT");
    reveal_strlit("GT");
    reveal_strlit("_");
    lemma_dec_len(l1.count as int);
    lemma_dec_len(l2.count as int);
    let t1 = spec_label_text(l1);
    let t2 = spec_label_text(l2);
    if l1.role == l2.role && l1.kind == l2.kind {
        let base = crate::hack::spec_role_prefix(l1.role) + crate::hack::spec_cmp_keyword(
            l1.kind,
        ) + "_"@;
        assert(t1 == base + spec_dec(l1.count as int));
        assert(t2 == base + spec_dec(l2.count as int));
        assert(spec_dec(l1.count as int) =~= t1.subrange(base.len() as int, t1.len() as int));
        assert(spec_dec(l2.count as int) =~= t2.subrange(base.len() as int, t2.len() as int));
        lemma_dec_injective(l1.count as int, l2.count as int);
    } else {
        assert(false) by {
            assert(t1[0] == t2[0] && t1.len() == t2.len());
            assert(t1.len() >= 2 && t1[1] == t2[1]);
            if t1.len() > 4 && t2.len() > 4 {
                assert(t1[4] == t2[4]);
            }
        }
    }
}

/// Appending an entry never disturbs the binding of a name already bound:
/// the earliest binding wins.
proof fn lemma_lookup_push(t: Seq<(Seq<char>, int)>, p: (Seq<char>, int), name: Seq<char>)
    requires
        spec_lookup(t, name) is Some,
    ensures
        spec_lookup(t.push(p), name) == spec_lookup(t, name),
    decreases t.len(),
{
    assert(t.push(p)[0] == t[0]);
    if t[0].0 != name {
        assert(t.push(p).drop_first() =~= t.drop_first().push(p));
        lemma_lookup_push(t.drop_first(), p, name);
    }
}

/// One pass-2 line never disturbs an existing binding: it touches the table
/// only to append a first-seen variable.
proof fn lemma_pass2_line_preserves(m: AsmModel, raw: Seq<char>, name: Seq<char>, v: int)
    requires
        spec_lookup(m.table, name) == Some(v),
        spec_pass2_line(m, raw) is Ok,
    ensures
        spec_lookup(spec_pass2_line(m, raw)->Ok_0.0.table, name) == Some(v),
{
    let line = spec_clean_line(raw);
    if line.len() != 0 && spec_instruction_type(line) == InstructionType::AInstruction {
        let op = line.subrange(1, line.len() as int);
        if op.len() != 0 && spec_is_symbol(op) && spec_lookup(m.table, op) is None {
            lemma_lookup_push(m.table, (op, m.next_var), name);
        }
    }
}

/// No pass-2 prefix disturbs a binding made before pass 2 began.
proof fn lemma_pass2_preserves_binding(
    lines: Seq<Seq<char>>,
    m0: AsmModel,
    n: int,
    name: Seq<char>,
    v: int,
)
    requires
        spec_lookup(m0.table, name) == Some(v),
        spec_pass2_upto(lines, m0, n) is Ok,
    ensures
        spec_lookup(spec_pass2_upto(lines, m0, n)->Ok_0.0.table, name) == Some(v),
    decreases n,
{
    if n > 0 {
        lemma_pass2_preserves_binding(lines, m0, n - 1, name, v);
        let prev = spec_pass2_upto(lines, m0, n - 1)->Ok_0;
        lemma_pass2_line_preserves(prev.0, lines[n - 1], name, v);
    }
}

/// Label-resolution law: an address instruction that references a name bound
/// before pass 2 began emits the binding's masked address, wherever in the
/// file the instruction stands — so a forward reference to a label resolves
/// exactly as a backward reference to the same label.
pub proof fn lemma_label_reference_word(
    lines: Seq<Seq<char>>,
    m0: AsmModel,
    i: int,
    name: Seq<char>,
    v: int,
)
    requires
        spec_is_symbol(name),
        spec_lookup(m0.table, name) == Some(v),
        0 <= i < lines.len(),
        spec_clean_line(lines[i]) == "@"@ + name,
        spec_pass2_upto(lines, m0, i) is Ok,
    ensures
        ({
            let prev = spec_pass2_upto(lines, m0, i)->Ok_0;
            spec_pass2_upto(lines, m0, i + 1) == Ok::<(AsmModel, Seq<Seq<char>>), crate::assembler::AsmFault>(
                (prev.0, prev.1 + seq![spec_bin16(spec_mask15(v))]),
            )
        }),
{
    reveal_strlit("@");
    let prev = spec_pass2_upto(lines, m0, i)->Ok_0;
    lemma_pass2_preserves_binding(lines, m0, i, name, v);
    let line = spec_clean_line(lines[i]);
    assert(line[0] == '@');
    assert(line.subrange(1, line.len() as int) =~= name);
    assert(spec_pass2_line(prev.0, lines[i]) == Ok::<(AsmModel, Seq<Seq<char>>), crate::assembler::AsmErrorKind>(
        (prev.0, seq![spec_bin16(spec_mask15(v))]),
    ));
}

/// The two-reference corollary: two address instructions that reference the
/// same label emit the same word, whichever order they and the label's
/// definition stand in.
pub proof fn lemma_forward_backward_same_word(
    lines: Seq<Seq<char>>,
    m0: AsmModel,
    i: int,
    j: int,
    name: Seq<char>,
    v: int,
)
    requires
        spec_is_symbol(name),
        spec_lookup(m0.table, name) == Some(v),
        0 <= i < lines.len(),
        0 <= j < lines.len(),
        spec_clean_line(lines[i]) == "@"@ + name,
        spec_clean_line(lines[j]) == "@"@ + name,
        spec_pass2_upto(lines, m0, i) is Ok,
        spec_pass2_upto(lines, m0, j) is Ok,
    ensures
        ({
            let wi = spec_pass2_upto(lines, m0, i + 1)->Ok_0.1.last();
            let wj = spec_pass2_upto(lines, m0, j + 1)->Ok_0.1.last();
            wi == wj && wi == spec_bin16(spec_mask15(v))
        }),
{
    lemma_label_reference_word(lines, m0, i, name, v);
    lemma_label_reference_word(lines, m0, j, name, v);
}

/// Variable-allocation law: pass 2 only ever appends to the symbol table,
/// and the entries it appends — the first-seen variable symbols, in
/// first-occurrence order — receive consecutive addresses counted from the
/// allocator's starting point. From the architectural table that point is
/// 16, so the first two distinct unseen symbols receive 16 and 17, however
/// often each is referenced afterwards.
pub proof fn lemma_variable_addresses_consecutive(lines: Seq<Seq<char>>, m0: AsmModel, n: int)
    requires
        spec_pass2_upto(lines, m0, n) is Ok,
    ensures
        ({
            let m = spec_pass2_upto(lines, m0, n)->Ok_0.0;
            &&& m.table.len() >= m0.table.len()
            &&& m.table.subrange(0, m0.table.len() as int) == m0.table
            &&& m.next_var == m0.next_var + m.table.len() - m0.table.len()
            &&& (forall|q: int|
                m0.table.len() <= q < m.table.len() ==> (#[trigger] m.table[q]).1 == m0.next_var
                    + q - m0.table.len())
        }),
    decreases n,
{
    if n <= 0 {
        assert(spec_pass2_upto(lines, m0, n)->Ok_0.0.table.subrange(
            0,
            m0.table.len() as int,
        ) =~= m0.table);
    } else {
        lemma_variable_addresses_consecutive(lines, m0, n - 1);
        let prev = spec_pass2_upto(lines, m0, n - 1)->Ok_0.0;
        let m = spec_pass2_upto(lines, m0, n)->Ok_0.0;
        assert(prev.table.subrange(0, m0.table.len() as int) == m0.table);
        if m.table.len() == prev.table.len() + 1 {
            assert(m.table.subrange(0, m0.table.len() as int) =~= prev.table.subrange(
                0,
                m0.table.len() as int,
            ));
        }
        assert(m.table == prev.table || m.table == prev.table.push(
            (m.table.last().0, prev.next_var),
        ));
    }
}

} // verus!
