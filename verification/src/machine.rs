//! A semantic model of straight-line generated code: memory, the address and
//! data registers, and the effect of each non-branching instruction. The
//! stack-discipline laws of the code generator are stated and proved over
//! this model.
use vstd::prelude::*;

use crate::hack::{AsmLine, Comp, Dest, Jump, spec_reg_addr};

verus! {

/// The machine's visible state for straight-line code.
pub struct MachineState {
    pub ram: Map<int, u16>,
    pub a: u16,
    pub d: u16,
}

/// Memory is total: every address holds a word.
pub open spec fn state_wf(s: MachineState) -> bool {
    forall|addr: int| s.ram.dom().contains(addr)
}

/// 16-bit wrapping addition.
pub open spec fn wadd(x: u16, y: u16) -> u16 {
    ((x + y) % 0x10000) as u16
}

/// 16-bit wrapping subtraction.
pub open spec fn wsub(x: u16, y: u16) -> u16 {
    (((x - y) + 0x10000) % 0x10000) as u16
}

/// 16-bit two's-complement negation.
pub open spec fn wneg(x: u16) -> u16 {
    ((0x10000 - x) % 0x10000) as u16
}

/// 16-bit bitwise complement.
pub open spec fn wnot(x: u16) -> u16 {
    (0xFFFF - x) as u16
}

/// The value a computation produces from the registers and the addressed
/// memory word.
pub open spec fn spec_eval_comp(c: Comp, a: u16, d: u16, m: u16) -> u16 {
    match c {
        Comp::Zero => 0,
        Comp::One => 1,
        Comp::NegOne => 0xFFFF,
        Comp::D => d,
        Comp::A => a,
        Comp::M => m,
        Comp::NotD => wnot(d),
        Comp::NotA => wnot(a),
        Comp::NotM => wnot(m),
        Comp::NegD => wneg(d),
        Comp::NegA => wneg(a),
        Comp::NegM => wneg(m),
        Comp::DPlusOne => wadd(d, 1),
        Comp::APlusOne => wadd(a, 1),
        Comp::MPlusOne => wadd(m, 1),
        Comp::DMinusOne => wsub(d, 1),
        Comp::AMinusOne => wsub(a, 1),
        Comp::MMinusOne => wsub(m, 1),
        Comp::DPlusA => wadd(d, a),
        Comp::DPlusM => wadd(d, m),
        Comp::DMinusA => wsub(d, a),
        Comp::DMinusM => wsub(d, m),
        Comp::AMinusD => wsub(a, d),
        Comp::MMinusD => wsub(m, d),
        Comp::DAndA => d & a,
        Comp::DAndM => d & m,
        Comp::DOrA => d | a,
        Comp::DOrM => d | m,
    }
}

pub open spec fn dest_has_a(dst: Dest) -> bool {
    dst == Dest::A || dst == Dest::AM || dst == Dest::AD || dst == Dest::AMD
}

pub open spec fn dest_has_d(dst: Dest) -> bool {
    dst == Dest::D || dst == Dest::MD || dst == Dest::AD || dst == Dest::AMD
}

pub open spec fn dest_has_m(dst: Dest) -> bool {
    dst == Dest::M || dst == Dest::MD || dst == Dest::AM || dst == Dest::AMD
}

/// Stores a computed value in every flagged destination; a memory store goes
/// to the cell the address register selected before the instruction.
pub open spec fn spec_apply_dest(s: MachineState, dst: Dest, v: u16) -> MachineState {
    MachineState {
        ram: if dest_has_m(dst) {
            s.ram.insert(s.a as int, v)
        } else {
            s.ram
        },
        a: if dest_has_a(dst) {
            v
        } else {
            s.a
        },
        d: if dest_has_d(dst) {
            v
        } else {
            s.d
        },
    }
}

/// One straight-line step. Jumps and label references leave the model
/// (`None`): the laws below run only the branch-free stack fragments.
pub open spec fn spec_step(s: MachineState, l: AsmLine) -> Option<MachineState> {
    match l {
        AsmLine::AtNumber(n) => Some(MachineState { a: n, ..s }),
        AsmLine::AtRegister(r) => Some(MachineState { a: spec_reg_addr(r), ..s }),
        AsmLine::AtLabel(_) => None,
        AsmLine::LabelDef(_) => Some(s),
        AsmLine::Compute(dst, c, j) => if j != Jump::Null {
            None
        } else {
            Some(spec_apply_dest(s, dst, spec_eval_comp(c, s.a, s.d, s.ram[s.a as int])))
        },
    }
}

/// Runs the instructions from position `i` on.
pub open spec fn spec_run_from(s: MachineState, ls: Seq<AsmLine>, i: int) -> Option<MachineState>
    decreases ls.len() - i when 0 <= i <= ls.len()
{
    if 0 <= i < ls.len() {
        match spec_step(s, ls[i]) {
            None => None,
            Some(s2) => spec_run_from(s2, ls, i + 1),
        }
    } else {
        Some(s)
    }
}

/// Runs a whole straight-line fragment.
pub open spec fn spec_run(s: MachineState, ls: Seq<AsmLine>) -> Option<MachineState> {
    spec_run_from(s, ls, 0)
}

/// Past the first fragment's end, a concatenation runs like the second
/// fragment alone.
proof fn lemma_run_from_offset(s: MachineState, xs: Seq<AsmLine>, ys: Seq<AsmLine>, j: int)
    requires
        0 <= j <= ys.len(),
    ensures
        spec_run_from(s, xs + ys, xs.len() + j) == spec_run_from(s, ys, j),
    decreases ys.len() - j,
{
    if j < ys.len() {
        assert((xs + ys)[xs.len() + j] == ys[j]);
        match spec_step(s, ys[j]) {
            None => {},
            Some(s2) => {
                lemma_run_from_offset(s2, xs, ys, j + 1);
            },
        }
    }
}

/// Running a concatenation is running the first fragment, then the second
/// from whatever state the first one reached.
pub proof fn lemma_run_append(s: MachineState, xs: Seq<AsmLine>, ys: Seq<AsmLine>)
    ensures
        spec_run(s, xs + ys) == (match spec_run(s, xs) {
            Some(t) => spec_run(t, ys),
            None => None::<MachineState>,
        }),
{
    lemma_run_append_from(s, xs, ys, 0);
}

proof fn lemma_run_append_from(s: MachineState, xs: Seq<AsmLine>, ys: Seq<AsmLine>, i: int)
    requires
        0 <= i <= xs.len(),
    ensures
        spec_run_from(s, xs + ys, i) == (match spec_run_from(s, xs, i) {
            Some(t) => spec_run(t, ys),
            None => None::<MachineState>,
        }),
    decreases xs.len() - i,
{
    if i < xs.len() {
        assert((xs + ys)[i] == xs[i]);
        match spec_step(s, xs[i]) {
            None => {},
            Some(s2) => {
                lemma_run_append_from(s2, xs, ys, i + 1);
            },
        }
    } else {
        lemma_run_from_offset(s, xs, ys, 0);
    }
}

} // verus!
