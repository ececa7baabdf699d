//! The VM translator's driver: cleans command lines, classifies them, pulls
//! their arguments apart, and hands each command to the code writer, in
//! source order.
use vstd::prelude::*;

use crate::code_writer::{
    spec_push_pop, spec_write_arith, CodeWriter, ComparisonCounts, VmError,
};
use crate::text::{clean_line, spec_clean_line, spec_token_n, str_eq, token_n};

verus! {

/// The three command shapes of the stack-machine language.
#[derive(Clone, Copy, Debug, PartialEq, Eq, Structural)]
pub enum InstructionType {
    Arithmetic,
    Push,
    Pop,
}

/// A command's shape, read off its first token.
pub open spec fn spec_command_type(s: Seq<char>) -> InstructionType {
    let t0 = spec_token_n(s, 0, 0);
    if t0 == "push"@ {
        InstructionType::Push
    } else if t0 == "pop"@ {
        InstructionType::Pop
    } else {
        InstructionType::Arithmetic
    }
}

/// The first or second argument of a command: arithmetic commands are their
/// own single argument; push/pop take the segment and index tokens.
pub open spec fn spec_arg_n(s: Seq<char>, ty: InstructionType, first_arg: bool) -> Seq<char> {
    if ty == InstructionType::Arithmetic {
        if first_arg {
            s
        } else {
            Seq::empty()
        }
    } else {
        spec_token_n(s, 0, if first_arg {
            1nat
        } else {
            2nat
        })
    }
}

/// A fault, with the offending line and its 1-based number.
pub struct VmFault {
    pub kind: VmError,
    pub line_number: int,
    pub line: Seq<char>,
}

/// A translation error, carrying the offending line's text and its 1-based
/// number.
#[derive(Clone, Debug)]
pub struct TranslateError {
    pub kind: VmError,
    pub line_number: usize,
    pub line: String,
}

impl View for TranslateError {
    type V = VmFault;

    open spec fn view(&self) -> VmFault {
        VmFault { kind: self.kind, line_number: self.line_number as int, line: self.line@ }
    }
}

/// What one raw source line contributes: nothing when blank after cleaning,
/// otherwise the fragment of its command and the counters afterwards.
pub open spec fn spec_translate_line(w: ComparisonCounts, raw: Seq<char>) -> Result<
    (Seq<char>, ComparisonCounts),
    VmError,
> {
    let line = spec_clean_line(raw);
    if line.len() == 0 {
        Ok((Seq::empty(), w))
    } else {
        let ty = spec_command_type(line);
        if ty == InstructionType::Arithmetic {
            spec_write_arith(w, spec_arg_n(line, ty, true))
        } else {
            match spec_push_pop(spec_arg_n(line, ty, true), spec_arg_n(line, ty, false), ty) {
                Ok(t) => Ok((t, w)),
                Err(e) => Err(e),
            }
        }
    }
}

/// The whole translation of the first `n` lines: the concatenated fragments
/// in source order and the final counters, or the first fault.
pub open spec fn spec_translate_upto(
    lines: Seq<Seq<char>>,
    w0: ComparisonCounts,
    n: int,
) -> Result<(Seq<char>, ComparisonCounts), VmFault>
    decreases n,
{
    if n <= 0 {
        Ok((Seq::empty(), w0))
    } else {
        match spec_translate_upto(lines, w0, n - 1) {
            Err(f) => Err(f),
            Ok((acc, w)) => match spec_translate_line(w, lines[n - 1]) {
                Ok((t, w2)) => Ok((acc + t, w2)),
                Err(k) => Err(VmFault { kind: k, line_number: n, line: lines[n - 1] }),
            },
        }
    }
}

/// Once the fold has faulted, every longer prefix reports the same fault.
proof fn lemma_translate_err_stable(
    lines: Seq<Seq<char>>,
    w0: ComparisonCounts,
    n: int,
    m: int,
)
    requires
        0 <= n <= m,
        spec_translate_upto(lines, w0, n) is Err,
    ensures
        spec_translate_upto(lines, w0, m) == spec_translate_upto(lines, w0, n),
    decreases m,
{
    if m > n {
        lemma_translate_err_stable(lines, w0, n, m - 1);
    }
}

/// The VM translator: the command lines it was given and the code writer
/// whose counters thread through the run.
pub struct Parser {
    pub lines: Vec<String>,
    pub writer: CodeWriter,
}

impl Parser {
    /// A translator over the given cleaned-or-raw command lines.
    pub fn new(lines: Vec<String>, writer: CodeWriter) -> (r: Self)
        ensures
            r.lines == lines,
            r.writer == writer,
    {
        Parser { lines, writer }
    }

    /// The line with any `//` comment removed and surrounding blanks trimmed.
    pub fn clean_line(&self, line: &str) -> (r: String)
        ensures
            r@ == spec_clean_line(line@),
    {
        clean_line(line)
    }

    /// Classifies one cleaned command line by its first token.
    pub fn command_type(&self, instruction: &str) -> (r: InstructionType)
        ensures
            r == spec_command_type(instruction@),
    {
        let t0 = token_n(instruction, 0, 0);
        if str_eq(t0.as_str(), "push") {
            InstructionType::Push
        } else if str_eq(t0.as_str(), "pop") {
            InstructionType::Pop
        } else {
            InstructionType::Arithmetic
        }
    }

    /// The command's first or second argument, as `spec_arg_n` lays it out.
    pub fn arg_n(&self, instruction: &str, instruction_type: &InstructionType, first_arg: bool)
        -> (r: String)
        ensures
            r@ == spec_arg_n(instruction@, *instruction_type, first_arg),
    {
        if matches!(instruction_type, InstructionType::Arithmetic) {
            if first_arg {
                return String::from_str(instruction);
            }
            return String::new();
        }
        if first_arg {
            token_n(instruction, 0, 1)
        } else {
            token_n(instruction, 0, 2)
        }
    }

    /// Translates every line in order, concatenating the fragments; the first
    /// failing line aborts the run with its text and 1-based number.
    pub fn parse(&mut self) -> (r: Result<String, TranslateError>)
        requires
            old(self).writer.command_counts.eq + old(self).lines@.len() < u64::MAX,
            old(self).writer.command_counts.lt + old(self).lines@.len() < u64::MAX,
            old(self).writer.command_counts.gt + old(self).lines@.len() < u64::MAX,
        ensures
            final (self).lines == old(self).lines,
            match r {
                Ok(out) => spec_translate_upto(
                    old(self).lines@.map_values(|l: String| l@),
                    old(self).writer.command_counts,
                    old(self).lines@.len() as int,
                ) == Ok::<(Seq<char>, ComparisonCounts), VmFault>(
                    (out@, final (self).writer.command_counts),
                ),
                Err(e) => spec_translate_upto(
                    old(self).lines@.map_values(|l: String| l@),
                    old(self).writer.command_counts,
                    old(self).lines@.len() as int,
                ) == Err::<(Seq<char>, ComparisonCounts), VmFault>(e@),
            },
    {
        let ghost lines_v = self.lines@.map_values(|l: String| l@);
        let ghost w0 = self.writer.command_counts;
        let mut out = String::new();
        let n = self.lines.len();
        let mut i: usize = 0;
        while i < n
            invariant
                n == self.lines@.len(),
                self.lines == old(self).lines,
                i <= n,
                lines_v == self.lines@.map_values(|l: String| l@),
                w0 == old(self).writer.command_counts,
                w0.eq + n < u64::MAX,
                w0.lt + n < u64::MAX,
                w0.gt + n < u64::MAX,
                self.writer.command_counts.eq <= w0.eq + i,
                self.writer.command_counts.lt <= w0.lt + i,
                self.writer.command_counts.gt <= w0.gt + i,
                spec_translate_upto(lines_v, w0, i as int) == Ok::<
                    (Seq<char>, ComparisonCounts),
                    VmFault,
                >((out@, self.writer.command_counts)),
            decreases n - i,
        {
            proof {
                assert(lines_v[i as int] == self.lines@[i as int]@);
            }
            let cur = clean_line(self.lines[i].as_str());
            if cur.as_str().unicode_len() == 0 {
                proof {
                    assert(out@ + Seq::<char>::empty() =~= out@);
                }
                i = i + 1;
                continue ;
            }
            let ty = self.command_type(cur.as_str());
            let a1 = self.arg_n(cur.as_str(), &ty, true);
            let a2 = self.arg_n(cur.as_str(), &ty, false);
            let ghost w_before = self.writer.command_counts;
            let res = if matches!(ty, InstructionType::Arithmetic) {
                self.writer.write_arithmetic_or_logical(a1.as_str())
            } else {
                self.writer.write_push_pop(a1.as_str(), a2.as_str(), ty)
            };
            match res {
                Ok(frag) => {
                    proof {
                        assert(spec_translate_line(w_before, lines_v[i as int]) == Ok::<
                            (Seq<char>, ComparisonCounts),
                            VmError,
                        >((frag@, self.writer.command_counts)));
                    }
                    out.append(frag.as_str());
                    i = i + 1;
                },
                Err(k) => {
                    let e = TranslateError {
                        kind: k,
                        line_number: i + 1,
                        line: self.lines[i].clone(),
                    };
                    proof {
                        assert(spec_translate_line(w_before, lines_v[i as int]) == Err::<
                            (Seq<char>, ComparisonCounts),
                            VmError,
                        >(k));
                        assert(spec_translate_upto(lines_v, w0, i + 1) == Err::<
                            (Seq<char>, ComparisonCounts),
                            VmFault,
                        >(e@));
                        lemma_translate_err_stable(lines_v, w0, i + 1, n as int);
                    }
                    return Err(e);
                },
            }
        }
        Ok(out)
    }
}

} // verus!
