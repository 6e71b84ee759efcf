//! The assembler: turns lines of assembly text into encoded instructions.
//!
//! A line is a mnemonic followed by its operands, separated by ASCII
//! whitespace. Operands are unsigned decimal numbers: register indices below
//! `NUM_REGS`, immediates that fit in 32 bits, and branch targets.

use vstd::prelude::*;

use crate::isa::{program_valid, registers_valid, EncodedInstruction};
use crate::NUM_REGS;

verus! {

/// ASCII whitespace: space, tab, line feed, vertical tab, form feed and
/// carriage return.
pub open spec fn is_space(b: u8) -> bool {
    b == 32 || (9 <= b && b <= 13)
}

/// The words of `s[i..]`, given the word `cur` being read and the words
/// `acc` already complete.
pub open spec fn words_from(s: Seq<u8>, i: int, cur: Seq<u8>, acc: Seq<Seq<u8>>) -> Seq<Seq<u8>>
    decreases s.len() - i,
{
    if i >= s.len() {
        if cur.len() > 0 {
            acc.push(cur)
        } else {
            acc
        }
    } else if is_space(s[i]) {
        words_from(
            s,
            i + 1,
            Seq::empty(),
            if cur.len() > 0 {
                acc.push(cur)
            } else {
                acc
            },
        )
    } else {
        words_from(s, i + 1, cur.push(s[i]), acc)
    }
}

/// The maximal runs of non-whitespace bytes of `s`, in order.
pub open spec fn words(s: Seq<u8>) -> Seq<Seq<u8>> {
    words_from(s, 0, Seq::empty(), Seq::empty())
}

pub open spec fn is_digit(b: u8) -> bool {
    48 <= b && b <= 57
}

/// The number that the decimal digits `w` spell.
pub open spec fn decimal(w: Seq<u8>) -> int
    decreases w.len(),
{
    if w.len() == 0 {
        0
    } else {
        decimal(w.drop_last()) * 10 + (w.last() - 48)
    }
}

/// `w` is a non-empty run of decimal digits whose value fits in `usize`.
pub open spec fn is_number(w: Seq<u8>) -> bool {
    &&& w.len() > 0
    &&& forall|i: int| 0 <= i < w.len() ==> is_digit(#[trigger] w[i])
    &&& decimal(w) <= usize::MAX
}

/// The instruction names.
#[derive(Clone, Copy, Debug, PartialEq, Eq, Structural)]
pub enum Mnemonic {
    Add,
    Addi,
    And,
    Andi,
    Beq,
    Beqz,
    Bgt,
    Blt,
    Div,
    J,
    Ldc,
    Lw,
    Mod,
    Mov,
    Mult,
    Noop,
    Or,
    Sl,
    Sr,
    Sub,
    Subi,
    Sw,
    Xor,
}

/// How a mnemonic is written.
pub open spec fn spelling(m: Mnemonic) -> Seq<u8> {
    match m {
        Mnemonic::Add => seq![65u8, 68, 68], // ADD
        Mnemonic::Addi => seq![65u8, 68, 68, 73], // ADDI
        Mnemonic::And => seq![65u8, 78, 68], // AND
        Mnemonic::Andi => seq![65u8, 78, 68, 73], // ANDI
        Mnemonic::Beq => seq![66u8, 69, 81], // BEQ
        Mnemonic::Beqz => seq![66u8, 69, 81, 90], // BEQZ
        Mnemonic::Bgt => seq![66u8, 71, 84], // BGT
        Mnemonic::Blt => seq![66u8, 76, 84], // BLT
        Mnemonic::Div => seq![68u8, 73, 86], // DIV
        Mnemonic::J => seq![74u8], // J
        Mnemonic::Ldc => seq![76u8, 68, 67], // LDC
        Mnemonic::Lw => seq![76u8, 87], // LW
        Mnemonic::Mod => seq![77u8, 79, 68], // MOD
        Mnemonic::Mov => seq![77u8, 79, 86], // MOV
        Mnemonic::Mult => seq![77u8, 85, 76, 84], // MULT
        Mnemonic::Noop => seq![78u8, 79, 79, 80], // NOOP
        Mnemonic::Or => seq![79u8, 82], // OR
        Mnemonic::Sl => seq![83u8, 76], // SL
        Mnemonic::Sr => seq![83u8, 82], // SR
        Mnemonic::Sub => seq![83u8, 85, 66], // SUB
        Mnemonic::Subi => seq![83u8, 85, 66, 73], // SUBI
        Mnemonic::Sw => seq![83u8, 87], // SW
        Mnemonic::Xor => seq![88u8, 79, 82], // XOR
    }
}

/// The mnemonic written `w`, if any.
pub open spec fn mnemonic_of(w: Seq<u8>) -> Option<Mnemonic> {
    if w == spelling(Mnemonic::Add) {
        Some(Mnemonic::Add)
    } else if w == spelling(Mnemonic::Addi) {
        Some(Mnemonic::Addi)
    } else if w == spelling(Mnemonic::And) {
        Some(Mnemonic::And)
    } else if w == spelling(Mnemonic::Andi) {
        Some(Mnemonic::Andi)
    } else if w == spelling(Mnemonic::Beq) {
        Some(Mnemonic::Beq)
    } else if w == spelling(Mnemonic::Beqz) {
        Some(Mnemonic::Beqz)
    } else if w == spelling(Mnemonic::Bgt) {
        Some(Mnemonic::Bgt)
    } else if w == spelling(Mnemonic::Blt) {
        Some(Mnemonic::Blt)
    } else if w == spelling(Mnemonic::Div) {
        Some(Mnemonic::Div)
    } else if w == spelling(Mnemonic::J) {
        Some(Mnemonic::J)
    } else if w == spelling(Mnemonic::Ldc) {
        Some(Mnemonic::Ldc)
    } else if w == spelling(Mnemonic::Lw) {
        Some(Mnemonic::Lw)
    } else if w == spelling(Mnemonic::Mod) {
        Some(Mnemonic::Mod)
    } else if w == spelling(Mnemonic::Mov) {
        Some(Mnemonic::Mov)
    } else if w == spelling(Mnemonic::Mult) {
        Some(Mnemonic::Mult)
    } else if w == spelling(Mnemonic::Noop) {
        Some(Mnemonic::Noop)
    } else if w == spelling(Mnemonic::Or) {
        Some(Mnemonic::Or)
    } else if w == spelling(Mnemonic::Sl) {
        Some(Mnemonic::Sl)
    } else if w == spelling(Mnemonic::Sr) {
        Some(Mnemonic::Sr)
    } else if w == spelling(Mnemonic::Sub) {
        Some(Mnemonic::Sub)
    } else if w == spelling(Mnemonic::Subi) {
        Some(Mnemonic::Subi)
    } else if w == spelling(Mnemonic::Sw) {
        Some(Mnemonic::Sw)
    } else if w == spelling(Mnemonic::Xor) {
        Some(Mnemonic::Xor)
    } else {
        None
    }
}

/// Number of operands a mnemonic takes.
pub open spec fn arity(m: Mnemonic) -> nat {
    match m {
        Mnemonic::Add => 3,
        Mnemonic::Addi => 3,
        Mnemonic::And => 3,
        Mnemonic::Andi => 3,
        Mnemonic::Beq => 3,
        Mnemonic::Beqz => 2,
        Mnemonic::Bgt => 3,
        Mnemonic::Blt => 3,
        Mnemonic::Div => 3,
        Mnemonic::J => 1,
        Mnemonic::Ldc => 2,
        Mnemonic::Lw => 2,
        Mnemonic::Mod => 3,
        Mnemonic::Mov => 2,
        Mnemonic::Mult => 3,
        Mnemonic::Noop => 0,
        Mnemonic::Or => 3,
        Mnemonic::Sl => 3,
        Mnemonic::Sr => 3,
        Mnemonic::Sub => 3,
        Mnemonic::Subi => 3,
        Mnemonic::Sw => 2,
        Mnemonic::Xor => 3,
    }
}

/// The instruction `m` with operand values `a`, when the registers are
/// architectural registers and the immediates fit in 32 bits.
pub open spec fn build(m: Mnemonic, a: Seq<usize>) -> Option<EncodedInstruction> {
    match m {
        Mnemonic::Add => if a[0] < NUM_REGS && a[1] < NUM_REGS && a[2] < NUM_REGS {
            Some(EncodedInstruction::Add(a[0], a[1], a[2]))
        } else {
            None
        },
        Mnemonic::Addi => if a[0] < NUM_REGS && a[1] < NUM_REGS && a[2] <= u32::MAX as usize {
            Some(EncodedInstruction::Addi(a[0], a[1], a[2] as u32))
        } else {
            None
        },
        Mnemonic::And => if a[0] < NUM_REGS && a[1] < NUM_REGS && a[2] < NUM_REGS {
            Some(EncodedInstruction::And(a[0], a[1], a[2]))
        } else {
            None
        },
        Mnemonic::Andi => if a[0] < NUM_REGS && a[1] < NUM_REGS && a[2] <= u32::MAX as usize {
            Some(EncodedInstruction::Andi(a[0], a[1], a[2] as u32))
        } else {
            None
        },
        Mnemonic::Beq => if a[0] < NUM_REGS && a[1] < NUM_REGS {
            Some(EncodedInstruction::Beq(a[0], a[1], a[2]))
        } else {
            None
        },
        Mnemonic::Beqz => if a[0] < NUM_REGS {
            Some(EncodedInstruction::Beqz(a[0], a[1]))
        } else {
            None
        },
        Mnemonic::Bgt => if a[0] < NUM_REGS && a[1] < NUM_REGS {
            Some(EncodedInstruction::Bgt(a[0], a[1], a[2]))
        } else {
            None
        },
        Mnemonic::Blt => if a[0] < NUM_REGS && a[1] < NUM_REGS {
            Some(EncodedInstruction::Blt(a[0], a[1], a[2]))
        } else {
            None
        },
        Mnemonic::Div => if a[0] < NUM_REGS && a[1] < NUM_REGS && a[2] < NUM_REGS {
            Some(EncodedInstruction::Div(a[0], a[1], a[2]))
        } else {
            None
        },
        Mnemonic::J => Some(EncodedInstruction::J(a[0])),
        Mnemonic::Ldc => if a[0] < NUM_REGS && a[1] <= u32::MAX as usize {
            Some(EncodedInstruction::Ldc(a[0], a[1] as u32))
        } else {
            None
        },
        Mnemonic::Lw => if a[0] < NUM_REGS && a[1] < NUM_REGS {
            Some(EncodedInstruction::Lw(a[0], a[1]))
        } else {
            None
        },
        Mnemonic::Mod => if a[0] < NUM_REGS && a[1] < NUM_REGS && a[2] < NUM_REGS {
            Some(EncodedInstruction::Mod(a[0], a[1], a[2]))
        } else {
            None
        },
        Mnemonic::Mov => if a[0] < NUM_REGS && a[1] < NUM_REGS {
            Some(EncodedInstruction::Mov(a[0], a[1]))
        } else {
            None
        },
        Mnemonic::Mult => if a[0] < NUM_REGS && a[1] < NUM_REGS && a[2] < NUM_REGS {
            Some(EncodedInstruction::Mult(a[0], a[1], a[2]))
        } else {
            None
        },
        Mnemonic::Noop => Some(EncodedInstruction::Noop),
        Mnemonic::Or => if a[0] < NUM_REGS && a[1] < NUM_REGS && a[2] < NUM_REGS {
            Some(EncodedInstruction::Or(a[0], a[1], a[2]))
        } else {
            None
        },
        Mnemonic::Sl => if a[0] < NUM_REGS && a[1] < NUM_REGS && a[2] <= u32::MAX as usize {
            Some(EncodedInstruction::Sl(a[0], a[1], a[2] as u32))
        } else {
            None
        },
        Mnemonic::Sr => if a[0] < NUM_REGS && a[1] < NUM_REGS && a[2] <= u32::MAX as usize {
            Some(EncodedInstruction::Sr(a[0], a[1], a[2] as u32))
        } else {
            None
        },
        Mnemonic::Sub => if a[0] < NUM_REGS && a[1] < NUM_REGS && a[2] < NUM_REGS {
            Some(EncodedInstruction::Sub(a[0], a[1], a[2]))
        } else {
            None
        },
        Mnemonic::Subi => if a[0] < NUM_REGS && a[1] < NUM_REGS && a[2] <= u32::MAX as usize {
            Some(EncodedInstruction::Subi(a[0], a[1], a[2] as u32))
        } else {
            None
        },
        Mnemonic::Sw => if a[0] < NUM_REGS && a[1] < NUM_REGS {
            Some(EncodedInstruction::Sw(a[0], a[1]))
        } else {
            None
        },
        Mnemonic::Xor => if a[0] < NUM_REGS && a[1] < NUM_REGS && a[2] < NUM_REGS {
            Some(EncodedInstruction::Xor(a[0], a[1], a[2]))
        } else {
            None
        },
    }
}

/// Why a line is not an instruction.
#[derive(Clone, Copy, Debug, PartialEq, Eq, Structural)]
pub enum LineError {
    /// The line holds no word.
    Blank,
    /// The first word is no mnemonic.
    UnknownMnemonic,
    /// The mnemonic has too few or too many operands.
    WrongArity,
    /// An operand is not a decimal number, or is out of range.
    BadOperand,
}

/// The values of the operand words of `ws` (all words but the first).
pub open spec fn operand_values(ws: Seq<Seq<u8>>) -> Seq<usize> {
    ws.skip(1).map_values(|w: Seq<u8>| decimal(w) as usize)
}

/// What the line `line` assembles to.
pub open spec fn parse_line(line: Seq<u8>) -> Result<EncodedInstruction, LineError> {
    let ws = words(line);
    if ws.len() == 0 {
        Err(LineError::Blank)
    } else {
        match mnemonic_of(ws[0]) {
            None => Err(LineError::UnknownMnemonic),
            Some(m) => if ws.len() != arity(m) + 1 {
                Err(LineError::WrongArity)
            } else if !(forall|i: int| 1 <= i < ws.len() ==> is_number(#[trigger] ws[i])) {
                Err(LineError::BadOperand)
            } else {
                match build(m, operand_values(ws)) {
                    Some(inst) => Ok(inst),
                    None => Err(LineError::BadOperand),
                }
            },
        }
    }
}

/// A program line that does not assemble: its index and the reason.
#[derive(Clone, Copy, Debug, PartialEq, Eq, Structural)]
pub struct AsmError {
    pub line: usize,
    pub kind: LineError,
}

/// The byte strings that `ws` holds.
pub open spec fn views(ws: Seq<Vec<u8>>) -> Seq<Seq<u8>> {
    ws.map_values(|w: Vec<u8>| w@)
}

/// Splits `line` into its words.
pub fn split_words(line: &[u8]) -> (r: Vec<Vec<u8>>)
    ensures
        views(r@) == words(line@),
{
    let mut acc: Vec<Vec<u8>> = Vec::new();
    let mut cur: Vec<u8> = Vec::new();
    let mut i: usize = 0;
    proof {
        assert(views(acc@) =~= Seq::<Seq<u8>>::empty());
        assert(cur@ =~= Seq::<u8>::empty());
    }
    while i < line.len()
        invariant
            i <= line@.len(),
            words_from(line@, i as int, cur@, views(acc@)) == words(line@),
        decreases line@.len() - i,
    {
        let b = line[i];
        if b == 32 || (9 <= b && b <= 13) {
            if cur.len() > 0 {
                let ghost before = views(acc@);
                let ghost last = cur@;
                acc.push(cur);
                proof {
                    assert(views(acc@) =~= before.push(last));
                }
                cur = Vec::new();
                proof {
                    assert(cur@ =~= Seq::<u8>::empty());
                }
            } else {
                proof {
                    assert(cur@ =~= Seq::<u8>::empty());
                }
            }
        } else {
            cur.push(b);
        }
        i = i + 1;
    }
    if cur.len() > 0 {
        let ghost before = views(acc@);
        let ghost last = cur@;
        acc.push(cur);
        proof {
            assert(views(acc@) =~= before.push(last));
        }
    }
    acc
}

/// Digits spell a value of at least zero.
proof fn lemma_decimal_nonnegative(w: Seq<u8>)
    requires
        forall|i: int| 0 <= i < w.len() ==> is_digit(#[trigger] w[i]),
    ensures
        decimal(w) >= 0,
    decreases w.len(),
{
    if w.len() > 0 {
        let d = w.drop_last();
        assert forall|i: int| 0 <= i < d.len() implies is_digit(#[trigger] d[i]) by {
            assert(d[i] == w[i]);
        }
        lemma_decimal_nonnegative(d);
    }
}

/// A prefix of a run of digits spells at most the whole run's value.
proof fn lemma_decimal_prefix(w: Seq<u8>, j: int)
    requires
        0 <= j <= w.len(),
        forall|i: int| 0 <= i < w.len() ==> is_digit(#[trigger] w[i]),
    ensures
        decimal(w.subrange(0, j)) <= decimal(w),
    decreases w.len(),
{
    if j < w.len() {
        let d = w.drop_last();
        assert(d.subrange(0, j) =~= w.subrange(0, j));
        assert forall|i: int| 0 <= i < d.len() implies is_digit(#[trigger] d[i]) by {
            assert(d[i] == w[i]);
        }
        lemma_decimal_prefix(d, j);
        lemma_decimal_nonnegative(d);
        if j == d.len() {
            assert(d.subrange(0, j) =~= d);
        }
    } else {
        assert(w.subrange(0, j) =~= w);
    }
}

/// The value of `w` when it is a number (see `is_number`).
pub fn parse_number(w: &Vec<u8>) -> (r: Option<usize>)
    ensures
        r is Some <==> is_number(w@),
        r matches Some(v) ==> v == decimal(w@),
{
    if w.len() == 0 {
        return None;
    }
    let mut v: usize = 0;
    let mut i: usize = 0;
    while i < w.len()
        invariant
            i <= w@.len(),
            w@.len() > 0,
            v == decimal(w@.subrange(0, i as int)),
            forall|j: int| 0 <= j < i ==> is_digit(#[trigger] w@[j]),
        decreases w@.len() - i,
    {
        let b = w[i];
        if !(48 <= b && b <= 57) {
            return None;
        }
        proof {
            assert(w@.subrange(0, i + 1).drop_last() =~= w@.subrange(0, i as int));
        }
        let next = match v.checked_mul(10) {
            Some(t) => t.checked_add((b - 48) as usize),
            None => None,
        };
        match next {
            Some(t) => {
                v = t;
            },
            None => {
                proof {
                    if forall|j: int| 0 <= j < w@.len() ==> is_digit(#[trigger] w@[j]) {
                        lemma_decimal_prefix(w@, i + 1);
                    }
                }
                return None;
            },
        }
        i = i + 1;
    }
    proof {
        assert(w@.subrange(0, w@.len() as int) =~= w@);
    }
    Some(v)
}

/// Whether `w` is exactly `text`.
fn spelled(w: &Vec<u8>, text: &Vec<u8>) -> (r: bool)
    ensures
        r == (w@ == text@),
{
    if w.len() != text.len() {
        return false;
    }
    let mut i: usize = 0;
    while i < w.len()
        invariant
            i <= w@.len(),
            w@.len() == text@.len(),
            forall|j: int| 0 <= j < i ==> w@[j] == text@[j],
        decreases w@.len() - i,
    {
        if w[i] != text[i] {
            return false;
        }
        i = i + 1;
    }
    proof {
        assert(w@ =~= text@);
    }
    true
}

/// How a mnemonic is written.
pub fn spelling_of(m: Mnemonic) -> (r: Vec<u8>)
    ensures
        r@ == spelling(m),
{
    match m {
        Mnemonic::Add => vec![65u8, 68, 68], // ADD
        Mnemonic::Addi => vec![65u8, 68, 68, 73], // ADDI
        Mnemonic::And => vec![65u8, 78, 68], // AND
        Mnemonic::Andi => vec![65u8, 78, 68, 73], // ANDI
        Mnemonic::Beq => vec![66u8, 69, 81], // BEQ
        Mnemonic::Beqz => vec![66u8, 69, 81, 90], // BEQZ
        Mnemonic::Bgt => vec![66u8, 71, 84], // BGT
        Mnemonic::Blt => vec![66u8, 76, 84], // BLT
        Mnemonic::Div => vec![68u8, 73, 86], // DIV
        Mnemonic::J => vec![74u8], // J
        Mnemonic::Ldc => vec![76u8, 68, 67], // LDC
        Mnemonic::Lw => vec![76u8, 87], // LW
        Mnemonic::Mod => vec![77u8, 79, 68], // MOD
        Mnemonic::Mov => vec![77u8, 79, 86], // MOV
        Mnemonic::Mult => vec![77u8, 85, 76, 84], // MULT
        Mnemonic::Noop => vec![78u8, 79, 79, 80], // NOOP
        Mnemonic::Or => vec![79u8, 82], // OR
        Mnemonic::Sl => vec![83u8, 76], // SL
        Mnemonic::Sr => vec![83u8, 82], // SR
        Mnemonic::Sub => vec![83u8, 85, 66], // SUB
        Mnemonic::Subi => vec![83u8, 85, 66, 73], // SUBI
        Mnemonic::Sw => vec![83u8, 87], // SW
        Mnemonic::Xor => vec![88u8, 79, 82], // XOR
    }
}

/// The mnemonic written `w`, if any.
pub fn mnemonic(w: &Vec<u8>) -> (r: Option<Mnemonic>)
    ensures
        r == mnemonic_of(w@),
{
    if spelled(w, &spelling_of(Mnemonic::Add)) {
        Some(Mnemonic::Add)
    } else if spelled(w, &spelling_of(Mnemonic::Addi)) {
        Some(Mnemonic::Addi)
    } else if spelled(w, &spelling_of(Mnemonic::And)) {
        Some(Mnemonic::And)
    } else if spelled(w, &spelling_of(Mnemonic::Andi)) {
        Some(Mnemonic::Andi)
    } else if spelled(w, &spelling_of(Mnemonic::Beq)) {
        Some(Mnemonic::Beq)
    } else if spelled(w, &spelling_of(Mnemonic::Beqz)) {
        Some(Mnemonic::Beqz)
    } else if spelled(w, &spelling_of(Mnemonic::Bgt)) {
        Some(Mnemonic::Bgt)
    } else if spelled(w, &spelling_of(Mnemonic::Blt)) {
        Some(Mnemonic::Blt)
    } else if spelled(w, &spelling_of(Mnemonic::Div)) {
        Some(Mnemonic::Div)
    } else if spelled(w, &spelling_of(Mnemonic::J)) {
        Some(Mnemonic::J)
    } else if spelled(w, &spelling_of(Mnemonic::Ldc)) {
        Some(Mnemonic::Ldc)
    } else if spelled(w, &spelling_of(Mnemonic::Lw)) {
        Some(Mnemonic::Lw)
    } else if spelled(w, &spelling_of(Mnemonic::Mod)) {
        Some(Mnemonic::Mod)
    } else if spelled(w, &spelling_of(Mnemonic::Mov)) {
        Some(Mnemonic::Mov)
    } else if spelled(w, &spelling_of(Mnemonic::Mult)) {
        Some(Mnemonic::Mult)
    } else if spelled(w, &spelling_of(Mnemonic::Noop)) {
        Some(Mnemonic::Noop)
    } else if spelled(w, &spelling_of(Mnemonic::Or)) {
        Some(Mnemonic::Or)
    } else if spelled(w, &spelling_of(Mnemonic::Sl)) {
        Some(Mnemonic::Sl)
    } else if spelled(w, &spelling_of(Mnemonic::Sr)) {
        Some(Mnemonic::Sr)
    } else if spelled(w, &spelling_of(Mnemonic::Sub)) {
        Some(Mnemonic::Sub)
    } else if spelled(w, &spelling_of(Mnemonic::Subi)) {
        Some(Mnemonic::Subi)
    } else if spelled(w, &spelling_of(Mnemonic::Sw)) {
        Some(Mnemonic::Sw)
    } else if spelled(w, &spelling_of(Mnemonic::Xor)) {
        Some(Mnemonic::Xor)
    } else {
        None
    }
}

/// Number of operands a mnemonic takes.
pub fn operand_count(m: Mnemonic) -> (r: usize)
    ensures
        r == arity(m),
{
    match m {
        Mnemonic::Add => 3,
        Mnemonic::Addi => 3,
        Mnemonic::And => 3,
        Mnemonic::Andi => 3,
        Mnemonic::Beq => 3,
        Mnemonic::Beqz => 2,
        Mnemonic::Bgt => 3,
        Mnemonic::Blt => 3,
        Mnemonic::Div => 3,
        Mnemonic::J => 1,
        Mnemonic::Ldc => 2,
        Mnemonic::Lw => 2,
        Mnemonic::Mod => 3,
        Mnemonic::Mov => 2,
        Mnemonic::Mult => 3,
        Mnemonic::Noop => 0,
        Mnemonic::Or => 3,
        Mnemonic::Sl => 3,
        Mnemonic::Sr => 3,
        Mnemonic::Sub => 3,
        Mnemonic::Subi => 3,
        Mnemonic::Sw => 2,
        Mnemonic::Xor => 3,
    }
}

/// The values of three operand words, when all are numbers.
pub fn three_args(inst: &Vec<Vec<u8>>) -> (r: Option<(usize, usize, usize)>)
    requires
        inst@.len() == 4,
    ensures
        r is Some <==> (forall|i: int| 1 <= i < 4 ==> is_number(#[trigger] views(inst@)[i])),
        r matches Some(t) ==> t.0 == decimal(views(inst@)[1]) && t.1 == decimal(
            views(inst@)[2],
        ) && t.2 == decimal(views(inst@)[3]),
{
    let d = parse_number(&inst[1]);
    let s = parse_number(&inst[2]);
    let t = parse_number(&inst[3]);
    match (d, s, t) {
        (Some(d), Some(s), Some(t)) => Some((d, s, t)),
        _ => {
            proof {
                let dv = views(inst@);
                if d is None {
                    assert(!is_number(dv[1]));
                } else if s is None {
                    assert(!is_number(dv[2]));
                } else {
                    assert(!is_number(dv[3]));
                }
            }
            None
        },
    }
}

/// The values of two operand words, when both are numbers.
pub fn two_args(split_inst: &Vec<Vec<u8>>) -> (r: Option<(usize, usize)>)
    requires
        split_inst@.len() == 3,
    ensures
        r is Some <==> (forall|i: int|
            1 <= i < 3 ==> is_number(#[trigger] views(split_inst@)[i])),
        r matches Some(t) ==> t.0 == decimal(views(split_inst@)[1]) && t.1 == decimal(
            views(split_inst@)[2],
        ),
{
    let t = parse_number(&split_inst[1]);
    let s = parse_number(&split_inst[2]);
    match (t, s) {
        (Some(t), Some(s)) => Some((t, s)),
        _ => {
            proof {
                let dv = views(split_inst@);
                if t is None {
                    assert(!is_number(dv[1]));
                } else {
                    assert(!is_number(dv[2]));
                }
            }
            None
        },
    }
}

/// The instruction `m` with operand values `a`; see `build`.
pub fn build_instruction(m: Mnemonic, a: &Vec<usize>) -> (r: Option<EncodedInstruction>)
    requires
        a@.len() == arity(m),
    ensures
        r == build(m, a@),
{
    match m {
        Mnemonic::Add => if a[0] < NUM_REGS && a[1] < NUM_REGS && a[2] < NUM_REGS {
            Some(EncodedInstruction::Add(a[0], a[1], a[2]))
        } else {
            None
        },
        Mnemonic::Addi => if a[0] < NUM_REGS && a[1] < NUM_REGS && a[2] <= u32::MAX as usize {
            Some(EncodedInstruction::Addi(a[0], a[1], a[2] as u32))
        } else {
            None
        },
        Mnemonic::And => if a[0] < NUM_REGS && a[1] < NUM_REGS && a[2] < NUM_REGS {
            Some(EncodedInstruction::And(a[0], a[1], a[2]))
        } else {
            None
        },
        Mnemonic::Andi => if a[0] < NUM_REGS && a[1] < NUM_REGS && a[2] <= u32::MAX as usize {
            Some(EncodedInstruction::Andi(a[0], a[1], a[2] as u32))
        } else {
            None
        },
        Mnemonic::Beq => if a[0] < NUM_REGS && a[1] < NUM_REGS {
            Some(EncodedInstruction::Beq(a[0], a[1], a[2]))
        } else {
            None
        },
        Mnemonic::Beqz => if a[0] < NUM_REGS {
            Some(EncodedInstruction::Beqz(a[0], a[1]))
        } else {
            None
        },
        Mnemonic::Bgt => if a[0] < NUM_REGS && a[1] < NUM_REGS {
            Some(EncodedInstruction::Bgt(a[0], a[1], a[2]))
        } else {
            None
        },
        Mnemonic::Blt => if a[0] < NUM_REGS && a[1] < NUM_REGS {
            Some(EncodedInstruction::Blt(a[0], a[1], a[2]))
        } else {
            None
        },
        Mnemonic::Div => if a[0] < NUM_REGS && a[1] < NUM_REGS && a[2] < NUM_REGS {
            Some(EncodedInstruction::Div(a[0], a[1], a[2]))
        } else {
            None
        },
        Mnemonic::J => Some(EncodedInstruction::J(a[0])),
        Mnemonic::Ldc => if a[0] < NUM_REGS && a[1] <= u32::MAX as usize {
            Some(EncodedInstruction::Ldc(a[0], a[1] as u32))
        } else {
            None
        },
        Mnemonic::Lw => if a[0] < NUM_REGS && a[1] < NUM_REGS {
            Some(EncodedInstruction::Lw(a[0], a[1]))
        } else {
            None
        },
        Mnemonic::Mod => if a[0] < NUM_REGS && a[1] < NUM_REGS && a[2] < NUM_REGS {
            Some(EncodedInstruction::Mod(a[0], a[1], a[2]))
        } else {
            None
        },
        Mnemonic::Mov => if a[0] < NUM_REGS && a[1] < NUM_REGS {
            Some(EncodedInstruction::Mov(a[0], a[1]))
        } else {
            None
        },
        Mnemonic::Mult => if a[0] < NUM_REGS && a[1] < NUM_REGS && a[2] < NUM_REGS {
            Some(EncodedInstruction::Mult(a[0], a[1], a[2]))
        } else {
            None
        },
        Mnemonic::Noop => Some(EncodedInstruction::Noop),
        Mnemonic::Or => if a[0] < NUM_REGS && a[1] < NUM_REGS && a[2] < NUM_REGS {
            Some(EncodedInstruction::Or(a[0], a[1], a[2]))
        } else {
            None
        },
        Mnemonic::Sl => if a[0] < NUM_REGS && a[1] < NUM_REGS && a[2] <= u32::MAX as usize {
            Some(EncodedInstruction::Sl(a[0], a[1], a[2] as u32))
        } else {
            None
        },
        Mnemonic::Sr => if a[0] < NUM_REGS && a[1] < NUM_REGS && a[2] <= u32::MAX as usize {
            Some(EncodedInstruction::Sr(a[0], a[1], a[2] as u32))
        } else {
            None
        },
        Mnemonic::Sub => if a[0] < NUM_REGS && a[1] < NUM_REGS && a[2] < NUM_REGS {
            Some(EncodedInstruction::Sub(a[0], a[1], a[2]))
        } else {
            None
        },
        Mnemonic::Subi => if a[0] < NUM_REGS && a[1] < NUM_REGS && a[2] <= u32::MAX as usize {
            Some(EncodedInstruction::Subi(a[0], a[1], a[2] as u32))
        } else {
            None
        },
        Mnemonic::Sw => if a[0] < NUM_REGS && a[1] < NUM_REGS {
            Some(EncodedInstruction::Sw(a[0], a[1]))
        } else {
            None
        },
        Mnemonic::Xor => if a[0] < NUM_REGS && a[1] < NUM_REGS && a[2] < NUM_REGS {
            Some(EncodedInstruction::Xor(a[0], a[1], a[2]))
        } else {
            None
        },
    }
}

/// An instruction built from operands names architectural registers only.
proof fn lemma_build_valid(m: Mnemonic, a: Seq<usize>)
    requires
        build(m, a) is Some,
    ensures
        registers_valid(build(m, a)->0),
{
}

/// Assembles one line.
pub fn assemble_line(line: &[u8]) -> (r: Result<EncodedInstruction, LineError>)
    ensures
        r == parse_line(line@),
        r matches Ok(inst) ==> registers_valid(inst),
{
    let ws = split_words(line);
    let ghost wv = views(ws@);
    if ws.len() == 0 {
        return Err(LineError::Blank);
    }
    let m = match mnemonic(&ws[0]) {
        None => {
            return Err(LineError::UnknownMnemonic);
        },
        Some(m) => m,
    };
    proof {
        assert(wv[0] == ws@[0]@);
    }
    if ws.len() != operand_count(m) + 1 {
        return Err(LineError::WrongArity);
    }
    let count = operand_count(m);
    let parsed: Option<Vec<usize>> = if count == 0 {
        Some(Vec::new())
    } else if count == 1 {
        match parse_number(&ws[1]) {
            Some(t) => Some(vec![t]),
            None => None,
        }
    } else if count == 2 {
        match two_args(&ws) {
            Some((a, b)) => Some(vec![a, b]),
            None => None,
        }
    } else {
        match three_args(&ws) {
            Some((a, b, c)) => Some(vec![a, b, c]),
            None => None,
        }
    };
    let vals = match parsed {
        Some(v) => v,
        None => {
            proof {
                if count == 1 {
                    assert(wv[1] == ws@[1]@);
                    assert(!is_number(wv[1]));
                }
            }
            return Err(LineError::BadOperand);
        },
    };
    proof {
        assert(vals@ =~= operand_values(wv));
        assert forall|j: int| 1 <= j < wv.len() implies is_number(#[trigger] wv[j]) by {
            if count == 1 {
                assert(wv[1] == ws@[1]@);
            }
        }
    }
    let built = build_instruction(m, &vals);
    proof {
        if built is Some {
            lemma_build_valid(m, vals@);
        }
    }
    match built {
        Some(inst) => Ok(inst),
        None => Err(LineError::BadOperand),
    }
}

/// The bytes of a program line.
pub open spec fn line_bytes(s: String) -> Seq<u8> {
    vstd::utf8::encode_utf8(s@)
}

/// Assembles a program, one instruction per line. Fails with the first
/// line that does not assemble.
pub fn assemble(assembly: Vec<String>) -> (r: Result<Vec<EncodedInstruction>, AsmError>)
    ensures
        r is Ok <==> forall|i: int|
            0 <= i < assembly@.len() ==> (#[trigger] parse_line(line_bytes(assembly@[i]))) is Ok,
        r matches Ok(v) ==> {
            &&& v@.len() == assembly@.len()
            &&& forall|i: int|
                0 <= i < assembly@.len() ==> parse_line(line_bytes(assembly@[i])) == Ok::<
                    EncodedInstruction,
                    LineError,
                >(#[trigger] v@[i])
            &&& program_valid(v@)
        },
        r matches Err(e) ==> {
            &&& e.line < assembly@.len()
            &&& parse_line(line_bytes(assembly@[e.line as int])) == Err::<
                EncodedInstruction,
                LineError,
            >(e.kind)
            &&& forall|j: int|
                0 <= j < e.line ==> (#[trigger] parse_line(line_bytes(assembly@[j]))) is Ok
        },
{
    let mut instructions: Vec<EncodedInstruction> = Vec::new();
    let mut i: usize = 0;
    while i < assembly.len()
        invariant
            i <= assembly@.len(),
            instructions@.len() == i,
            forall|j: int|
                0 <= j < i ==> parse_line(line_bytes(assembly@[j])) == Ok::<
                    EncodedInstruction,
                    LineError,
                >(#[trigger] instructions@[j]),
            program_valid(instructions@),
        decreases assembly@.len() - i,
    {
        let bytes = assembly[i].as_str().as_bytes();
        proof {
            assert(bytes@ == line_bytes(assembly@[i as int]));
            assert forall|j: int| 0 <= j < i implies (#[trigger] parse_line(
                line_bytes(assembly@[j]),
            )) is Ok by {
                assert(parse_line(line_bytes(assembly@[j])) == Ok::<EncodedInstruction, LineError>(
                    instructions@[j],
                ));
            }
        }
        match assemble_line(bytes) {
            Ok(inst) => {
                instructions.push(inst);
            },
            Err(kind) => {
                return Err(AsmError { line: i, kind });
            },
        }
        i = i + 1;
    }
    proof {
        assert forall|j: int| 0 <= j < assembly@.len() implies (#[trigger] parse_line(
            line_bytes(assembly@[j]),
        )) is Ok by {
            assert(parse_line(line_bytes(assembly@[j])) == Ok::<EncodedInstruction, LineError>(
                instructions@[j],
            ));
        }
    }
    Ok(instructions)
}

} // verus!
