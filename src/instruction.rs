use vstd::prelude::*;

verus! {

/// A 12-bit memory address carried by an instruction.
pub type Address = u16;

/// The index of one of the sixteen general registers V0..VF.
pub type Register = u8;

/// One decoded machine instruction, with its operands.
#[derive(Debug, Clone, Copy, PartialEq, Eq, Structural)]
pub enum Instruction {
    SYS(Address),
    CLS(),
    RET(),
    JMP(Address),
    CALL(Address),
    SEQB(Register, u8),
    SNEQB(Register, u8),
    SRER(Register, Register),
    LBR(Register, u8),
    ABR(Register, u8),
    LRR(Register, Register),
    OR(Register, Register),
    AND(Register, Register),
    XOR(Register, Register),
    ADD(Register, Register),
    SUB(Register, Register),
    SHR(Register),
    SUBN(Register, Register),
    SHL(Register),
    SNE(Register, Register),
    LDI(Address),
    JPV0(Address),
    RND(Register, u8),
    DRW(Register, Register, u8),
    SKP(Register),
    SKNP(Register),
    LDDV(Register),
    LDK(Register),
    LDVD(Register),
    LDST(Register),
    ADDI(Register),
    LDS(Register),
    BCD(Register),
    SR(Register),
    LR(Register),
}

pub open spec fn is_reg(r: u8) -> bool {
    r < 16
}

pub open spec fn is_addr(a: u16) -> bool {
    a < 0x1000
}

impl Instruction {
    /// Operands are in range: registers below 16, addresses below 0x1000,
    /// sprite heights below 16.
    pub open spec fn wf(self) -> bool {
        match self {
            Instruction::SYS(a) => is_addr(a),
            Instruction::CLS() => true,
            Instruction::RET() => true,
            Instruction::JMP(a) => is_addr(a),
            Instruction::CALL(a) => is_addr(a),
            Instruction::SEQB(x, _) => is_reg(x),
            Instruction::SNEQB(x, _) => is_reg(x),
            Instruction::SRER(x, y) => is_reg(x) && is_reg(y),
            Instruction::LBR(x, _) => is_reg(x),
            Instruction::ABR(x, _) => is_reg(x),
            Instruction::LRR(x, y) => is_reg(x) && is_reg(y),
            Instruction::OR(x, y) => is_reg(x) && is_reg(y),
            Instruction::AND(x, y) => is_reg(x) && is_reg(y),
            Instruction::XOR(x, y) => is_reg(x) && is_reg(y),
            Instruction::ADD(x, y) => is_reg(x) && is_reg(y),
            Instruction::SUB(x, y) => is_reg(x) && is_reg(y),
            Instruction::SHR(x) => is_reg(x),
            Instruction::SUBN(x, y) => is_reg(x) && is_reg(y),
            Instruction::SHL(x) => is_reg(x),
            Instruction::SNE(x, y) => is_reg(x) && is_reg(y),
            Instruction::LDI(a) => is_addr(a),
            Instruction::JPV0(a) => is_addr(a),
            Instruction::RND(x, _) => is_reg(x),
            Instruction::DRW(x, y, n) => is_reg(x) && is_reg(y) && n < 16,
            Instruction::SKP(x) => is_reg(x),
            Instruction::SKNP(x) => is_reg(x),
            Instruction::LDDV(x) => is_reg(x),
            Instruction::LDK(x) => is_reg(x),
            Instruction::LDVD(x) => is_reg(x),
            Instruction::LDST(x) => is_reg(x),
            Instruction::ADDI(x) => is_reg(x),
            Instruction::LDS(x) => is_reg(x),
            Instruction::BCD(x) => is_reg(x),
            Instruction::SR(x) => is_reg(x),
            Instruction::LR(x) => is_reg(x),
        }
    }
}

/// Bits 15..12 of an opcode: the instruction family.
pub open spec fn op_family(op: u16) -> u8 {
    (op / 0x1000) as u8
}

/// Bits 11..0 of an opcode: a 12-bit address.
pub open spec fn op_nnn(op: u16) -> u16 {
    op % 0x1000
}

/// Bits 3..0 of an opcode.
pub open spec fn op_n(op: u16) -> u8 {
    (op % 0x10) as u8
}

/// Bits 11..8 of an opcode: the first register index.
pub open spec fn op_x(op: u16) -> u8 {
    (op / 0x100 % 0x10) as u8
}

/// Bits 7..4 of an opcode: the second register index.
pub open spec fn op_y(op: u16) -> u8 {
    (op / 0x10 % 0x10) as u8
}

/// Bits 7..0 of an opcode: an immediate byte.
pub open spec fn op_kk(op: u16) -> u8 {
    (op % 0x100) as u8
}

/// The instruction that an opcode word stands for, or `None` where no
/// family and subcode pair matches.
pub open spec fn decode(op: u16) -> Option<Instruction> {
    let (nnn, n, x, y, kk) = (op_nnn(op), op_n(op), op_x(op), op_y(op), op_kk(op));
    match op_family(op) {
        0x0 => if kk == 0xE0 {
            Some(Instruction::CLS())
        } else if kk == 0xEE {
            Some(Instruction::RET())
        } else {
            None
        },
        0x1 => Some(Instruction::JMP(nnn)),
        0x2 => Some(Instruction::CALL(nnn)),
        0x3 => Some(Instruction::SEQB(x, kk)),
        0x4 => Some(Instruction::SNEQB(x, kk)),
        0x5 => Some(Instruction::SRER(x, y)),
        0x6 => Some(Instruction::LBR(x, kk)),
        0x7 => Some(Instruction::ABR(x, kk)),
        0x8 => if n == 0x0 {
            Some(Instruction::LRR(x, y))
        } else if n == 0x1 {
            Some(Instruction::OR(x, y))
        } else if n == 0x2 {
            Some(Instruction::AND(x, y))
        } else if n == 0x3 {
            Some(Instruction::XOR(x, y))
        } else if n == 0x4 {
            Some(Instruction::ADD(x, y))
        } else if n == 0x5 {
            Some(Instruction::SUB(x, y))
        } else if n == 0x6 {
            Some(Instruction::SHR(x))
        } else if n == 0x7 {
            Some(Instruction::SUBN(x, y))
        } else if n == 0xE {
            Some(Instruction::SHL(x))
        } else {
            None
        },
        0x9 => Some(Instruction::SNE(x, y)),
        0xA => Some(Instruction::LDI(nnn)),
        0xB => Some(Instruction::JPV0(nnn)),
        0xC => Some(Instruction::RND(x, kk)),
        0xD => Some(Instruction::DRW(x, y, n)),
        0xE => if kk == 0x9E {
            Some(Instruction::SKP(x))
        } else if kk == 0xA1 {
            Some(Instruction::SKNP(x))
        } else {
            None
        },
        _ => if kk == 0x07 {
            Some(Instruction::LDDV(x))
        } else if kk == 0x0A {
            Some(Instruction::LDK(x))
        } else if kk == 0x15 {
            Some(Instruction::LDVD(x))
        } else if kk == 0x18 {
            Some(Instruction::LDST(x))
        } else if kk == 0x1E {
            Some(Instruction::ADDI(x))
        } else if kk == 0x29 {
            Some(Instruction::LDS(x))
        } else if kk == 0x33 {
            Some(Instruction::BCD(x))
        } else if kk == 0x55 {
            Some(Instruction::SR(x))
        } else if kk == 0x65 {
            Some(Instruction::LR(x))
        } else {
            None
        },
    }
}

/// Wildcard digit in an opcode pattern.
pub open spec fn any_digit() -> int {
    -1
}

/// Hex digit `k` of an opcode, counted from the most significant.
pub open spec fn digit(op: u16, k: int) -> int {
    if k == 0 {
        op_family(op) as int
    } else if k == 1 {
        op_x(op) as int
    } else if k == 2 {
        op_y(op) as int
    } else {
        op_n(op) as int
    }
}

/// The documented opcode patterns, one hex digit or wildcard per nibble.
pub open spec fn documented_patterns() -> Seq<Seq<int>> {
    let ANY = any_digit();
    seq![
        seq![0x0, ANY, 0xE, 0x0],
        seq![0x0, ANY, 0xE, 0xE],
        seq![0x1, ANY, ANY, ANY],
        seq![0x2, ANY, ANY, ANY],
        seq![0x3, ANY, ANY, ANY],
        seq![0x4, ANY, ANY, ANY],
        seq![0x5, ANY, ANY, ANY],
        seq![0x6, ANY, ANY, ANY],
        seq![0x7, ANY, ANY, ANY],
        seq![0x8, ANY, ANY, 0x0],
        seq![0x8, ANY, ANY, 0x1],
        seq![0x8, ANY, ANY, 0x2],
        seq![0x8, ANY, ANY, 0x3],
        seq![0x8, ANY, ANY, 0x4],
        seq![0x8, ANY, ANY, 0x5],
        seq![0x8, ANY, ANY, 0x6],
        seq![0x8, ANY, ANY, 0x7],
        seq![0x8, ANY, ANY, 0xE],
        seq![0x9, ANY, ANY, ANY],
        seq![0xA, ANY, ANY, ANY],
        seq![0xB, ANY, ANY, ANY],
        seq![0xC, ANY, ANY, ANY],
        seq![0xD, ANY, ANY, ANY],
        seq![0xE, ANY, 0x9, 0xE],
        seq![0xE, ANY, 0xA, 0x1],
        seq![0xF, ANY, 0x0, 0x7],
        seq![0xF, ANY, 0x0, 0xA],
        seq![0xF, ANY, 0x1, 0x5],
        seq![0xF, ANY, 0x1, 0x8],
        seq![0xF, ANY, 0x1, 0xE],
        seq![0xF, ANY, 0x2, 0x9],
        seq![0xF, ANY, 0x3, 0x3],
        seq![0xF, ANY, 0x5, 0x5],
        seq![0xF, ANY, 0x6, 0x5],
    ]
}

/// Whether `op` fits `pattern`.
pub open spec fn fits(op: u16, pattern: Seq<int>) -> bool {
    forall|k: int| 0 <= k < 4 ==> pattern[k] == any_digit() || pattern[k] == #[trigger] digit(op, k)
}

/// Whether `op` fits one of the patterns from the `k`-th on.
pub open spec fn fits_from(op: u16, k: int) -> bool
    decreases documented_patterns().len() - k,
{
    if k < 0 || k >= documented_patterns().len() {
        false
    } else {
        fits(op, documented_patterns()[k]) || fits_from(op, k + 1)
    }
}

/// Whether `op` is a documented opcode.
pub open spec fn documented(op: u16) -> bool {
    fits_from(op, 0)
}

/// Every documented opcode decodes to an instruction with operands in range,
/// and every other opcode fails to decode.
pub proof fn lemma_decode_total(op: u16)
    ensures
        decode(op) is Some <==> documented(op),
        decode(op) matches Some(ins) ==> ins.wf(),
{
    reveal_with_fuel(fits_from, 35);
    let (f, x, y, n) = (op_family(op), op_x(op), op_y(op), op_n(op));
    assert(op_kk(op) == y * 16 + n);
    assert(f < 16 && x < 16 && y < 16 && n < 16);
    assert(digit(op, 0) == f && digit(op, 1) == x && digit(op, 2) == y && digit(op, 3) == n);
    assert(op_nnn(op) < 0x1000);
}

/// A raw 16-bit instruction word, high byte first in memory.
#[derive(Debug)]
pub struct OpCodeInstruction {
    value: u16,
}

impl OpCodeInstruction {
    pub closed spec fn word(&self) -> u16 {
        self.value
    }

    pub fn new(value: u16) -> (r: OpCodeInstruction)
        ensures
            r.word() == value,
    {
        OpCodeInstruction { value }
    }

    /// Decodes the word; `None` where it is no instruction.
    pub fn process_opcode(&self) -> (r: Option<Instruction>)
        ensures
            r == decode(self.word()),
            r matches Some(ins) ==> ins.wf(),
    {
        let nnn = self.nnn();
        let n = self.n();
        let x = self.x();
        let y = self.y();
        let kk = self.kk();

        match self.i() {
            0x0 => {
                if kk == 0xE0 {
                    Some(Instruction::CLS())
                } else if kk == 0xEE {
                    Some(Instruction::RET())
                } else {
                    None
                }
            },
            0x1 => Some(Instruction::JMP(nnn)),
            0x2 => Some(Instruction::CALL(nnn)),
            0x3 => Some(Instruction::SEQB(x, kk)),
            0x4 => Some(Instruction::SNEQB(x, kk)),
            0x5 => Some(Instruction::SRER(x, y)),
            0x6 => Some(Instruction::LBR(x, kk)),
            0x7 => Some(Instruction::ABR(x, kk)),
            0x8 => {
                match n {
                    0x0 => Some(Instruction::LRR(x, y)),
                    0x1 => Some(Instruction::OR(x, y)),
                    0x2 => Some(Instruction::AND(x, y)),
                    0x3 => Some(Instruction::XOR(x, y)),
                    0x4 => Some(Instruction::ADD(x, y)),
                    0x5 => Some(Instruction::SUB(x, y)),
                    0x6 => Some(Instruction::SHR(x)),
                    0x7 => Some(Instruction::SUBN(x, y)),
                    0xE => Some(Instruction::SHL(x)),
                    _ => None,
                }
            },
            0x9 => Some(Instruction::SNE(x, y)),
            0xA => Some(Instruction::LDI(nnn)),
            0xB => Some(Instruction::JPV0(nnn)),
            0xC => Some(Instruction::RND(x, kk)),
            0xD => Some(Instruction::DRW(x, y, n)),
            0xE => {
                match kk {
                    0x9E => Some(Instruction::SKP(x)),
                    0xA1 => Some(Instruction::SKNP(x)),
                    _ => None,
                }
            },
            _ => {
                match kk {
                    0x07 => Some(Instruction::LDDV(x)),
                    0x0A => Some(Instruction::LDK(x)),
                    0x15 => Some(Instruction::LDVD(x)),
                    0x18 => Some(Instruction::LDST(x)),
                    0x1E => Some(Instruction::ADDI(x)),
                    0x29 => Some(Instruction::LDS(x)),
                    0x33 => Some(Instruction::BCD(x)),
                    0x55 => Some(Instruction::SR(x)),
                    0x65 => Some(Instruction::LR(x)),
                    _ => None,
                }
            },
        }
    }

    /// The family nibble, bits 15..12.
    pub fn i(&self) -> (r: u8)
        ensures
            r == op_family(self.word()),
            r < 16,
    {
        let v = self.value;
        assert((v & 0xF000) >> 12 == v / 0x1000) by (bit_vector);
        ((self.value & 0xF000) >> 12) as u8
    }

    /// The address field, bits 11..0.
    pub fn nnn(&self) -> (r: u16)
        ensures
            r == op_nnn(self.word()),
    {
        let v = self.value;
        assert(v & 0x0FFF == v % 0x1000) by (bit_vector);
        self.value & 0x0FFF
    }

    /// The low nibble, bits 3..0.
    pub fn n(&self) -> (r: u8)
        ensures
            r == op_n(self.word()),
    {
        let v = self.value;
        assert(v & 0x000F == v % 0x10) by (bit_vector);
        (self.value & 0x000F) as u8
    }

    /// The first register index, bits 11..8.
    pub fn x(&self) -> (r: u8)
        ensures
            r == op_x(self.word()),
    {
        let v = self.value;
        assert((v & 0x0F00) >> 8 == v / 0x100 % 0x10) by (bit_vector);
        ((self.value & 0x0F00) >> 8) as u8
    }

    /// The second register index, bits 7..4.
    pub fn y(&self) -> (r: u8)
        ensures
            r == op_y(self.word()),
    {
        let v = self.value;
        assert((v & 0x00F0) >> 4 == v / 0x10 % 0x10) by (bit_vector);
        ((self.value & 0x00F0) >> 4) as u8
    }

    /// The immediate byte, bits 7..0.
    pub fn kk(&self) -> (r: u8)
        ensures
            r == op_kk(self.word()),
    {
        let v = self.value;
        assert(v & 0x00FF == v % 0x100) by (bit_vector);
        (self.value & 0x00FF) as u8
    }
}

} // verus!
