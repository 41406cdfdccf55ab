//! The operation set of the machine, with its byte values and mnemonics.
use vstd::prelude::*;

verus! {

/// One operation of the machine. `IGL` stands for every byte or mnemonic
/// that names no known operation.
#[derive(Clone, Copy, Debug, PartialEq, Eq, Structural)]
pub enum Opcode {
    HLT,
    LOAD,
    ADD,
    SUB,
    MUL,
    DIV,
    JMP,
    JMPF,
    JMPB,
    EQ,
    NEQ,
    GT,
    LT,
    GTQ,
    LTQ,
    JEQ,
    JNEQ,
    ALOC,
    NOP,
    IGL,
}

/// The byte that an opcode is encoded as. `IGL` takes a byte that no known
/// operation uses, so that decoding it gives `IGL` back.
pub open spec fn byte_of(op: Opcode) -> u8 {
    match op {
        Opcode::HLT => 0,
        Opcode::LOAD => 1,
        Opcode::ADD => 2,
        Opcode::SUB => 3,
        Opcode::MUL => 4,
        Opcode::DIV => 5,
        Opcode::JMP => 6,
        Opcode::JMPF => 7,
        Opcode::JMPB => 8,
        Opcode::EQ => 9,
        Opcode::NEQ => 10,
        Opcode::GT => 11,
        Opcode::LT => 12,
        Opcode::GTQ => 13,
        Opcode::LTQ => 14,
        Opcode::JEQ => 15,
        Opcode::JNEQ => 16,
        Opcode::ALOC => 17,
        Opcode::NOP => 18,
        Opcode::IGL => 255,
    }
}

/// The opcode that a byte decodes to: total, with `IGL` for unknown bytes.
pub open spec fn opcode_of_byte(b: u8) -> Opcode {
    match b {
        0 => Opcode::HLT,
        1 => Opcode::LOAD,
        2 => Opcode::ADD,
        3 => Opcode::SUB,
        4 => Opcode::MUL,
        5 => Opcode::DIV,
        6 => Opcode::JMP,
        7 => Opcode::JMPF,
        8 => Opcode::JMPB,
        9 => Opcode::EQ,
        10 => Opcode::NEQ,
        11 => Opcode::GT,
        12 => Opcode::LT,
        13 => Opcode::GTQ,
        14 => Opcode::LTQ,
        15 => Opcode::JEQ,
        16 => Opcode::JNEQ,
        17 => Opcode::ALOC,
        18 => Opcode::NOP,
        _ => Opcode::IGL,
    }
}

/// The ASCII bytes of a word.
pub open spec fn ascii(w: Seq<char>) -> Seq<u8> {
    w.map_values(|c: char| c as u8)
}

/// The mnemonic of each known opcode; `IGL` has none (the empty word).
pub open spec fn mnemonic(op: Opcode) -> Seq<u8> {
    ascii(
        match op {
            Opcode::HLT => seq!['h', 'l', 't'],
            Opcode::LOAD => seq!['l', 'o', 'a', 'd'],
            Opcode::ADD => seq!['a', 'd', 'd'],
            Opcode::SUB => seq!['s', 'u', 'b'],
            Opcode::MUL => seq!['m', 'u', 'l'],
            Opcode::DIV => seq!['d', 'i', 'v'],
            Opcode::JMP => seq!['j', 'm', 'p'],
            Opcode::JMPF => seq!['j', 'm', 'p', 'f'],
            Opcode::JMPB => seq!['j', 'm', 'p', 'b'],
            Opcode::EQ => seq!['e', 'q'],
            Opcode::NEQ => seq!['n', 'e', 'q'],
            Opcode::GT => seq!['g', 't'],
            Opcode::LT => seq!['l', 't'],
            Opcode::GTQ => seq!['g', 't', 'q'],
            Opcode::LTQ => seq!['l', 't', 'q'],
            Opcode::JEQ => seq!['j', 'e', 'q'],
            Opcode::JNEQ => seq!['j', 'n', 'e', 'q'],
            Opcode::ALOC => seq!['a', 'l', 'o', 'c'],
            Opcode::NOP => seq!['n', 'o', 'p'],
            Opcode::IGL => Seq::empty(),
        },
    )
}

/// The opcode that a word names: the known opcode whose mnemonic it is
/// (case-sensitive), else `IGL`.
pub open spec fn opcode_of_mnemonic(m: Seq<u8>) -> Opcode {
    if m == mnemonic(Opcode::HLT) {
        Opcode::HLT
    } else if m == mnemonic(Opcode::LOAD) {
        Opcode::LOAD
    } else if m == mnemonic(Opcode::ADD) {
        Opcode::ADD
    } else if m == mnemonic(Opcode::SUB) {
        Opcode::SUB
    } else if m == mnemonic(Opcode::MUL) {
        Opcode::MUL
    } else if m == mnemonic(Opcode::DIV) {
        Opcode::DIV
    } else if m == mnemonic(Opcode::JMP) {
        Opcode::JMP
    } else if m == mnemonic(Opcode::JMPF) {
        Opcode::JMPF
    } else if m == mnemonic(Opcode::JMPB) {
        Opcode::JMPB
    } else if m == mnemonic(Opcode::EQ) {
        Opcode::EQ
    } else if m == mnemonic(Opcode::NEQ) {
        Opcode::NEQ
    } else if m == mnemonic(Opcode::GT) {
        Opcode::GT
    } else if m == mnemonic(Opcode::LT) {
        Opcode::LT
    } else if m == mnemonic(Opcode::GTQ) {
        Opcode::GTQ
    } else if m == mnemonic(Opcode::LTQ) {
        Opcode::LTQ
    } else if m == mnemonic(Opcode::JEQ) {
        Opcode::JEQ
    } else if m == mnemonic(Opcode::JNEQ) {
        Opcode::JNEQ
    } else if m == mnemonic(Opcode::ALOC) {
        Opcode::ALOC
    } else if m == mnemonic(Opcode::NOP) {
        Opcode::NOP
    } else {
        Opcode::IGL
    }
}

impl Opcode {
    /// Decodes a byte; every byte outside the known set gives `IGL`.
    pub fn from_byte(b: u8) -> (r: Opcode)
        ensures
            r == opcode_of_byte(b),
    {
        match b {
            0 => Opcode::HLT,
            1 => Opcode::LOAD,
            2 => Opcode::ADD,
            3 => Opcode::SUB,
            4 => Opcode::MUL,
            5 => Opcode::DIV,
            6 => Opcode::JMP,
            7 => Opcode::JMPF,
            8 => Opcode::JMPB,
            9 => Opcode::EQ,
            10 => Opcode::NEQ,
            11 => Opcode::GT,
            12 => Opcode::LT,
            13 => Opcode::GTQ,
            14 => Opcode::LTQ,
            15 => Opcode::JEQ,
            16 => Opcode::JNEQ,
            17 => Opcode::ALOC,
            18 => Opcode::NOP,
            _ => Opcode::IGL,
        }
    }

    /// The byte this opcode is encoded as.
    pub fn to_byte(self) -> (r: u8)
        ensures
            r == byte_of(self),
    {
        match self {
            Opcode::HLT => 0,
            Opcode::LOAD => 1,
            Opcode::ADD => 2,
            Opcode::SUB => 3,
            Opcode::MUL => 4,
            Opcode::DIV => 5,
            Opcode::JMP => 6,
            Opcode::JMPF => 7,
            Opcode::JMPB => 8,
            Opcode::EQ => 9,
            Opcode::NEQ => 10,
            Opcode::GT => 11,
            Opcode::LT => 12,
            Opcode::GTQ => 13,
            Opcode::LTQ => 14,
            Opcode::JEQ => 15,
            Opcode::JNEQ => 16,
            Opcode::ALOC => 17,
            Opcode::NOP => 18,
            Opcode::IGL => 255,
        }
    }

    /// The mnemonic of this opcode as ASCII bytes (empty for `IGL`).
    pub fn mnemonic(self) -> (r: Vec<u8>)
        ensures
            r@ == mnemonic(self),
    {
        let r = match self {
            Opcode::HLT => vec!['h' as u8, 'l' as u8, 't' as u8],
            Opcode::LOAD => vec!['l' as u8, 'o' as u8, 'a' as u8, 'd' as u8],
            Opcode::ADD => vec!['a' as u8, 'd' as u8, 'd' as u8],
            Opcode::SUB => vec!['s' as u8, 'u' as u8, 'b' as u8],
            Opcode::MUL => vec!['m' as u8, 'u' as u8, 'l' as u8],
            Opcode::DIV => vec!['d' as u8, 'i' as u8, 'v' as u8],
            Opcode::JMP => vec!['j' as u8, 'm' as u8, 'p' as u8],
            Opcode::JMPF => vec!['j' as u8, 'm' as u8, 'p' as u8, 'f' as u8],
            Opcode::JMPB => vec!['j' as u8, 'm' as u8, 'p' as u8, 'b' as u8],
            Opcode::EQ => vec!['e' as u8, 'q' as u8],
            Opcode::NEQ => vec!['n' as u8, 'e' as u8, 'q' as u8],
            Opcode::GT => vec!['g' as u8, 't' as u8],
            Opcode::LT => vec!['l' as u8, 't' as u8],
            Opcode::GTQ => vec!['g' as u8, 't' as u8, 'q' as u8],
            Opcode::LTQ => vec!['l' as u8, 't' as u8, 'q' as u8],
            Opcode::JEQ => vec!['j' as u8, 'e' as u8, 'q' as u8],
            Opcode::JNEQ => vec!['j' as u8, 'n' as u8, 'e' as u8, 'q' as u8],
            Opcode::ALOC => vec!['a' as u8, 'l' as u8, 'o' as u8, 'c' as u8],
            Opcode::NOP => vec!['n' as u8, 'o' as u8, 'p' as u8],
            Opcode::IGL => Vec::new(),
        };
        assert(r@ =~= mnemonic(self));
        r
    }

    /// Resolves a word to its opcode; an unknown word gives `IGL`.
    pub fn from_mnemonic(m: &[u8]) -> (r: Opcode)
        ensures
            r == opcode_of_mnemonic(m@),
    {
        if same_bytes(m, Opcode::HLT.mnemonic().as_slice()) {
            Opcode::HLT
        } else if same_bytes(m, Opcode::LOAD.mnemonic().as_slice()) {
            Opcode::LOAD
        } else if same_bytes(m, Opcode::ADD.mnemonic().as_slice()) {
            Opcode::ADD
        } else if same_bytes(m, Opcode::SUB.mnemonic().as_slice()) {
            Opcode::SUB
        } else if same_bytes(m, Opcode::MUL.mnemonic().as_slice()) {
            Opcode::MUL
        } else if same_bytes(m, Opcode::DIV.mnemonic().as_slice()) {
            Opcode::DIV
        } else if same_bytes(m, Opcode::JMP.mnemonic().as_slice()) {
            Opcode::JMP
        } else if same_bytes(m, Opcode::JMPF.mnemonic().as_slice()) {
            Opcode::JMPF
        } else if same_bytes(m, Opcode::JMPB.mnemonic().as_slice()) {
            Opcode::JMPB
        } else if same_bytes(m, Opcode::EQ.mnemonic().as_slice()) {
            Opcode::EQ
        } else if same_bytes(m, Opcode::NEQ.mnemonic().as_slice()) {
            Opcode::NEQ
        } else if same_bytes(m, Opcode::GT.mnemonic().as_slice()) {
            Opcode::GT
        } else if same_bytes(m, Opcode::LT.mnemonic().as_slice()) {
            Opcode::LT
        } else if same_bytes(m, Opcode::GTQ.mnemonic().as_slice()) {
            Opcode::GTQ
        } else if same_bytes(m, Opcode::LTQ.mnemonic().as_slice()) {
            Opcode::LTQ
        } else if same_bytes(m, Opcode::JEQ.mnemonic().as_slice()) {
            Opcode::JEQ
        } else if same_bytes(m, Opcode::JNEQ.mnemonic().as_slice()) {
            Opcode::JNEQ
        } else if same_bytes(m, Opcode::ALOC.mnemonic().as_slice()) {
            Opcode::ALOC
        } else if same_bytes(m, Opcode::NOP.mnemonic().as_slice()) {
            Opcode::NOP
        } else {
            Opcode::IGL
        }
    }
}

/// Whether two byte strings are equal.
fn same_bytes(a: &[u8], b: &[u8]) -> (r: bool)
    ensures
        r == (a@ == b@),
{
    if a.len() != b.len() {
        return false;
    }
    let mut i: usize = 0;
    while i < a.len()
        invariant
            a@.len() == b@.len(),
            0 <= i <= a@.len(),
            a@.subrange(0, i as int) == b@.subrange(0, i as int),
        decreases a@.len() - i,
    {
        if a[i] != b[i] {
            assert(a@[i as int] != b@[i as int]);
            return false;
        }
        assert(a@.subrange(0, i + 1) =~= a@.subrange(0, i as int).push(a@[i as int]));
        assert(b@.subrange(0, i + 1) =~= b@.subrange(0, i as int).push(b@[i as int]));
        i = i + 1;
    }
    assert(a@ =~= a@.subrange(0, i as int));
    assert(b@ =~= b@.subrange(0, i as int));
    true
}

/// Decoding the byte of any opcode gives that opcode back.
pub proof fn lemma_byte_round_trip(op: Opcode)
    ensures
        opcode_of_byte(byte_of(op)) == op,
{
}

/// Every byte that decodes to a known opcode is that opcode's byte.
pub proof fn lemma_known_byte_unique(b: u8)
    ensures
        opcode_of_byte(b) != Opcode::IGL ==> byte_of(opcode_of_byte(b)) == b,
{
}

/// Every known opcode's mnemonic resolves to that opcode.
pub proof fn lemma_mnemonic_round_trip(op: Opcode)
    requires
        op != Opcode::IGL,
    ensures
        opcode_of_mnemonic(mnemonic(op)) == op,
{
    match op {
        Opcode::HLT => {
        },
        Opcode::LOAD => {
            assert(mnemonic(Opcode::HLT).len() != mnemonic(Opcode::LOAD).len());
        },
        Opcode::ADD => {
            assert(mnemonic(Opcode::HLT)[0] != mnemonic(Opcode::ADD)[0]);
            assert(mnemonic(Opcode::LOAD).len() != mnemonic(Opcode::ADD).len());
        },
        Opcode::SUB => {
            assert(mnemonic(Opcode::HLT)[0] != mnemonic(Opcode::SUB)[0]);
            assert(mnemonic(Opcode::LOAD).len() != mnemonic(Opcode::SUB).len());
            assert(mnemonic(Opcode::ADD)[0] != mnemonic(Opcode::SUB)[0]);
        },
        Opcode::MUL => {
            assert(mnemonic(Opcode::HLT)[0] != mnemonic(Opcode::MUL)[0]);
            assert(mnemonic(Opcode::LOAD).len() != mnemonic(Opcode::MUL).len());
            assert(mnemonic(Opcode::ADD)[0] != mnemonic(Opcode::MUL)[0]);
            assert(mnemonic(Opcode::SUB)[0] != mnemonic(Opcode::MUL)[0]);
        },
        Opcode::DIV => {
            assert(mnemonic(Opcode::HLT)[0] != mnemonic(Opcode::DIV)[0]);
            assert(mnemonic(Opcode::LOAD).len() != mnemonic(Opcode::DIV).len());
            assert(mnemonic(Opcode::ADD)[0] != mnemonic(Opcode::DIV)[0]);
            assert(mnemonic(Opcode::SUB)[0] != mnemonic(Opcode::DIV)[0]);
            assert(mnemonic(Opcode::MUL)[0] != mnemonic(Opcode::DIV)[0]);
        },
        Opcode::JMP => {
            assert(mnemonic(Opcode::HLT)[0] != mnemonic(Opcode::JMP)[0]);
            assert(mnemonic(Opcode::LOAD).len() != mnemonic(Opcode::JMP).len());
            assert(mnemonic(Opcode::ADD)[0] != mnemonic(Opcode::JMP)[0]);
            assert(mnemonic(Opcode::SUB)[0] != mnemonic(Opcode::JMP)[0]);
            assert(mnemonic(Opcode::MUL)[0] != mnemonic(Opcode::JMP)[0]);
            assert(mnemonic(Opcode::DIV)[0] != mnemonic(Opcode::JMP)[0]);
        },
        Opcode::JMPF => {
            assert(mnemonic(Opcode::HLT).len() != mnemonic(Opcode::JMPF).len());
            assert(mnemonic(Opcode::LOAD)[0] != mnemonic(Opcode::JMPF)[0]);
            assert(mnemonic(Opcode::ADD).len() != mnemonic(Opcode::JMPF).len());
            assert(mnemonic(Opcode::SUB).len() != mnemonic(Opcode::JMPF).len());
            assert(mnemonic(Opcode::MUL).len() != mnemonic(Opcode::JMPF).len());
            assert(mnemonic(Opcode::DIV).len() != mnemonic(Opcode::JMPF).len());
            assert(mnemonic(Opcode::JMP).len() != mnemonic(Opcode::JMPF).len());
        },
        Opcode::JMPB => {
            assert(mnemonic(Opcode::HLT).len() != mnemonic(Opcode::JMPB).len());
            assert(mnemonic(Opcode::LOAD)[0] != mnemonic(Opcode::JMPB)[0]);
            assert(mnemonic(Opcode::ADD).len() != mnemonic(Opcode::JMPB).len());
            assert(mnemonic(Opcode::SUB).len() != mnemonic(Opcode::JMPB).len());
            assert(mnemonic(Opcode::MUL).len() != mnemonic(Opcode::JMPB).len());
            assert(mnemonic(Opcode::DIV).len() != mnemonic(Opcode::JMPB).len());
            assert(mnemonic(Opcode::JMP).len() != mnemonic(Opcode::JMPB).len());
            assert(mnemonic(Opcode::JMPF)[3] != mnemonic(Opcode::JMPB)[3]);
        },
        Opcode::EQ => {
            assert(mnemonic(Opcode::HLT).len() != mnemonic(Opcode::EQ).len());
            assert(mnemonic(Opcode::LOAD).len() != mnemonic(Opcode::EQ).len());
            assert(mnemonic(Opcode::ADD).len() != mnemonic(Opcode::EQ).len());
            assert(mnemonic(Opcode::SUB).len() != mnemonic(Opcode::EQ).len());
            assert(mnemonic(Opcode::MUL).len() != mnemonic(Opcode::EQ).len());
            assert(mnemonic(Opcode::DIV).len() != mnemonic(Opcode::EQ).len());
            assert(mnemonic(Opcode::JMP).len() != mnemonic(Opcode::EQ).len());
            assert(mnemonic(Opcode::JMPF).len() != mnemonic(Opcode::EQ).len());
            assert(mnemonic(Opcode::JMPB).len() != mnemonic(Opcode::EQ).len());
        },
        Opcode::NEQ => {
            assert(mnemonic(Opcode::HLT)[0] != mnemonic(Opcode::NEQ)[0]);
            assert(mnemonic(Opcode::LOAD).len() != mnemonic(Opcode::NEQ).len());
            assert(mnemonic(Opcode::ADD)[0] != mnemonic(Opcode::NEQ)[0]);
            assert(mnemonic(Opcode::SUB)[0] != mnemonic(Opcode::NEQ)[0]);
            assert(mnemonic(Opcode::MUL)[0] != mnemonic(Opcode::NEQ)[0]);
            assert(mnemonic(Opcode::DIV)[0] != mnemonic(Opcode::NEQ)[0]);
            assert(mnemonic(Opcode::JMP)[0] != mnemonic(Opcode::NEQ)[0]);
            assert(mnemonic(Opcode::JMPF).len() != mnemonic(Opcode::NEQ).len());
            assert(mnemonic(Opcode::JMPB).len() != mnemonic(Opcode::NEQ).len());
            assert(mnemonic(Opcode::EQ).len() != mnemonic(Opcode::NEQ).len());
        },
        Opcode::GT => {
            assert(mnemonic(Opcode::HLT).len() != mnemonic(Opcode::GT).len());
            assert(mnemonic(Opcode::LOAD).len() != mnemonic(Opcode::GT).len());
            assert(mnemonic(Opcode::ADD).len() != mnemonic(Opcode::GT).len());
            assert(mnemonic(Opcode::SUB).len() != mnemonic(Opcode::GT).len());
            assert(mnemonic(Opcode::MUL).len() != mnemonic(Opcode::GT).len());
            assert(mnemonic(Opcode::DIV).len() != mnemonic(Opcode::GT).len());
            assert(mnemonic(Opcode::JMP).len() != mnemonic(Opcode::GT).len());
            assert(mnemonic(Opcode::JMPF).len() != mnemonic(Opcode::GT).len());
            assert(mnemonic(Opcode::JMPB).len() != mnemonic(Opcode::GT).len());
            assert(mnemonic(Opcode::EQ)[0] != mnemonic(Opcode::GT)[0]);
            assert(mnemonic(Opcode::NEQ).len() != mnemonic(Opcode::GT).len());
        },
        Opcode::LT => {
            assert(mnemonic(Opcode::HLT).len() != mnemonic(Opcode::LT).len());
            assert(mnemonic(Opcode::LOAD).len() != mnemonic(Opcode::LT).len());
            assert(mnemonic(Opcode::ADD).len() != mnemonic(Opcode::LT).len());
            assert(mnemonic(Opcode::SUB).len() != mnemonic(Opcode::LT).len());
            assert(mnemonic(Opcode::MUL).len() != mnemonic(Opcode::LT).len());
            assert(mnemonic(Opcode::DIV).len() != mnemonic(Opcode::LT).len());
            assert(mnemonic(Opcode::JMP).len() != mnemonic(Opcode::LT).len());
            assert(mnemonic(Opcode::JMPF).len() != mnemonic(Opcode::LT).len());
            assert(mnemonic(Opcode::JMPB).len() != mnemonic(Opcode::LT).len());
            assert(mnemonic(Opcode::EQ)[0] != mnemonic(Opcode::LT)[0]);
            assert(mnemonic(Opcode::NEQ).len() != mnemonic(Opcode::LT).len());
            assert(mnemonic(Opcode::GT)[0] != mnemonic(Opcode::LT)[0]);
        },
        Opcode::GTQ => {
            assert(mnemonic(Opcode::HLT)[0] != mnemonic(Opcode::GTQ)[0]);
            assert(mnemonic(Opcode::LOAD).len() != mnemonic(Opcode::GTQ).len());
            assert(mnemonic(Opcode::ADD)[0] != mnemonic(Opcode::GTQ)[0]);
            assert(mnemonic(Opcode::SUB)[0] != mnemonic(Opcode::GTQ)[0]);
            assert(mnemonic(Opcode::MUL)[0] != mnemonic(Opcode::GTQ)[0]);
            assert(mnemonic(Opcode::DIV)[0] != mnemonic(Opcode::GTQ)[0]);
            assert(mnemonic(Opcode::JMP)[0] != mnemonic(Opcode::GTQ)[0]);
            assert(mnemonic(Opcode::JMPF).len() != mnemonic(Opcode::GTQ).len());
            assert(mnemonic(Opcode::JMPB).len() != mnemonic(Opcode::GTQ).len());
            assert(mnemonic(Opcode::EQ).len() != mnemonic(Opcode::GTQ).len());
            assert(mnemonic(Opcode::NEQ)[0] != mnemonic(Opcode::GTQ)[0]);
            assert(mnemonic(Opcode::GT).len() != mnemonic(Opcode::GTQ).len());
            assert(mnemonic(Opcode::LT).len() != mnemonic(Opcode::GTQ).len());
        },
        Opcode::LTQ => {
            assert(mnemonic(Opcode::HLT)[0] != mnemonic(Opcode::LTQ)[0]);
            assert(mnemonic(Opcode::LOAD).len() != mnemonic(Opcode::LTQ).len());
            assert(mnemonic(Opcode::ADD)[0] != mnemonic(Opcode::LTQ)[0]);
            assert(mnemonic(Opcode::SUB)[0] != mnemonic(Opcode::LTQ)[0]);
            assert(mnemonic(Opcode::MUL)[0] != mnemonic(Opcode::LTQ)[0]);
            assert(mnemonic(Opcode::DIV)[0] != mnemonic(Opcode::LTQ)[0]);
            assert(mnemonic(Opcode::JMP)[0] != mnemonic(Opcode::LTQ)[0]);
            assert(mnemonic(Opcode::JMPF).len() != mnemonic(Opcode::LTQ).len());
            assert(mnemonic(Opcode::JMPB).len() != mnemonic(Opcode::LTQ).len());
            assert(mnemonic(Opcode::EQ).len() != mnemonic(Opcode::LTQ).len());
            assert(mnemonic(Opcode::NEQ)[0] != mnemonic(Opcode::LTQ)[0]);
            assert(mnemonic(Opcode::GT).len() != mnemonic(Opcode::LTQ).len());
            assert(mnemonic(Opcode::LT).len() != mnemonic(Opcode::LTQ).len());
            assert(mnemonic(Opcode::GTQ)[0] != mnemonic(Opcode::LTQ)[0]);
        },
        Opcode::JEQ => {
            assert(mnemonic(Opcode::HLT)[0] != mnemonic(Opcode::JEQ)[0]);
            assert(mnemonic(Opcode::LOAD).len() != mnemonic(Opcode::JEQ).len());
            assert(mnemonic(Opcode::ADD)[0] != mnemonic(Opcode::JEQ)[0]);
            assert(mnemonic(Opcode::SUB)[0] != mnemonic(Opcode::JEQ)[0]);
            assert(mnemonic(Opcode::MUL)[0] != mnemonic(Opcode::JEQ)[0]);
            assert(mnemonic(Opcode::DIV)[0] != mnemonic(Opcode::JEQ)[0]);
            assert(mnemonic(Opcode::JMP)[1] != mnemonic(Opcode::JEQ)[1]);
            assert(mnemonic(Opcode::JMPF).len() != mnemonic(Opcode::JEQ).len());
            assert(mnemonic(Opcode::JMPB).len() != mnemonic(Opcode::JEQ).len());
            assert(mnemonic(Opcode::EQ).len() != mnemonic(Opcode::JEQ).len());
            assert(mnemonic(Opcode::NEQ)[0] != mnemonic(Opcode::JEQ)[0]);
            assert(mnemonic(Opcode::GT).len() != mnemonic(Opcode::JEQ).len());
            assert(mnemonic(Opcode::LT).len() != mnemonic(Opcode::JEQ).len());
            assert(mnemonic(Opcode::GTQ)[0] != mnemonic(Opcode::JEQ)[0]);
            assert(mnemonic(Opcode::LTQ)[0] != mnemonic(Opcode::JEQ)[0]);
        },
        Opcode::JNEQ => {
            assert(mnemonic(Opcode::HLT).len() != mnemonic(Opcode::JNEQ).len());
            assert(mnemonic(Opcode::LOAD)[0] != mnemonic(Opcode::JNEQ)[0]);
            assert(mnemonic(Opcode::ADD).len() != mnemonic(Opcode::JNEQ).len());
            assert(mnemonic(Opcode::SUB).len() != mnemonic(Opcode::JNEQ).len());
            assert(mnemonic(Opcode::MUL).len() != mnemonic(Opcode::JNEQ).len());
            assert(mnemonic(Opcode::DIV).len() != mnemonic(Opcode::JNEQ).len());
            assert(mnemonic(Opcode::JMP).len() != mnemonic(Opcode::JNEQ).len());
            assert(mnemonic(Opcode::JMPF)[1] != mnemonic(Opcode::JNEQ)[1]);
            assert(mnemonic(Opcode::JMPB)[1] != mnemonic(Opcode::JNEQ)[1]);
            assert(mnemonic(Opcode::EQ).len() != mnemonic(Opcode::JNEQ).len());
            assert(mnemonic(Opcode::NEQ).len() != mnemonic(Opcode::JNEQ).len());
            assert(mnemonic(Opcode::GT).len() != mnemonic(Opcode::JNEQ).len());
            assert(mnemonic(Opcode::LT).len() != mnemonic(Opcode::JNEQ).len());
            assert(mnemonic(Opcode::GTQ).len() != mnemonic(Opcode::JNEQ).len());
            assert(mnemonic(Opcode::LTQ).len() != mnemonic(Opcode::JNEQ).len());
            assert(mnemonic(Opcode::JEQ).len() != mnemonic(Opcode::JNEQ).len());
        },
        Opcode::ALOC => {
            assert(mnemonic(Opcode::HLT).len() != mnemonic(Opcode::ALOC).len());
            assert(mnemonic(Opcode::LOAD)[0] != mnemonic(Opcode::ALOC)[0]);
            assert(mnemonic(Opcode::ADD).len() != mnemonic(Opcode::ALOC).len());
            assert(mnemonic(Opcode::SUB).len() != mnemonic(Opcode::ALOC).len());
            assert(mnemonic(Opcode::MUL).len() != mnemonic(Opcode::ALOC).len());
            assert(mnemonic(Opcode::DIV).len() != mnemonic(Opcode::ALOC).len());
            assert(mnemonic(Opcode::JMP).len() != mnemonic(Opcode::ALOC).len());
            assert(mnemonic(Opcode::JMPF)[0] != mnemonic(Opcode::ALOC)[0]);
            assert(mnemonic(Opcode::JMPB)[0] != mnemonic(Opcode::ALOC)[0]);
            assert(mnemonic(Opcode::EQ).len() != mnemonic(Opcode::ALOC).len());
            assert(mnemonic(Opcode::NEQ).len() != mnemonic(Opcode::ALOC).len());
            assert(mnemonic(Opcode::GT).len() != mnemonic(Opcode::ALOC).len());
            assert(mnemonic(Opcode::LT).len() != mnemonic(Opcode::ALOC).len());
            assert(mnemonic(Opcode::GTQ).len() != mnemonic(Opcode::ALOC).len());
            assert(mnemonic(Opcode::LTQ).len() != mnemonic(Opcode::ALOC).len());
            assert(mnemonic(Opcode::JEQ).len() != mnemonic(Opcode::ALOC).len());
            assert(mnemonic(Opcode::JNEQ)[0] != mnemonic(Opcode::ALOC)[0]);
        },
        Opcode::NOP => {
            assert(mnemonic(Opcode::HLT)[0] != mnemonic(Opcode::NOP)[0]);
            assert(mnemonic(Opcode::LOAD).len() != mnemonic(Opcode::NOP).len());
            assert(mnemonic(Opcode::ADD)[0] != mnemonic(Opcode::NOP)[0]);
            assert(mnemonic(Opcode::SUB)[0] != mnemonic(Opcode::NOP)[0]);
            assert(mnemonic(Opcode::MUL)[0] != mnemonic(Opcode::NOP)[0]);
            assert(mnemonic(Opcode::DIV)[0] != mnemonic(Opcode::NOP)[0]);
            assert(mnemonic(Opcode::JMP)[0] != mnemonic(Opcode::NOP)[0]);
            assert(mnemonic(Opcode::JMPF).len() != mnemonic(Opcode::NOP).len());
            assert(mnemonic(Opcode::JMPB).len() != mnemonic(Opcode::NOP).len());
            assert(mnemonic(Opcode::EQ).len() != mnemonic(Opcode::NOP).len());
            assert(mnemonic(Opcode::NEQ)[1] != mnemonic(Opcode::NOP)[1]);
            assert(mnemonic(Opcode::GT).len() != mnemonic(Opcode::NOP).len());
            assert(mnemonic(Opcode::LT).len() != mnemonic(Opcode::NOP).len());
            assert(mnemonic(Opcode::GTQ)[0] != mnemonic(Opcode::NOP)[0]);
            assert(mnemonic(Opcode::LTQ)[0] != mnemonic(Opcode::NOP)[0]);
            assert(mnemonic(Opcode::JEQ)[0] != mnemonic(Opcode::NOP)[0]);
            assert(mnemonic(Opcode::JNEQ).len() != mnemonic(Opcode::NOP).len());
            assert(mnemonic(Opcode::ALOC).len() != mnemonic(Opcode::NOP).len());
        },
        Opcode::IGL => {},
    }
}

/// A word that is no known opcode's mnemonic resolves to `IGL`.
pub proof fn lemma_unknown_mnemonic(m: Seq<u8>)
    requires
        forall|op: Opcode| op != Opcode::IGL ==> mnemonic(op) != m,
    ensures
        opcode_of_mnemonic(m) == Opcode::IGL,
{
    assert(mnemonic(Opcode::HLT) != m);
    assert(mnemonic(Opcode::LOAD) != m);
}

/// Decoding is total: a byte that is no known opcode's byte decodes to `IGL`.
pub proof fn lemma_unknown_byte(b: u8)
    requires
        forall|op: Opcode| op != Opcode::IGL ==> byte_of(op) != b,
    ensures
        opcode_of_byte(b) == Opcode::IGL,
{
    assert(byte_of(Opcode::HLT) != b);
    assert(byte_of(Opcode::LOAD) != b);
    assert(byte_of(Opcode::ADD) != b);
    assert(byte_of(Opcode::SUB) != b);
    assert(byte_of(Opcode::MUL) != b);
    assert(byte_of(Opcode::DIV) != b);
    assert(byte_of(Opcode::JMP) != b);
    assert(byte_of(Opcode::JMPF) != b);
    assert(byte_of(Opcode::JMPB) != b);
    assert(byte_of(Opcode::EQ) != b);
    assert(byte_of(Opcode::NEQ) != b);
    assert(byte_of(Opcode::GT) != b);
    assert(byte_of(Opcode::LT) != b);
    assert(byte_of(Opcode::GTQ) != b);
    assert(byte_of(Opcode::LTQ) != b);
    assert(byte_of(Opcode::JEQ) != b);
    assert(byte_of(Opcode::JNEQ) != b);
    assert(byte_of(Opcode::ALOC) != b);
    assert(byte_of(Opcode::NOP) != b);
}

} // verus!
