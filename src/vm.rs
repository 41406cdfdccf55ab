//! The execution engine: machine state and the fetch-decode-execute step.
use vstd::prelude::*;
use crate::instruction::{opcode_of_byte, Opcode};

verus! {

/// The number of registers in the register file.
pub const REGISTER_COUNT: usize = 32;

/// Why the machine stopped. The first three are normal ends; the others are
/// faults, after which the machine is left exactly as it was before the step.
#[derive(Clone, Copy, Debug, PartialEq, Eq, Structural)]
pub enum Halt {
    /// The program counter is at or past the end of the instruction buffer.
    EndOfProgram,
    /// A `hlt` instruction was executed.
    Halted,
    /// A byte outside the known opcode set was fetched.
    Illegal,
    /// The instruction's operand bytes run past the end of the buffer.
    Truncated,
    /// A register operand lies outside the register file.
    BadRegister,
    /// `div` with a zero divisor.
    DivideByZero,
    /// A relative jump (`jmpf`, `jmpb`) to an address below zero or beyond
    /// what a `usize` can hold.
    BadJump,
    /// `aloc` of a negative size, or of more than the heap can hold.
    BadAllocation,
}

/// The mathematical state of a machine.
pub struct VmState {
    pub registers: Seq<i32>,
    pub pc: int,
    pub program: Seq<u8>,
    pub heap: Seq<u8>,
    pub remainder: u32,
    pub equal_flag: bool,
}

/// How many operand bytes follow an opcode.
pub open spec fn operand_count(op: Opcode) -> int {
    match op {
        Opcode::LOAD | Opcode::ADD | Opcode::SUB | Opcode::MUL | Opcode::DIV => 3,
        Opcode::EQ | Opcode::NEQ | Opcode::GT | Opcode::LT | Opcode::GTQ | Opcode::LTQ => 2,
        Opcode::JMP | Opcode::JMPF | Opcode::JMPB | Opcode::JEQ | Opcode::JNEQ | Opcode::ALOC => 1,
        _ => 0,
    }
}

/// How many of those operand bytes name registers; they come first.
pub open spec fn register_operand_count(op: Opcode) -> int {
    if op == Opcode::LOAD {
        1
    } else {
        operand_count(op)
    }
}

/// The `k`-th operand byte of the instruction at the program counter.
pub open spec fn operand(s: VmState, k: int) -> u8 {
    s.program[s.pc + 1 + k]
}

/// The value of the register that the `k`-th operand byte names.
pub open spec fn reg_value(s: VmState, k: int) -> i32 {
    s.registers[operand(s, k) as int]
}

/// Whether the first `n` operand bytes all name registers of the file.
pub open spec fn registers_valid(s: VmState, n: int) -> bool {
    forall|k: int| 0 <= k < n ==> (#[trigger] operand(s, k)) < REGISTER_COUNT
}

/// A 16-bit immediate given most significant byte first.
pub open spec fn immediate(hi: u8, lo: u8) -> i32 {
    (hi * 256 + lo) as i32
}

/// Division that truncates toward zero, as Rust's `/` on integers.
pub open spec fn trunc_div(a: int, b: int) -> int {
    let q = abs(a) / abs(b);
    if (a < 0) == (b < 0) {
        q
    } else {
        -q
    }
}

/// The remainder that goes with `trunc_div`: it takes the sign of `a`.
pub open spec fn trunc_rem(a: int, b: int) -> int {
    let r = abs(a) % abs(b);
    if a < 0 {
        -r
    } else {
        r
    }
}

/// The absolute value of `a`.
pub open spec fn abs(a: int) -> int {
    if a < 0 {
        -a
    } else {
        a
    }
}

/// An integer taken modulo 2^32 into the range of `i32`.
pub open spec fn wrap_i32(x: int) -> i32 {
    let m = x % 0x1_0000_0000;
    if m >= 0x8000_0000 {
        (m - 0x1_0000_0000) as i32
    } else {
        m as i32
    }
}

/// An integer taken modulo 2^32 into the range of `u32`.
pub open spec fn wrap_u32(x: int) -> u32 {
    (x % 0x1_0000_0000) as u32
}

/// The relation that a comparison opcode tests.
pub open spec fn compare(op: Opcode, a: i32, b: i32) -> bool {
    match op {
        Opcode::EQ => a == b,
        Opcode::NEQ => a != b,
        Opcode::GT => a > b,
        Opcode::LT => a < b,
        Opcode::GTQ => a >= b,
        _ => a <= b,
    }
}

/// Whether `op` is one of the six comparisons that set the flag.
pub open spec fn is_comparison(op: Opcode) -> bool {
    op == Opcode::EQ || op == Opcode::NEQ || op == Opcode::GT || op == Opcode::LT || op
        == Opcode::GTQ || op == Opcode::LTQ
}

/// `s` with register `r` set to `v`.
pub open spec fn set_reg(s: VmState, r: u8, v: i32) -> VmState {
    VmState { registers: s.registers.update(r as int, v), ..s }
}

/// The address that a register value names as an absolute jump target: the
/// value converted to `usize` as `as` does, so that a negative value wraps
/// to an address past any buffer (two's complement, sign-extended).
pub open spec fn address_of(v: i32) -> int {
    if v >= 0 {
        v as int
    } else {
        usize::MAX + 1 + v
    }
}

/// An absolute jump: no bounds check; an address past the end of the
/// buffer makes the next step halt.
pub open spec fn jump_absolute(s: VmState, v: i32) -> (VmState, Option<Halt>) {
    (VmState { pc: address_of(v), ..s }, None)
}

/// A relative jump to `target`: taken where a program counter can hold it,
/// else a fault.
pub open spec fn jump_to(s: VmState, target: int) -> (VmState, Option<Halt>) {
    if 0 <= target <= usize::MAX {
        (VmState { pc: target, ..s }, None)
    } else {
        (s, Some(Halt::BadJump))
    }
}

/// The effect of a fully present instruction with valid registers; `next`
/// is the address just past it.
pub open spec fn execute(s: VmState, op: Opcode, next: int) -> (VmState, Option<Halt>) {
    execute_operands(
        s,
        op,
        operand(s, 0),
        operand(s, 1),
        operand(s, 2),
        immediate(operand(s, 1), operand(s, 2)),
        next,
    )
}

/// The effect of `op` on the registers `x`, `y`, `z` that its operands
/// name (as many as it reads, in order) and on the immediate `imm` of a
/// `load`; `next` is the address just past the instruction.
pub open spec fn execute_operands(
    s: VmState,
    op: Opcode,
    x: u8,
    y: u8,
    z: u8,
    imm: i32,
    next: int,
) -> (VmState, Option<Halt>) {
    let a = s.registers[x as int];
    let b = s.registers[y as int];
    let moved = VmState { pc: next, ..s };
    match op {
        Opcode::LOAD => (set_reg(moved, x, imm), None),
        Opcode::ADD => (set_reg(moved, z, wrap_i32(a + b)), None),
        Opcode::SUB => (set_reg(moved, z, wrap_i32(a - b)), None),
        Opcode::MUL => (set_reg(moved, z, wrap_i32(a * b)), None),
        Opcode::DIV => if b == 0 {
            (s, Some(Halt::DivideByZero))
        } else {
            (
                VmState {
                    remainder: wrap_u32(trunc_rem(a as int, b as int)),
                    ..set_reg(moved, z, wrap_i32(trunc_div(a as int, b as int)))
                },
                None,
            )
        },
        Opcode::JMP => jump_absolute(s, a),
        Opcode::JMPF => jump_to(s, next + a),
        Opcode::JMPB => jump_to(s, next - a),
        Opcode::JEQ => if s.equal_flag {
            jump_absolute(s, a)
        } else {
            (moved, None)
        },
        Opcode::JNEQ => if !s.equal_flag {
            jump_absolute(s, a)
        } else {
            (moved, None)
        },
        Opcode::ALOC => if a < 0 || s.heap.len() + a > usize::MAX {
            (s, Some(Halt::BadAllocation))
        } else {
            (VmState { heap: s.heap + Seq::new(a as nat, |i: int| 0u8), ..moved }, None)
        },
        _ => if is_comparison(op) {
            (VmState { equal_flag: compare(op, a, b), ..moved }, None)
        } else {
            (moved, None)
        },
    }
}

/// The instruction at the program counter is an `op` whose operand bytes are
/// all present and whose register operands all lie in the register file.
pub open spec fn ready(s: VmState, op: Opcode) -> bool {
    &&& 0 <= s.pc < s.program.len()
    &&& opcode_of_byte(s.program[s.pc]) == op
    &&& s.pc + 1 + operand_count(op) <= s.program.len()
    &&& registers_valid(s, register_operand_count(op))
}

/// One fetch-decode-execute step: the state after it, and why the machine
/// stopped, if it did.
pub open spec fn step(s: VmState) -> (VmState, Option<Halt>) {
    if s.pc < 0 || s.pc >= s.program.len() {
        (s, Some(Halt::EndOfProgram))
    } else {
        let op = opcode_of_byte(s.program[s.pc]);
        let next = s.pc + 1 + operand_count(op);
        if op == Opcode::HLT {
            (VmState { pc: s.pc + 1, ..s }, Some(Halt::Halted))
        } else if op == Opcode::IGL {
            (VmState { pc: s.pc + 1, ..s }, Some(Halt::Illegal))
        } else if next > s.program.len() {
            (s, Some(Halt::Truncated))
        } else if !registers_valid(s, register_operand_count(op)) {
            (s, Some(Halt::BadRegister))
        } else {
            execute(s, op, next)
        }
    }
}

/// At most `fuel` steps, stopping at the first that halts.
pub open spec fn run_steps_spec(s: VmState, fuel: nat) -> (VmState, Option<Halt>)
    decreases fuel,
{
    if fuel == 0 {
        (s, None)
    } else {
        let (t, h) = step(s);
        if h is Some {
            (t, h)
        } else {
            run_steps_spec(t, (fuel - 1) as nat)
        }
    }
}


/// A register machine: 32 signed registers, a program counter into a byte
/// buffer of instructions, a heap that only grows, the remainder of the last
/// division and the flag of the last comparison.
#[derive(Debug)]
pub struct VM {
    pub registers: [i32; 32],
    pub pc: usize,
    pub program: Vec<u8>,
    pub heap: Vec<u8>,
    pub remainder: u32,
    pub equal_flag: bool,
}

impl View for VM {
    type V = VmState;

    open spec fn view(&self) -> VmState {
        VmState {
            registers: self.registers@,
            pc: self.pc as int,
            program: self.program@,
            heap: self.heap@,
            remainder: self.remainder,
            equal_flag: self.equal_flag,
        }
    }
}

/// The state of a fresh machine.
pub open spec fn initial_state() -> VmState {
    VmState {
        registers: Seq::new(32, |i: int| 0i32),
        pc: 0,
        program: Seq::empty(),
        heap: Seq::empty(),
        remainder: 0,
        equal_flag: false,
    }
}

impl Default for VM {
    fn default() -> (r: VM)
        ensures
            r@ == initial_state(),
    {
        VM::new()
    }
}

/// The number of operand bytes of an opcode.
fn operand_count_of(op: Opcode) -> (r: usize)
    ensures
        r == operand_count(op),
{
    match op {
        Opcode::LOAD | Opcode::ADD | Opcode::SUB | Opcode::MUL | Opcode::DIV => 3,
        Opcode::EQ | Opcode::NEQ | Opcode::GT | Opcode::LT | Opcode::GTQ | Opcode::LTQ => 2,
        Opcode::JMP | Opcode::JMPF | Opcode::JMPB | Opcode::JEQ | Opcode::JNEQ | Opcode::ALOC => 1,
        _ => 0,
    }
}

/// `address_of` in exec form: `v as usize`.
fn address_from(v: i32) -> (r: usize)
    ensures
        r == address_of(v),
{
    if v >= 0 {
        v as usize
    } else {
        usize::MAX - ((0 - (v as i64) - 1) as usize)
    }
}

/// `base + delta`, where a `usize` can hold it.
fn offset_pc(base: usize, delta: i64) -> (r: Option<usize>)
    requires
        -0x1_0000_0000 <= delta <= 0x1_0000_0000,
    ensures
        r is Some <==> 0 <= base + delta <= usize::MAX,
        r matches Some(p) ==> p == base + delta,
{
    if delta >= 0 {
        if delta as u64 > (usize::MAX - base) as u64 {
            None
        } else {
            Some(base + delta as usize)
        }
    } else {
        let back: u64 = (0 - delta) as u64;
        if back > base as u64 {
            None
        } else {
            Some(base - back as usize)
        }
    }
}

/// Rust's `/` and `%` on `i32`, with the quotient of `i32::MIN / -1`
/// wrapped and the remainder taken as a `u32`.
fn divide(a: i32, b: i32) -> (r: (i32, u32))
    requires
        b != 0,
    ensures
        r.0 == wrap_i32(trunc_div(a as int, b as int)),
        r.1 == wrap_u32(trunc_rem(a as int, b as int)),
{
    let ua: u64 = if a < 0 {
        (0 - (a as i64)) as u64
    } else {
        a as u64
    };
    let ub: u64 = if b < 0 {
        (0 - (b as i64)) as u64
    } else {
        b as u64
    };
    let qa: u64 = ua / ub;
    let ra: u64 = ua % ub;
    proof {
        vstd::arithmetic::div_mod::lemma_div_is_ordered_by_denominator(ua as int, 1, ub as int);
        vstd::arithmetic::div_mod::lemma_mod_pos_bound(ua as int, ub as int);
        assert(ua as int / 1 == ua as int);
    }
    let q: i32 = if (a < 0) == (b < 0) {
        if qa == 0x8000_0000 {
            i32::MIN
        } else {
            qa as i32
        }
    } else {
        (0 - (qa as i64)) as i32
    };
    let rem: u32 = if a < 0 && ra > 0 {
        (0x1_0000_0000 - ra) as u32
    } else {
        ra as u32
    };
    (q, rem)
}

impl VM {
    /// A machine with all registers zero, the program counter at 0, and an
    /// empty program and heap.
    pub fn new() -> (r: VM)
        ensures
            r@ == initial_state(),
    {
        let r = VM {
            registers: [0i32; 32],
            pc: 0,
            program: Vec::new(),
            heap: Vec::new(),
            remainder: 0,
            equal_flag: false,
        };
        assert(r@.registers =~= initial_state().registers);
        assert(r@.program =~= initial_state().program);
        assert(r@.heap =~= initial_state().heap);
        r
    }

    /// Runs until the machine halts or faults, and says why it stopped.
    /// Returns `None` only if it had not stopped after `u64::MAX` steps.
    pub fn run(&mut self) -> (r: Option<Halt>)
        ensures
            (final(self)@, r) == run_steps_spec(old(self)@, u64::MAX as nat),
    {
        self.run_steps(u64::MAX)
    }

    /// Runs at most `limit` steps, stopping at the first that halts; returns
    /// why it stopped, or `None` if all `limit` steps left it running.
    pub fn run_steps(&mut self, limit: u64) -> (r: Option<Halt>)
        ensures
            (final(self)@, r) == run_steps_spec(old(self)@, limit as nat),
    {
        let mut left: u64 = limit;
        while left > 0
            invariant
                run_steps_spec(self@, left as nat) == run_steps_spec(old(self)@, limit as nat),
            decreases left,
        {
            let h = self.execute_instruction();
            if h.is_some() {
                return h;
            }
            left = left - 1;
        }
        None
    }

    /// Executes exactly one step; returns why the machine stopped on it, or
    /// `None` if it is still running.
    pub fn run_once(&mut self) -> (r: Option<Halt>)
        ensures
            (final(self)@, r) == step(old(self)@),
    {
        self.execute_instruction()
    }

    /// Appends one byte to the instruction buffer.
    pub fn add_byte(&mut self, byte: u8)
        ensures
            final(self)@ == (VmState { program: old(self)@.program.push(byte), ..old(self)@ }),
    {
        self.program.push(byte);
    }

    /// Appends bytes to the instruction buffer.
    pub fn add_bytes(&mut self, bytes: &[u8])
        ensures
            final(self)@ == (VmState { program: old(self)@.program + bytes@, ..old(self)@ }),
    {
        let mut i: usize = 0;
        while i < bytes.len()
            invariant
                0 <= i <= bytes@.len(),
                self@ == (VmState { program: old(self)@.program + bytes@.subrange(0, i as int), ..old(self)@ }),
            decreases bytes@.len() - i,
        {
            self.program.push(bytes[i]);
            assert(self@.program =~= old(self)@.program + bytes@.subrange(0, i + 1));
            i = i + 1;
        }
        assert(bytes@.subrange(0, i as int) =~= bytes@);
    }

    /// The byte at the program counter; moves past it.
    fn next_8_bits(&mut self) -> (r: u8)
        requires
            old(self).pc < old(self).program.len(),
        ensures
            r == old(self)@.program[old(self).pc as int],
            final(self)@ == (VmState { pc: old(self)@.pc + 1, ..old(self)@ }),
    {
        let result = self.program[self.pc];
        self.pc = self.pc + 1;
        result
    }

    /// The two bytes at the program counter, read most significant first;
    /// moves past them.
    fn next_16_bits(&mut self) -> (r: u16)
        requires
            old(self).pc + 2 <= old(self).program.len(),
        ensures
            r == old(self)@.program[old(self).pc as int] * 256 + old(self)@.program[old(self).pc + 1],
            final(self)@ == (VmState { pc: old(self)@.pc + 2, ..old(self)@ }),
    {
        let result = (self.program[self.pc] as u16) * 256 + self.program[self.pc + 1] as u16;
        self.pc = self.pc + 2;
        result
    }

    /// Decodes the opcode at the program counter; moves past it.
    fn decode_opcode(&mut self) -> (r: Opcode)
        requires
            old(self).pc < old(self).program.len(),
        ensures
            r == opcode_of_byte(old(self)@.program[old(self).pc as int]),
            final(self)@ == (VmState { pc: old(self)@.pc + 1, ..old(self)@ }),
    {
        let opcode = Opcode::from_byte(self.program[self.pc]);
        self.pc = self.pc + 1;
        opcode
    }

    /// Whether the first `n` operand bytes of the instruction at the program
    /// counter name registers of the file.
    fn operands_name_registers(&self, n: usize) -> (r: bool)
        requires
            self.pc + 1 + n <= self.program.len(),
        ensures
            r == registers_valid(self@, n as int),
    {
        let mut k: usize = 0;
        while k < n
            invariant
                0 <= k <= n,
                self.pc + 1 + n <= self.program.len(),
                registers_valid(self@, k as int),
            decreases n - k,
        {
            if self.program[self.pc + 1 + k] as usize >= REGISTER_COUNT {
                assert(operand(self@, k as int) >= REGISTER_COUNT);
                return false;
            }
            k = k + 1;
        }
        true
    }

    /// The value of the register that an operand byte names.
    fn read_register(&mut self) -> (r: i32)
        requires
            old(self).pc < old(self).program.len(),
            old(self)@.program[old(self).pc as int] < REGISTER_COUNT,
        ensures
            r == old(self)@.registers[old(self)@.program[old(self).pc as int] as int],
            final(self)@ == (VmState { pc: old(self)@.pc + 1, ..old(self)@ }),
    {
        let index = self.next_8_bits() as usize;
        self.registers[index]
    }
    /// Grows the heap by `n` zero bytes.
    fn grow_heap(&mut self, n: usize)
        requires
            old(self)@.heap.len() + n <= usize::MAX,
        ensures
            final(self)@ == (VmState { heap: old(self)@.heap + Seq::new(n as nat, |i: int| 0u8), ..old(self)@ }),
    {
        let mut k: usize = 0;
        while k < n
            invariant
                0 <= k <= n,
                self@ == (VmState { heap: old(self)@.heap + Seq::new(k as nat, |i: int| 0u8), ..old(self)@ }),
            decreases n - k,
        {
            self.heap.push(0);
            assert(old(self)@.heap + Seq::new((k + 1) as nat, |i: int| 0u8) =~= (old(self)@.heap
                + Seq::new(k as nat, |i: int| 0u8)).push(0u8));
            k = k + 1;
        }
    }

    /// One fetch-decode-execute step. A fault leaves the machine as it was.
    fn execute_instruction(&mut self) -> (r: Option<Halt>)
        ensures
            (final(self)@, r) == step(old(self)@),
    {
        if self.pc >= self.program.len() {
            return Some(Halt::EndOfProgram);
        }
        let op = Opcode::from_byte(self.program[self.pc]);
        match op {
            Opcode::HLT => {
                self.decode_opcode();
                return Some(Halt::Halted);
            },
            Opcode::IGL => {
                self.decode_opcode();
                return Some(Halt::Illegal);
            },
            _ => {},
        }
        let n = operand_count_of(op);
        if self.program.len() - self.pc - 1 < n {
            return Some(Halt::Truncated);
        }
        let n_registers = if op == Opcode::LOAD {
            1
        } else {
            n
        };
        if !self.operands_name_registers(n_registers) {
            return Some(Halt::BadRegister);
        }
        match op {
            Opcode::LOAD => self.execute_load(),
            Opcode::ADD | Opcode::SUB | Opcode::MUL | Opcode::DIV => self.execute_arithmetic(op),
            Opcode::JMP | Opcode::JMPF | Opcode::JMPB | Opcode::JEQ | Opcode::JNEQ => self.execute_jump(op),
            Opcode::ALOC => self.execute_aloc(),
            Opcode::NOP => {
                self.decode_opcode();
                None
            },
            _ => self.execute_comparison(op),
        }
    }

    /// `load`: the register named by the first operand takes the 16-bit
    /// immediate of the next two.
    fn execute_load(&mut self) -> (r: Option<Halt>)
        requires
            ready(old(self)@, Opcode::LOAD),
        ensures
            (final(self)@, r) == execute(old(self)@, Opcode::LOAD, old(self)@.pc + 4),
    {
        let ghost s = old(self)@;
        proof {
            assert(operand(s, 0) < REGISTER_COUNT);
        }
        self.decode_opcode();
        let register = self.next_8_bits() as usize;
        let number = self.next_16_bits();
        self.registers[register] = number as i32;
        None
    }

    /// `add`, `sub`, `mul`, `div`: the third operand's register takes the
    /// result on the first two.
    #[verifier::rlimit(40)]
    fn execute_arithmetic(&mut self, op: Opcode) -> (r: Option<Halt>)
        requires
            ready(old(self)@, op),
            op == Opcode::ADD || op == Opcode::SUB || op == Opcode::MUL || op == Opcode::DIV,
        ensures
            (final(self)@, r) == execute(old(self)@, op, old(self)@.pc + 4),
    {
        let ghost s = old(self)@;
        proof {
            assert(operand(s, 0) < REGISTER_COUNT);
            assert(operand(s, 1) < REGISTER_COUNT);
            assert(operand(s, 2) < REGISTER_COUNT);
        }
        let start = self.pc;
        self.decode_opcode();
        let register1 = self.read_register();
        let register2 = self.read_register();
        let dest = self.next_8_bits() as usize;
        let value = match op {
            Opcode::ADD => register1.wrapping_add(register2),
            Opcode::SUB => register1.wrapping_sub(register2),
            Opcode::MUL => register1.wrapping_mul(register2),
            _ => {
                if register2 == 0 {
                    self.pc = start;
                    return Some(Halt::DivideByZero);
                }
                let (quotient, remainder) = divide(register1, register2);
                self.remainder = remainder;
                quotient
            },
        };
        self.registers[dest] = value;
        None
    }

    /// `jmp`, `jmpf`, `jmpb`, `jeq`, `jneq`.
    fn execute_jump(&mut self, op: Opcode) -> (r: Option<Halt>)
        requires
            ready(old(self)@, op),
            op == Opcode::JMP || op == Opcode::JMPF || op == Opcode::JMPB || op == Opcode::JEQ || op
                == Opcode::JNEQ,
        ensures
            (final(self)@, r) == execute(old(self)@, op, old(self)@.pc + 2),
    {
        let ghost s = old(self)@;
        proof {
            assert(operand(s, 0) < REGISTER_COUNT);
        }
        let start = self.pc;
        self.decode_opcode();
        let value = self.read_register();
        let taken = match op {
            Opcode::JEQ => self.equal_flag,
            Opcode::JNEQ => !self.equal_flag,
            _ => true,
        };
        if !taken {
            return None;
        }
        let target = match op {
            Opcode::JMPF => offset_pc(self.pc, value as i64),
            Opcode::JMPB => offset_pc(self.pc, 0 - (value as i64)),
            _ => {
                self.pc = address_from(value);
                return None;
            },
        };
        match target {
            Some(p) => {
                self.pc = p;
                None
            },
            None => {
                self.pc = start;
                Some(Halt::BadJump)
            },
        }
    }

    /// `aloc`: the heap grows by the value of the operand's register.
    fn execute_aloc(&mut self) -> (r: Option<Halt>)
        requires
            ready(old(self)@, Opcode::ALOC),
        ensures
            (final(self)@, r) == execute(old(self)@, Opcode::ALOC, old(self)@.pc + 2),
    {
        let ghost s = old(self)@;
        proof {
            assert(operand(s, 0) < REGISTER_COUNT);
        }
        let start = self.pc;
        self.decode_opcode();
        let size = self.read_register();
        if size < 0 || size as usize > usize::MAX - self.heap.len() {
            self.pc = start;
            return Some(Halt::BadAllocation);
        }
        self.grow_heap(size as usize);
        None
    }

    /// `eq`, `neq`, `gt`, `lt`, `gtq`, `ltq`: the flag takes the relation
    /// between the two operands' registers.
    fn execute_comparison(&mut self, op: Opcode) -> (r: Option<Halt>)
        requires
            ready(old(self)@, op),
            is_comparison(op),
        ensures
            (final(self)@, r) == execute(old(self)@, op, old(self)@.pc + 3),
    {
        let ghost s = old(self)@;
        proof {
            assert(operand(s, 0) < REGISTER_COUNT);
            assert(operand(s, 1) < REGISTER_COUNT);
        }
        self.decode_opcode();
        let register1 = self.read_register();
        let register2 = self.read_register();
        self.equal_flag = match op {
            Opcode::EQ => register1 == register2,
            Opcode::NEQ => register1 != register2,
            Opcode::GT => register1 > register2,
            Opcode::LT => register1 < register2,
            Opcode::GTQ => register1 >= register2,
            _ => register1 <= register2,
        };
        None
    }
}


/// A comparison that executes sets the flag to whether its relation holds
/// between the two operand registers; every other step leaves the flag as
/// it was.
pub proof fn lemma_flag_follows_comparisons(s: VmState)
    ensures
        ({
            let (t, h) = step(s);
            0 <= s.pc < s.program.len() && is_comparison(opcode_of_byte(s.program[s.pc])) && ready(
                s,
                opcode_of_byte(s.program[s.pc]),
            ) ==> h is None && t.equal_flag == compare(
                opcode_of_byte(s.program[s.pc]),
                reg_value(s, 0),
                reg_value(s, 1),
            ) && t.pc == s.pc + 3 && t.registers == s.registers
        }),
        ({
            let (t, h) = step(s);
            !(0 <= s.pc < s.program.len() && is_comparison(opcode_of_byte(s.program[s.pc])))
                ==> t.equal_flag == s.equal_flag
        }),
{
}

/// `load` puts the 16-bit immediate of its last two operand bytes, most
/// significant first, in the register its first operand byte names, moves
/// the program counter past its four bytes, and changes nothing else.
pub proof fn lemma_load(s: VmState)
    requires
        ready(s, Opcode::LOAD),
    ensures
        step(s) == (
            VmState {
                registers: s.registers.update(
                    operand(s, 0) as int,
                    (operand(s, 1) * 256 + operand(s, 2)) as i32,
                ),
                pc: s.pc + 4,
                ..s
            },
            None::<Halt>,
        ),
{
}

/// `jeq` and `jneq` jump to the value of their operand's register exactly
/// when the flag is set (`jeq`) or clear (`jneq`); otherwise the program
/// counter moves past the two bytes of the instruction. Either way the
/// machine keeps running.
pub proof fn lemma_conditional_jump(s: VmState, op: Opcode)
    requires
        op == Opcode::JEQ || op == Opcode::JNEQ,
        ready(s, op),
    ensures
        ({
            let (t, h) = step(s);
            let taken = if op == Opcode::JEQ {
                s.equal_flag
            } else {
                !s.equal_flag
            };
            &&& h is None
            &&& taken ==> t.pc == address_of(reg_value(s, 0))
            &&& taken && reg_value(s, 0) >= 0 ==> t.pc == reg_value(s, 0)
            &&& !taken ==> t.pc == s.pc + 2
            &&& t.program == s.program && t.remainder == s.remainder
            &&& t.registers == s.registers && t.equal_flag == s.equal_flag && t.heap == s.heap
        }),
{
}

/// An absolute jump (`jmp`, or a taken `jeq`/`jneq`) is not bounds-checked:
/// the machine keeps running, and where the target lies past the end of the
/// buffer (as every negative register value does) the next step halts
/// cleanly at the end of the program.
pub proof fn lemma_absolute_jump_out_of_range(s: VmState, op: Opcode)
    requires
        op == Opcode::JMP || (op == Opcode::JEQ && s.equal_flag) || (op == Opcode::JNEQ
            && !s.equal_flag),
        ready(s, op),
        address_of(reg_value(s, 0)) >= s.program.len(),
    ensures
        step(s).1 is None,
        step(s).0.pc == address_of(reg_value(s, 0)),
        step(step(s).0) == (step(s).0, Some(Halt::EndOfProgram)),
{
}

/// `aloc` grows the heap by exactly the value of its operand's register,
/// keeps the bytes that were there, and zeroes the new ones.
pub proof fn lemma_aloc_grows_heap(s: VmState)
    requires
        ready(s, Opcode::ALOC),
        reg_value(s, 0) >= 0,
        s.heap.len() + reg_value(s, 0) <= usize::MAX,
    ensures
        ({
            let (t, h) = step(s);
            &&& h is None
            &&& t.heap.len() == s.heap.len() + reg_value(s, 0)
            &&& t.heap.subrange(0, s.heap.len() as int) == s.heap
            &&& forall|i: int| s.heap.len() <= i < t.heap.len() ==> t.heap[i] == 0
            &&& t.registers == s.registers
        }),
{
    let (t, h) = step(s);
    assert(t.heap.subrange(0, s.heap.len() as int) =~= s.heap);
}

/// A byte outside the known opcode set decodes to `IGL`; executing it halts
/// the machine and alters no register.
pub proof fn lemma_illegal_byte_halts(s: VmState)
    requires
        0 <= s.pc < s.program.len(),
        s.program[s.pc] > 18,
    ensures
        opcode_of_byte(s.program[s.pc]) == Opcode::IGL,
        step(s).1 == Some(Halt::Illegal),
        step(s).0.registers == s.registers,
        step(s).0.pc == s.pc + 1,
{
}

} // verus!
