//! The state behind an interactive shell: the lines entered so far and the
//! machine they run on.
use vstd::prelude::*;
use crate::assembler::{encode_all, program, program_of, ParseError};
use crate::vm::{step, VmState, VM};
use vstd::string::StringSliceAdditionalSpecFns;

verus! {

/// The history of an interactive session and the machine it drives.
pub struct REPL {
    pub command_buffer: Vec<String>,
    pub vm: VM,
}

/// The value of a hexadecimal digit, or -1 for a byte that is none.
pub open spec fn hex_digit(c: u8) -> int {
    if '0' as u8 <= c && c <= '9' as u8 {
        c - '0' as u8
    } else if 'a' as u8 <= c && c <= 'f' as u8 {
        c - 'a' as u8 + 10
    } else if 'A' as u8 <= c && c <= 'F' as u8 {
        c - 'A' as u8 + 10
    } else {
        -1
    }
}

/// The number that the hexadecimal digits `d` write.
pub open spec fn hex_value(d: Seq<u8>) -> int
    decreases d.len(),
{
    if d.len() == 0 {
        0
    } else {
        hex_value(d.drop_last()) * 16 + hex_digit(d.last())
    }
}

/// A field without its leading `+`, if it has one.
pub open spec fn strip_plus(f: Seq<u8>) -> Seq<u8> {
    if f.len() > 0 && f[0] == '+' as u8 {
        f.skip(1)
    } else {
        f
    }
}

/// Whether every byte of `d` is a hexadecimal digit.
pub open spec fn all_hex_digits(d: Seq<u8>) -> bool {
    forall|k: int| 0 <= k < d.len() ==> hex_digit(#[trigger] d[k]) >= 0
}

/// One field read as a byte in base 16: an optional `+`, then one or more
/// hexadecimal digits that write a number below 256.
pub open spec fn hex_field(f: Seq<u8>) -> Option<u8> {
    let d = strip_plus(f);
    if d.len() > 0 && all_hex_digits(d) && hex_value(d) <= 255 {
        Some(hex_value(d) as u8)
    } else {
        None
    }
}

/// The end of the field that starts at `i`: the next space, or the end.
pub open spec fn field_end(b: Seq<u8>, i: int) -> int
    decreases b.len() - i,
{
    if 0 <= i < b.len() && b[i] != ' ' as u8 {
        field_end(b, i + 1)
    } else {
        i
    }
}

/// The bytes written by the fields of `b` from `i` on, each field ending at
/// a single space; `None` if any field is no byte in base 16.
pub open spec fn hex_bytes_from(b: Seq<u8>, i: int) -> Option<Seq<u8>>
    decreases b.len() - i,
{
    let e = field_end(b, i);
    match hex_field(b.subrange(i, e)) {
        None => None,
        Some(v) => if i <= e < b.len() {
            match hex_bytes_from(b, e + 1) {
                Some(rest) => Some(seq![v] + rest),
                None => None,
            }
        } else {
            Some(seq![v])
        },
    }
}

/// `p` before what `r` holds, if it holds anything.
pub open spec fn prepend(p: Seq<u8>, r: Option<Seq<u8>>) -> Option<Seq<u8>> {
    match r {
        Some(rest) => Some(p + rest),
        None => None,
    }
}

/// The value of a hexadecimal digit.
fn hex_digit_of(c: u8) -> (r: Option<u8>)
    ensures
        r matches Some(v) ==> v == hex_digit(c) && v < 16,
        r is None <==> hex_digit(c) < 0,
{
    if '0' as u8 <= c && c <= '9' as u8 {
        Some(c - '0' as u8)
    } else if 'a' as u8 <= c && c <= 'f' as u8 {
        Some(c - 'a' as u8 + 10)
    } else if 'A' as u8 <= c && c <= 'F' as u8 {
        Some(c - 'A' as u8 + 10)
    } else {
        None
    }
}

/// The end of the field at `i`.
fn scan_field(b: &[u8], i: usize) -> (r: usize)
    requires
        i <= b@.len(),
    ensures
        r == field_end(b@, i as int),
        i <= r <= b@.len(),
{
    let mut j = i;
    while j < b.len() && b[j] != ' ' as u8
        invariant
            i <= j <= b@.len(),
            field_end(b@, j as int) == field_end(b@, i as int),
        decreases b@.len() - j,
    {
        j = j + 1;
    }
    j
}

/// The field `b[i..e]` read as a byte in base 16.
fn hex_field_at(b: &[u8], i: usize, e: usize) -> (r: Option<u8>)
    requires
        i <= e <= b@.len(),
    ensures
        r == hex_field(b@.subrange(i as int, e as int)),
{
    let ghost f = b@.subrange(i as int, e as int);
    let start = if i < e && b[i] == '+' as u8 {
        i + 1
    } else {
        i
    };
    let ghost d = b@.subrange(start as int, e as int);
    assert(d =~= strip_plus(f));
    if start == e {
        return None;
    }
    let mut acc: u64 = 0;
    let mut j = start;
    while j < e
        invariant
            start <= j <= e <= b@.len(),
            d == b@.subrange(start as int, e as int),
            f == b@.subrange(i as int, e as int),
            d == strip_plus(f),
            forall|k: int| 0 <= k < j - start ==> hex_digit(#[trigger] d[k]) >= 0,
            (acc <= 255 && acc == hex_value(b@.subrange(start as int, j as int))) || (acc == 256
                && hex_value(b@.subrange(start as int, j as int)) > 255),
        decreases e - j,
    {
        let digit = match hex_digit_of(b[j]) {
            Some(v) => v,
            None => {
                assert(d[j - start] == b@[j as int]);
                assert(hex_digit(d[j - start]) < 0);
                assert(!all_hex_digits(d));
                return None;
            },
        };
        assert(b@.subrange(start as int, j + 1).drop_last() =~= b@.subrange(start as int, j as int));
        let next: u64 = if acc > 255 {
            256
        } else {
            acc * 16 + digit as u64
        };
        acc = if next > 255 {
            256
        } else {
            next
        };
        j = j + 1;
    }
    assert(b@.subrange(start as int, j as int) =~= d);
    if acc > 255 {
        None
    } else {
        Some(acc as u8)
    }
}

impl Default for REPL {
    fn default() -> (r: REPL)
        ensures
            r.command_buffer@.len() == 0,
            r.vm@ == crate::vm::initial_state(),
    {
        REPL::new()
    }
}

impl REPL {
    /// A shell with no history and a fresh machine.
    pub fn new() -> (r: REPL)
        ensures
            r.command_buffer@.len() == 0,
            r.vm@ == crate::vm::initial_state(),
    {
        REPL { command_buffer: Vec::new(), vm: VM::new() }
    }

    /// Adds a line to the history.
    pub fn record(&mut self, command: String)
        ensures
            final(self).command_buffer@ == old(self).command_buffer@.push(command),
            final(self).vm == old(self).vm,
    {
        self.command_buffer.push(command);
    }

    /// Assembles a line as a program, appends its bytes to the machine's
    /// instruction buffer and executes one step. A line that is no program
    /// is refused and changes nothing.
    pub fn submit(&mut self, line: &[u8]) -> (r: Result<Option<crate::vm::Halt>, ParseError>)
        ensures
            match program_of(line@) {
                None => r is Err && final(self).vm@ == old(self).vm@,
                Some((s, _)) => {
                    let loaded = VmState { program: old(self).vm@.program + encode_all(s), ..old(self).vm@ };
                    r == Ok::<Option<crate::vm::Halt>, ParseError>(step(loaded).1) && final(self).vm@ == step(loaded).0
                },
            },
            final(self).command_buffer == old(self).command_buffer,
    {
        match program(line) {
            Err(e) => Err(e),
            Ok((_, parsed)) => {
                let bytes = parsed.to_bytes();
                self.vm.add_bytes(bytes.as_slice());
                Ok(self.vm.run_once())
            },
        }
    }

    /// Reads bytes written in base 16 and separated by single spaces
    /// (`00 01 03 E8`); fails if any field is no byte.
    pub fn parse_hex(&mut self, i: &str) -> (r: Result<Vec<u8>, ParseError>)
        ensures
            match hex_bytes_from(i.spec_bytes(), 0) {
                Some(v) => r matches Ok(x) && x@ == v,
                None => r is Err,
            },
            *final(self) == *old(self),
    {
        let b = i.as_bytes();
        let mut results: Vec<u8> = Vec::new();
        let mut pos: usize = 0;
        loop
            invariant
                pos <= b@.len(),
                b@ == i.spec_bytes(),
                hex_bytes_from(b@, 0) == prepend(results@, hex_bytes_from(b@, pos as int)),
            decreases b@.len() - pos,
        {
            let e = scan_field(b, pos);
            match hex_field_at(b, pos, e) {
                None => {
                    return Err(ParseError);
                },
                Some(v) => {
                    if e >= b.len() {
                        results.push(v);
                        return Ok(results);
                    }
                    let ghost before = results@;
                    results.push(v);
                    proof {
                        let rest = hex_bytes_from(b@, e + 1);
                        if rest is Some {
                            assert(before + (seq![v] + rest->0) =~= results@ + rest->0);
                        }
                    }
                    pos = e + 1;
                },
            }
        }
    }
}

} // verus!
