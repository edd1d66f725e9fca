//! The execution engine: the register file, the fatal fault kinds, the
//! machine state, and the fetch-decode-execute cycle. The whole cycle is
//! specified by `spec_step`, a function from machine state to machine state
//! plus an optional fault; `Vm::step` implements exactly that function.

use vstd::prelude::*;

use crate::decode::decode;
use crate::decode::lemma_decode_wf;
use crate::decode::spec_decode;
use crate::display::Display;
use crate::display::lemma_blit_oob;
use crate::display::spec_blit_row;
use crate::display::spec_row_collision;
use crate::instr::Instruction;
use crate::instr::wf_instruction;
use crate::memory::Memory;
use crate::memory::spec_be_word;
use crate::memory::glyph_data;

verus! {

/// A fatal fault. Every kind aborts the current step and is surfaced to the
/// host; the engine never retries or recovers on its own.
#[derive(Debug, Clone, Copy, PartialEq, Eq, Structural)]
pub enum RuntimeError {
    /// The fetched word matches none of the 35 instructions.
    InvalidInstruction,
    /// A byte or word access outside the 4096-byte space, carrying the
    /// offending address.
    IllegalMemoryAccess(u16),
    /// A call with the stack already at its 16-entry capacity.
    Stackoverflow,
    /// A return with nothing on the stack.
    Stackunderflow,
}

/// The register file: program counter, the sixteen 8-bit V registers, the
/// index register I and the two host-driven timers. Plain typed storage; all
/// behaviour lives in the engine.
#[allow(non_snake_case)]
#[derive(Debug)]
pub struct Registers {
    pub pc: u16,
    pub v: Vec<u8>,
    pub I: u16,
    pub delay: u8,
    pub sound: u8,
}

impl Registers {
    /// The register file is a full bank of sixteen V registers.
    pub open spec fn wf(&self) -> bool {
        self.v.len() == 16
    }

    /// Power-on state: execution starts at 0x200 with every register and
    /// both timers at zero.
    pub fn new() -> (r: Registers)
        ensures
            r.wf(),
            r.pc == 0x200,
            r.I == 0,
            r.delay == 0,
            r.sound == 0,
            forall|i: int| 0 <= i < 16 ==> r.v@[i] == 0,
    {
        let mut v: Vec<u8> = Vec::new();
        let mut k: usize = 0;
        while k < 16
            invariant
                k <= 16,
                v@.len() == k,
                forall|i: int| 0 <= i < k ==> v@[i] == 0,
            decreases 16 - k,
        {
            v.push(0);
            k += 1;
        }
        Registers { pc: 0x200, v, I: 0, delay: 0, sound: 0 }
    }
}

/// The whole machine state as contracts see it: registers, memory, call
/// stack, framebuffer, key pad, the key-wait sub-state and the generator
/// state behind the random opcode.
pub struct VmView {
    pub pc: u16,
    pub v: Seq<u8>,
    pub i: u16,
    pub delay: u8,
    pub sound: u8,
    pub mem: Seq<u8>,
    pub stack: Seq<u16>,
    pub fb: Seq<bool>,
    pub keys: Seq<bool>,
    pub awaiting_key: Option<u8>,
    pub variable_shifts: bool,
    pub rng: u16,
}

/// The seed the random-number state starts from.
pub const RNG_SEED: u16 = 0xace1;

/// The virtual machine: memory, registers and framebuffer, plus the host-fed
/// key pad, the shift-quirk switch, the key-wait sub-state and the random
/// state.
pub struct Vm {
    pub memory: Memory,
    pub regs: Registers,
    pub display: Display,
    pub do_variable_shifts: bool,
    pub keys: Vec<bool>,
    pub awaiting_key: Option<u8>,
    pub rng_state: u16,
}

impl View for Vm {
    type V = VmView;

    open spec fn view(&self) -> VmView {
        VmView {
            pc: self.regs.pc,
            v: self.regs.v@,
            i: self.regs.I,
            delay: self.regs.delay,
            sound: self.regs.sound,
            mem: self.memory@.bytes,
            stack: self.memory@.stack,
            fb: self.display@,
            keys: self.keys@,
            awaiting_key: self.awaiting_key,
            variable_shifts: self.do_variable_shifts,
            rng: self.rng_state,
        }
    }
}

/// The low 16 bits of an integer.
pub open spec fn trunc16(x: int) -> u16 {
    (x % 0x10000) as u16
}

/// The low 8 bits of an integer.
pub open spec fn trunc8(x: int) -> u8 {
    (x % 0x100) as u8
}

/// The next state of the linear-congruential generator behind the random
/// opcode.
pub open spec fn spec_next_rng(s: u16) -> u16 {
    trunc16((s as int) * 25173 + 13849)
}

/// One register dump step after another: registers V0 to Vn-1 already done,
/// the rest copied to memory at `base + k` onward. An address past 0xfff is
/// a fault; the registers before it stay written.
pub open spec fn spec_reg_dump(s: VmView, base: u16, k: int, n: int) -> (VmView, Option<
    RuntimeError,
>)
    decreases n - k,
{
    if k >= n {
        (s, None)
    } else {
        let addr = base + k;
        if addr >= 4096 {
            (s, Some(RuntimeError::IllegalMemoryAccess(trunc16(addr))))
        } else {
            spec_reg_dump(
                VmView { mem: s.mem.update(addr, s.v[k]), ..s },
                base,
                k + 1,
                n,
            )
        }
    }
}

/// The inverse of the dump: registers filled from memory at `base + k`
/// onward.
pub open spec fn spec_reg_load(s: VmView, base: u16, k: int, n: int) -> (VmView, Option<
    RuntimeError,
>)
    decreases n - k,
{
    if k >= n {
        (s, None)
    } else {
        let addr = base + k;
        if addr >= 4096 {
            (s, Some(RuntimeError::IllegalMemoryAccess(trunc16(addr))))
        } else {
            spec_reg_load(
                VmView { v: s.v.update(k, s.mem[addr]), ..s },
                base,
                k + 1,
                n,
            )
        }
    }
}

/// The three decimal digits of V[x], hundreds first, written to I, I+1 and
/// I+2 in turn; each write can fault, leaving the earlier ones applied.
pub open spec fn spec_store_decimal(s: VmView, x: u8) -> (VmView, Option<RuntimeError>) {
    let val = s.v[x as int];
    let a = s.i as int;
    if a >= 4096 {
        (s, Some(RuntimeError::IllegalMemoryAccess(trunc16(a))))
    } else {
        let s1 = VmView { mem: s.mem.update(a, (val / 100) as u8), ..s };
        if a + 1 >= 4096 {
            (s1, Some(RuntimeError::IllegalMemoryAccess(trunc16(a + 1))))
        } else {
            let s2 = VmView { mem: s1.mem.update(a + 1, ((val / 10) % 10) as u8), ..s1 };
            if a + 2 >= 4096 {
                (s2, Some(RuntimeError::IllegalMemoryAccess(trunc16(a + 2))))
            } else {
                (VmView { mem: s2.mem.update(a + 2, (val % 10) as u8), ..s2 }, None)
            }
        }
    }
}

/// One sprite row after another: row `k` is read at `base + k` and
/// composited at `(x, y + k)`; a collision in any row sets VF and VF stays
/// set for the rest of the sprite. Rows below the bottom edge are clipped.
/// An out-of-range sprite byte address is a fault; rows before it stay
/// drawn.
pub open spec fn spec_draw(s: VmView, x: u8, y: u8, base: u16, k: int, n: int) -> (VmView, Option<
    RuntimeError,
>)
    decreases n - k,
{
    if k >= n {
        (s, None)
    } else {
        let addr = base + k;
        if addr >= 4096 {
            (s, Some(RuntimeError::IllegalMemoryAccess(trunc16(addr))))
        } else {
            let byte = s.mem[addr];
            let row = y + k;
            let coll = spec_row_collision(s.fb, x, row, byte);
            let s1 = VmView {
                fb: spec_blit_row(s.fb, x, row, byte),
                v: if coll {
                    s.v.update(15, 1)
                } else {
                    s.v
                },
                ..s
            };
            spec_draw(s1, x, y, base, k + 1, n)
        }
    }
}

/// What executing one decoded instruction does to the machine state: the
/// next state, and the fault if the instruction raised one. Effects that
/// happened before the fault point stay applied.
pub open spec fn spec_execute(s: VmView, ins: Instruction) -> (VmView, Option<RuntimeError>) {
    match ins {
        Instruction::SysJmp(_) => (s, None),
        Instruction::ClearScreen => (
            VmView { fb: Seq::new(2048, |j: int| false), ..s },
            None,
        ),
        Instruction::Return => if s.stack.len() > 0 {
            (VmView { pc: s.stack.last(), stack: s.stack.drop_last(), ..s }, None)
        } else {
            (s, Some(RuntimeError::Stackunderflow))
        },
        Instruction::Jump(a) => (VmView { pc: a, ..s }, None),
        Instruction::Call(a) => if s.stack.len() < 16 {
            (VmView { pc: a, stack: s.stack.push(s.pc), ..s }, None)
        } else {
            (s, Some(RuntimeError::Stackoverflow))
        },
        Instruction::SkipIfEqualImmidiate(x, kk) => (
            VmView {
                pc: if s.v[x as int] == kk {
                    trunc16(s.pc + 2)
                } else {
                    s.pc
                },
                ..s
            },
            None,
        ),
        Instruction::SkipIfNotEqualImmidiate(x, kk) => (
            VmView {
                pc: if s.v[x as int] != kk {
                    trunc16(s.pc + 2)
                } else {
                    s.pc
                },
                ..s
            },
            None,
        ),
        Instruction::SkipIfEqualRegister(x, y) => (
            VmView {
                pc: if s.v[x as int] == s.v[y as int] {
                    trunc16(s.pc + 2)
                } else {
                    s.pc
                },
                ..s
            },
            None,
        ),
        Instruction::LoadImmidiate(x, kk) => (VmView { v: s.v.update(x as int, kk), ..s }, None),
        Instruction::AddImmidiate(x, kk) => {
            let sum = s.v[x as int] + kk;
            let flag: u8 = if sum > 255 {
                1
            } else {
                0
            };
            (VmView { v: s.v.update(15, flag).update(x as int, trunc8(sum)), ..s }, None)
        },
        Instruction::LoadRegister(x, y) => (
            VmView { v: s.v.update(x as int, s.v[y as int]), ..s },
            None,
        ),
        Instruction::OrRegister(x, y) => (
            VmView { v: s.v.update(x as int, s.v[x as int] | s.v[y as int]), ..s },
            None,
        ),
        Instruction::AndRegister(x, y) => (
            VmView { v: s.v.update(x as int, s.v[x as int] & s.v[y as int]), ..s },
            None,
        ),
        Instruction::XorRegister(x, y) => (
            VmView { v: s.v.update(x as int, s.v[x as int] ^ s.v[y as int]), ..s },
            None,
        ),
        Instruction::AddRegister(x, y) => {
            let sum = s.v[x as int] + s.v[y as int];
            let flag: u8 = if sum > 255 {
                1
            } else {
                0
            };
            (VmView { v: s.v.update(15, flag).update(x as int, trunc8(sum)), ..s }, None)
        },
        Instruction::SubRegister(x, y) => {
            let flag: u8 = if s.v[x as int] >= s.v[y as int] {
                1
            } else {
                0
            };
            let diff = trunc8(s.v[x as int] - s.v[y as int] + 256);
            (VmView { v: s.v.update(15, flag).update(x as int, diff), ..s }, None)
        },
        Instruction::ShrRegister(x, y) => {
            let by = if s.variable_shifts {
                s.v[y as int]
            } else {
                1
            };
            let val = s.v[x as int];
            let flag = val & 1;
            let res: u8 = if by < 8 {
                val >> by
            } else {
                0
            };
            (VmView { v: s.v.update(15, flag).update(x as int, res), ..s }, None)
        },
        Instruction::SubnRegister(x, y) => {
            let flag: u8 = if s.v[y as int] >= s.v[x as int] {
                1
            } else {
                0
            };
            let diff = trunc8(s.v[y as int] - s.v[x as int] + 256);
            (VmView { v: s.v.update(15, flag).update(x as int, diff), ..s }, None)
        },
        Instruction::ShlRegister(x, y) => {
            let by = if s.variable_shifts {
                s.v[y as int]
            } else {
                1
            };
            let val = s.v[x as int];
            let flag = val >> 7;
            let res: u8 = if by < 8 {
                val << by
            } else {
                0
            };
            (VmView { v: s.v.update(15, flag).update(x as int, res), ..s }, None)
        },
        Instruction::SkipIfNotEqualRegister(x, y) => (
            VmView {
                pc: if s.v[x as int] != s.v[y as int] {
                    trunc16(s.pc + 2)
                } else {
                    s.pc
                },
                ..s
            },
            None,
        ),
        Instruction::LoadI(a) => (VmView { i: a, ..s }, None),
        Instruction::JumpV0(a) => (VmView { pc: trunc16(a + s.v[0]), ..s }, None),
        Instruction::Random(x, kk) => {
            let ns = spec_next_rng(s.rng);
            (VmView { rng: ns, v: s.v.update(x as int, trunc8(ns as int) & kk), ..s }, None)
        },
        Instruction::DisplaySprite(rx, ry, n) => {
            let x = s.v[rx as int];
            let y = s.v[ry as int];
            let s0 = VmView { v: s.v.update(15, 0), ..s };
            spec_draw(s0, x, y, s.i, 0, n as int)
        },
        Instruction::SkipIfPressed(x) => (
            VmView {
                pc: if s.keys[(s.v[x as int] & 0xf) as int] {
                    trunc16(s.pc + 2)
                } else {
                    s.pc
                },
                ..s
            },
            None,
        ),
        Instruction::SkipIfNotPressed(x) => (
            VmView {
                pc: if !s.keys[(s.v[x as int] & 0xf) as int] {
                    trunc16(s.pc + 2)
                } else {
                    s.pc
                },
                ..s
            },
            None,
        ),
        Instruction::LoadDelayTimer(x) => (VmView { v: s.v.update(x as int, s.delay), ..s }, None),
        Instruction::ReadKey(x) => (VmView { awaiting_key: Some(x), ..s }, None),
        Instruction::SetDelayTimer(x) => (VmView { delay: s.v[x as int], ..s }, None),
        Instruction::SetSoundTimer(x) => (VmView { sound: s.v[x as int], ..s }, None),
        Instruction::AddI(x) => (VmView { i: trunc16(s.i + s.v[x as int]), ..s }, None),
        Instruction::LoadSpriteLocationI(x) => (
            VmView { i: (0x100 + 5 * ((s.v[x as int] & 0xf) as int)) as u16, ..s },
            None,
        ),
        Instruction::StoreDecimalI(x) => spec_store_decimal(s, x),
        Instruction::RegDumpI(x) => spec_reg_dump(s, s.i, 0, x as int + 1),
        Instruction::RegLoadI(x) => spec_reg_load(s, s.i, 0, x as int + 1),
    }
}

/// The fetch half of a cycle: the big-endian word at the program counter is
/// read and decoded, and the counter moves past it. A word read that runs
/// off the end of the address space is a fault and leaves the counter where
/// it was; a word no instruction matches is a fault with the counter already
/// advanced.
pub open spec fn spec_fetch(s: VmView) -> (VmView, Result<Instruction, RuntimeError>) {
    if s.pc > 4095 {
        (s, Err(RuntimeError::IllegalMemoryAccess(s.pc)))
    } else if s.pc == 4095 {
        (s, Err(RuntimeError::IllegalMemoryAccess(4096)))
    } else {
        let w = spec_be_word(s.mem[s.pc as int], s.mem[s.pc as int + 1]);
        let s2 = VmView { pc: (s.pc + 2) as u16, ..s };
        match spec_decode(w) {
            Some(ins) => (s2, Ok(ins)),
            None => (s2, Err(RuntimeError::InvalidInstruction)),
        }
    }
}

/// One whole cycle. While the machine awaits a key the cycle is a no-op;
/// otherwise it is fetch, decode and execute, with any fault passed through.
pub open spec fn spec_step(s: VmView) -> (VmView, Option<RuntimeError>) {
    if s.awaiting_key is Some {
        (s, None)
    } else {
        let fetched = spec_fetch(s);
        match fetched.1 {
            Err(e) => (fetched.0, Some(e)),
            Ok(ins) => spec_execute(fetched.0, ins),
        }
    }
}

impl Vm {
    /// Memory, registers, framebuffer and key pad are all the right size,
    /// and a pending key wait always names a real register.
    pub open spec fn wf(&self) -> bool {
        &&& self.memory.wf()
        &&& self.regs.wf()
        &&& self.display.wf()
        &&& self.keys.len() == 16
        &&& (self.awaiting_key matches Some(r) ==> r < 16)
    }

    /// Boots a machine from a ROM image: the glyph table in its reserved
    /// region, the image at 0x200 onward, execution poised at 0x200 over a
    /// cleared framebuffer, with no key held and no key wait pending. An
    /// image that would not fit in front of the end of the address space is
    /// rejected whole.
    pub fn init(rom: &[u8]) -> (r: Result<Vm, RuntimeError>)
        ensures
            rom@.len() < 0xe00 <==> r is Ok,
            rom@.len() >= 0xe00 ==> r == Err::<Vm, RuntimeError>(
                RuntimeError::IllegalMemoryAccess(0x1000),
            ),
            r matches Ok(vm) ==> ({
                &&& vm.wf()
                &&& vm@.pc == 0x200
                &&& vm@.i == 0
                &&& vm@.delay == 0
                &&& vm@.sound == 0
                &&& vm@.v.len() == 16
                &&& (forall|j: int| 0 <= j < 16 ==> vm@.v[j] == 0)
                &&& vm@.stack == Seq::<u16>::empty()
                &&& vm@.fb.len() == 2048
                &&& (forall|j: int| 0 <= j < 2048 ==> vm@.fb[j] == false)
                &&& vm@.keys.len() == 16
                &&& (forall|j: int| 0 <= j < 16 ==> vm@.keys[j] == false)
                &&& vm@.awaiting_key is None
                &&& vm@.variable_shifts == false
                &&& vm@.rng == RNG_SEED
                &&& vm@.mem.len() == 4096
                &&& (forall|j: int| 0x100 <= j < 0x150 ==> vm@.mem[j] == glyph_data()[j - 0x100])
                &&& (forall|j: int|
                    0x200 <= j < 0x200 + rom@.len() ==> vm@.mem[j] == rom@[j - 0x200])
                &&& (forall|j: int|
                    0 <= j < 4096 && !(0x100 <= j < 0x150) && !(0x200 <= j < 0x200 + rom@.len())
                        ==> vm@.mem[j] == 0xcc)
            }),
    {
        if rom.len() >= 0xe00 {
            return Err(RuntimeError::IllegalMemoryAccess(0x1000));
        }
        let mut memory = Memory::empty();
        memory.init_interpreter_data();
        match memory.load_rom(rom) {
            Ok(_) => {},
            Err(e) => {
                return Err(e);
            },
        }
        let mut keys: Vec<bool> = Vec::new();
        let mut k: usize = 0;
        while k < 16
            invariant
                k <= 16,
                keys@.len() == k,
                forall|i: int| 0 <= i < k ==> keys@[i] == false,
            decreases 16 - k,
        {
            keys.push(false);
            k += 1;
        }
        Ok(
            Vm {
                memory,
                regs: Registers::new(),
                display: Display::new(),
                do_variable_shifts: false,
                keys,
                awaiting_key: None,
                rng_state: RNG_SEED,
            },
        )
    }

    /// Reads the big-endian word at the program counter, moves the counter
    /// past it and decodes it; `spec_fetch` says exactly what comes back and
    /// where the counter ends up.
    pub fn fetch_next_instruction(&mut self) -> (r: Result<Instruction, RuntimeError>)
        requires
            old(self).wf(),
        ensures
            final(self).wf(),
            final(self)@ == spec_fetch(old(self)@).0,
            r == spec_fetch(old(self)@).1,
    {
        let pc = self.regs.pc;
        let word = match self.memory.load_u16(pc) {
            Ok(w) => w,
            Err(e) => {
                return Err(e);
            },
        };
        self.regs.pc = pc + 2;
        match decode(word) {
            Some(ins) => Ok(ins),
            None => Err(RuntimeError::InvalidInstruction),
        }
    }

    /// One whole cycle: a no-op while a key wait is pending, otherwise
    /// fetch, decode and execute, as `spec_step` lays it out. Any fault
    /// aborts the step; whatever the instruction changed before the fault
    /// point stays changed.
    pub fn step(&mut self) -> (r: Result<(), RuntimeError>)
        requires
            old(self).wf(),
        ensures
            final(self).wf(),
            final(self)@ == spec_step(old(self)@).0,
            (match r {
                Ok(_) => spec_step(old(self)@).1 is None,
                Err(e) => spec_step(old(self)@).1 == Some(e),
            }),
    {
        if self.awaiting_key.is_some() {
            return Ok(());
        }
        let next = match self.fetch_next_instruction() {
            Ok(ins) => ins,
            Err(e) => {
                return Err(e);
            },
        };
        proof {
            lemma_decode_wf(
                spec_be_word(
                    old(self)@.mem[old(self)@.pc as int],
                    old(self)@.mem[old(self)@.pc as int + 1],
                ),
            );
        }
        self.process_next_instruction(next)
    }

    /// Executes one decoded instruction against the current state;
    /// `spec_execute` says exactly what it does to the state and when it
    /// faults.
    #[verifier::rlimit(60)]
    pub fn process_next_instruction(&mut self, next: Instruction) -> (r: Result<
        (),
        RuntimeError,
    >)
        requires
            old(self).wf(),
            wf_instruction(next),
        ensures
            final(self).wf(),
            final(self)@ == spec_execute(old(self)@, next).0,
            (match r {
                Ok(_) => spec_execute(old(self)@, next).1 is None,
                Err(e) => spec_execute(old(self)@, next).1 == Some(e),
            }),
    {
        match next {
            Instruction::SysJmp(_) => Ok(()),
            Instruction::ClearScreen => {
                self.display.clear();
                proof {
                    assert(self.display@ =~= Seq::new(2048, |j: int| false));
                }
                Ok(())
            },
            Instruction::Return => {
                match self.memory.stack.pop() {
                    Ok(addr) => {
                        self.regs.pc = addr;
                        Ok(())
                    },
                    Err(e) => Err(e),
                }
            },
            Instruction::Jump(a) => {
                self.regs.pc = a;
                Ok(())
            },
            Instruction::Call(a) => {
                match self.memory.stack.push(self.regs.pc) {
                    Ok(_) => {
                        self.regs.pc = a;
                        Ok(())
                    },
                    Err(e) => Err(e),
                }
            },
            Instruction::SkipIfEqualImmidiate(x, kk) => {
                if self.regs.v[x as usize] == kk {
                    self.regs.pc = pc_skip(self.regs.pc);
                }
                Ok(())
            },
            Instruction::SkipIfNotEqualImmidiate(x, kk) => {
                if self.regs.v[x as usize] != kk {
                    self.regs.pc = pc_skip(self.regs.pc);
                }
                Ok(())
            },
            Instruction::SkipIfEqualRegister(x, y) => {
                if self.regs.v[x as usize] == self.regs.v[y as usize] {
                    self.regs.pc = pc_skip(self.regs.pc);
                }
                Ok(())
            },
            Instruction::LoadImmidiate(x, kk) => {
                self.regs.v[x as usize] = kk;
                Ok(())
            },
            Instruction::AddImmidiate(x, kk) => {
                let sum: u16 = self.regs.v[x as usize] as u16 + kk as u16;
                let flag: u8 = if sum > 255 {
                    1
                } else {
                    0
                };
                self.regs.v[15] = flag;
                self.regs.v[x as usize] = (sum % 256) as u8;
                Ok(())
            },
            Instruction::LoadRegister(x, y) => {
                self.regs.v[x as usize] = self.regs.v[y as usize];
                Ok(())
            },
            Instruction::OrRegister(x, y) => {
                self.regs.v[x as usize] = self.regs.v[x as usize] | self.regs.v[y as usize];
                Ok(())
            },
            Instruction::AndRegister(x, y) => {
                self.regs.v[x as usize] = self.regs.v[x as usize] & self.regs.v[y as usize];
                Ok(())
            },
            Instruction::XorRegister(x, y) => {
                self.regs.v[x as usize] = self.regs.v[x as usize] ^ self.regs.v[y as usize];
                Ok(())
            },
            Instruction::AddRegister(x, y) => {
                let sum: u16 = self.regs.v[x as usize] as u16 + self.regs.v[y as usize] as u16;
                let flag: u8 = if sum > 255 {
                    1
                } else {
                    0
                };
                self.regs.v[15] = flag;
                self.regs.v[x as usize] = (sum % 256) as u8;
                Ok(())
            },
            Instruction::SubRegister(x, y) => {
                let a = self.regs.v[x as usize];
                let b = self.regs.v[y as usize];
                let flag: u8 = if a >= b {
                    1
                } else {
                    0
                };
                self.regs.v[15] = flag;
                self.regs.v[x as usize] = ((a as u16 + 256 - b as u16) % 256) as u8;
                Ok(())
            },
            Instruction::ShrRegister(x, y) => {
                let by = if self.do_variable_shifts {
                    self.regs.v[y as usize]
                } else {
                    1
                };
                let val = self.regs.v[x as usize];
                self.regs.v[15] = val & 1;
                self.regs.v[x as usize] = if by < 8 {
                    val >> by
                } else {
                    0
                };
                Ok(())
            },
            Instruction::SubnRegister(x, y) => {
                let a = self.regs.v[x as usize];
                let b = self.regs.v[y as usize];
                let flag: u8 = if b >= a {
                    1
                } else {
                    0
                };
                self.regs.v[15] = flag;
                self.regs.v[x as usize] = ((b as u16 + 256 - a as u16) % 256) as u8;
                Ok(())
            },
            Instruction::ShlRegister(x, y) => {
                let by = if self.do_variable_shifts {
                    self.regs.v[y as usize]
                } else {
                    1
                };
                let val = self.regs.v[x as usize];
                self.regs.v[15] = val >> 7;
                self.regs.v[x as usize] = if by < 8 {
                    val << by
                } else {
                    0
                };
                Ok(())
            },
            Instruction::SkipIfNotEqualRegister(x, y) => {
                if self.regs.v[x as usize] != self.regs.v[y as usize] {
                    self.regs.pc = pc_skip(self.regs.pc);
                }
                Ok(())
            },
            Instruction::LoadI(a) => {
                self.regs.I = a;
                Ok(())
            },
            Instruction::JumpV0(a) => {
                self.regs.pc = a + self.regs.v[0] as u16;
                Ok(())
            },
            Instruction::Random(x, kk) => {
                let m = self.rng_state.wrapping_mul(25173);
                let ns = m.wrapping_add(13849);
                proof {
                    lemma_lcg_step(old(self)@.rng, m, ns);
                }
                self.rng_state = ns;
                self.regs.v[x as usize] = (ns % 256) as u8 & kk;
                Ok(())
            },
            Instruction::DisplaySprite(rx, ry, n) => {
                let x = self.regs.v[rx as usize];
                let y = self.regs.v[ry as usize];
                let base = self.regs.I;
                let nn: usize = n as usize;
                self.regs.v[15] = 0;
                let ghost s0 = self@;
                let mut k: usize = 0;
                while k < nn
                    invariant
                        k <= nn,
                        self.wf(),
                        next == Instruction::DisplaySprite(rx, ry, n),
                        rx < 16,
                        ry < 16,
                        x == old(self)@.v[rx as int],
                        y == old(self)@.v[ry as int],
                        base == old(self)@.i,
                        nn == n as int,
                        s0 == (VmView { v: old(self)@.v.update(15, 0), ..old(self)@ }),
                        spec_draw(s0, x, y, base, 0, nn as int) == spec_draw(
                            self@,
                            x,
                            y,
                            base,
                            k as int,
                            nn as int,
                        ),
                    decreases nn - k,
                {
                    let addr32: u32 = base as u32 + k as u32;
                    if addr32 >= 4096 {
                        proof {
                            assert(spec_draw(self@, x, y, base, k as int, nn as int) == (
                                self@,
                                Some(RuntimeError::IllegalMemoryAccess(trunc16(base as int + k))),
                            ));
                        }
                        return Err(
                            RuntimeError::IllegalMemoryAccess(#[verifier::truncate] (addr32 as u16)),
                        );
                    }
                    let byte = match self.memory.load_u8(addr32 as u16) {
                        Ok(b) => b,
                        Err(e) => {
                            return Err(e);
                        },
                    };
                    let row32: u16 = y as u16 + k as u16;
                    let mut c: u8 = 0;
                    let ghost pre = self@;
                    if row32 < 32 {
                        self.display.render_sprite_byte_at(x, row32 as u8, byte, &mut c);
                    }
                    proof {
                        let row = y as int + k;
                        if !(row32 < 32) {
                            lemma_blit_oob(pre.fb, x, row, byte, 8);
                        }
                    }
                    if c == 1 {
                        self.regs.v[15] = 1;
                    }
                    proof {
                        let row = y as int + k;
                        let coll = spec_row_collision(pre.fb, x, row, byte);
                        assert(self@ == VmView {
                            fb: spec_blit_row(pre.fb, x, row, byte),
                            v: if coll {
                                pre.v.update(15, 1)
                            } else {
                                pre.v
                            },
                            ..pre
                        });
                        assert(spec_draw(pre, x, y, base, k as int, nn as int) == spec_draw(
                            self@,
                            x,
                            y,
                            base,
                            k + 1,
                            nn as int,
                        ));
                    }
                    k += 1;
                }
                Ok(())
            },
            Instruction::SkipIfPressed(x) => {
                let vx = self.regs.v[x as usize];
                proof {
                    assert(vx & 0xf < 16) by (bit_vector);
                }
                if self.keys[(vx & 0xf) as usize] {
                    self.regs.pc = pc_skip(self.regs.pc);
                }
                Ok(())
            },
            Instruction::SkipIfNotPressed(x) => {
                let vx = self.regs.v[x as usize];
                proof {
                    assert(vx & 0xf < 16) by (bit_vector);
                }
                if !self.keys[(vx & 0xf) as usize] {
                    self.regs.pc = pc_skip(self.regs.pc);
                }
                Ok(())
            },
            Instruction::LoadDelayTimer(x) => {
                self.regs.v[x as usize] = self.regs.delay;
                Ok(())
            },
            Instruction::ReadKey(x) => {
                self.awaiting_key = Some(x);
                Ok(())
            },
            Instruction::SetDelayTimer(x) => {
                self.regs.delay = self.regs.v[x as usize];
                Ok(())
            },
            Instruction::SetSoundTimer(x) => {
                self.regs.sound = self.regs.v[x as usize];
                Ok(())
            },
            Instruction::AddI(x) => {
                self.regs.I = i_add(self.regs.I, self.regs.v[x as usize]);
                Ok(())
            },
            Instruction::LoadSpriteLocationI(x) => {
                let vx = self.regs.v[x as usize];
                proof {
                    assert(vx & 0xf < 16) by (bit_vector);
                }
                self.regs.I = 0x100 + 5 * ((vx & 0xf) as u16);
                Ok(())
            },
            Instruction::StoreDecimalI(x) => {
                let val = self.regs.v[x as usize];
                let a = self.regs.I;
                match self.memory.store_u8(a, val / 100) {
                    Ok(_) => {},
                    Err(e) => {
                        return Err(e);
                    },
                }
                match self.memory.store_u8(a + 1, (val / 10) % 10) {
                    Ok(_) => {},
                    Err(e) => {
                        return Err(e);
                    },
                }
                match self.memory.store_u8(a + 2, val % 10) {
                    Ok(_) => {},
                    Err(e) => {
                        return Err(e);
                    },
                }
                Ok(())
            },
            Instruction::RegDumpI(x) => {
                let n: usize = x as usize + 1;
                let base = self.regs.I;
                let mut k: usize = 0;
                while k < n
                    invariant
                        k <= n,
                        n == x as int + 1,
                        x < 16,
                        self.wf(),
                        next == Instruction::RegDumpI(x),
                        base == old(self)@.i,
                        spec_reg_dump(old(self)@, base, 0, n as int) == spec_reg_dump(
                            self@,
                            base,
                            k as int,
                            n as int,
                        ),
                    decreases n - k,
                {
                    let addr32: u32 = base as u32 + k as u32;
                    if addr32 >= 4096 {
                        proof {
                            assert(spec_reg_dump(self@, base, k as int, n as int) == (
                                self@,
                                Some(RuntimeError::IllegalMemoryAccess(trunc16(base as int + k))),
                            ));
                        }
                        return Err(
                            RuntimeError::IllegalMemoryAccess(#[verifier::truncate] (addr32 as u16)),
                        );
                    }
                    let ghost pre = self@;
                    let res = self.memory.store_u8(addr32 as u16, self.regs.v[k]);
                    proof {
                        assert(self@ == VmView {
                            mem: pre.mem.update(base as int + k, pre.v[k as int]),
                            ..pre
                        });
                        assert(spec_reg_dump(pre, base, k as int, n as int) == spec_reg_dump(
                            self@,
                            base,
                            k + 1,
                            n as int,
                        ));
                    }
                    k += 1;
                }
                Ok(())
            },
            Instruction::RegLoadI(x) => {
                let n: usize = x as usize + 1;
                let base = self.regs.I;
                let mut k: usize = 0;
                while k < n
                    invariant
                        k <= n,
                        n == x as int + 1,
                        x < 16,
                        self.wf(),
                        next == Instruction::RegLoadI(x),
                        base == old(self)@.i,
                        spec_reg_load(old(self)@, base, 0, n as int) == spec_reg_load(
                            self@,
                            base,
                            k as int,
                            n as int,
                        ),
                    decreases n - k,
                {
                    let addr32: u32 = base as u32 + k as u32;
                    if addr32 >= 4096 {
                        proof {
                            assert(spec_reg_load(self@, base, k as int, n as int) == (
                                self@,
                                Some(RuntimeError::IllegalMemoryAccess(trunc16(base as int + k))),
                            ));
                        }
                        return Err(
                            RuntimeError::IllegalMemoryAccess(#[verifier::truncate] (addr32 as u16)),
                        );
                    }
                    let val = match self.memory.load_u8(addr32 as u16) {
                        Ok(b) => b,
                        Err(e) => {
                            return Err(e);
                        },
                    };
                    let ghost pre = self@;
                    self.regs.v[k] = val;
                    proof {
                        assert(self@ == VmView {
                            v: pre.v.update(k as int, pre.mem[base as int + k]),
                            ..pre
                        });
                        assert(spec_reg_load(pre, base, k as int, n as int) == spec_reg_load(
                            self@,
                            base,
                            k + 1,
                            n as int,
                        ));
                    }
                    k += 1;
                }
                Ok(())
            },
        }
    }

    /// Marks a key as held and, when the machine is waiting on a key, hands
    /// the code to the waiting register and ends the wait.
    pub fn press_key(&mut self, code: u8)
        requires
            old(self).wf(),
            code < 16,
        ensures
            final(self).wf(),
            (match old(self)@.awaiting_key {
                Some(reg) => final(self)@ == VmView {
                    keys: old(self)@.keys.update(code as int, true),
                    v: old(self)@.v.update(reg as int, code),
                    awaiting_key: None,
                    ..old(self)@
                },
                None => final(self)@ == VmView {
                    keys: old(self)@.keys.update(code as int, true),
                    ..old(self)@
                },
            }),
    {
        self.keys[code as usize] = true;
        match self.awaiting_key {
            Some(reg) => {
                self.regs.v[reg as usize] = code;
                self.awaiting_key = None;
            },
            None => {},
        }
    }

    /// Marks a key as released. A release never ends a key wait: the wait
    /// ends on the next press.
    pub fn release_key(&mut self, code: u8)
        requires
            old(self).wf(),
            code < 16,
        ensures
            final(self).wf(),
            final(self)@ == (VmView { keys: old(self)@.keys.update(code as int, false), ..old(self)@ }),
    {
        self.keys[code as usize] = false;
    }
}

/// The program counter moved past one more instruction, wrapping at the top
/// of the 16-bit range.
fn pc_skip(pc: u16) -> (r: u16)
    ensures
        r == trunc16(pc as int + 2),
{
    pc.wrapping_add(2)
}

/// The index register after an 8-bit addend, wrapping at the top of the
/// 16-bit range.
fn i_add(i: u16, v: u8) -> (r: u16)
    ensures
        r == trunc16(i as int + v as int),
{
    i.wrapping_add(v as u16)
}

/// One step of the random-number generator, related to its wrapping pieces:
/// multiply then add, both modulo 2^16.
proof fn lemma_lcg_step(s: u16, m: u16, ns: u16)
    requires
        m == vstd::wrapping::u16_specs::wrapping_mul(s, 25173),
        ns == vstd::wrapping::u16_specs::wrapping_add(m, 13849),
    ensures
        ns == spec_next_rng(s),
{
    let a = s as int * 25173;
    vstd::arithmetic::div_mod::lemma_fundamental_div_mod(a, 0x10000);
    vstd::arithmetic::div_mod::lemma_mod_bound(a, 0x10000);
    assert(m as int == a % 0x10000);
    if m as int + 13849 < 0x10000 {
        vstd::arithmetic::div_mod::lemma_fundamental_div_mod_converse(
            a + 13849,
            0x10000,
            a / 0x10000,
            m as int + 13849,
        );
    } else {
        vstd::arithmetic::div_mod::lemma_fundamental_div_mod_converse(
            a + 13849,
            0x10000,
            a / 0x10000 + 1,
            m as int + 13849 - 0x10000,
        );
    }
}

} // verus!
