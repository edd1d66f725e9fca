//! The 4096-byte address space, the fixed-depth call stack it owns, the
//! built-in glyph table and the ROM loader. Out-of-range accesses are faults,
//! never silent wrap-arounds.

use vstd::prelude::*;

use crate::vm::RuntimeError;

verus! {

/// The 16 built-in glyph sprites, five bytes per hexadecimal digit, in digit
/// order 0 to F.
pub open spec fn glyph_data() -> Seq<u8> {
    seq![
        0xf0u8, 0x90, 0x90, 0x90, 0xf0,
        0x20, 0x60, 0x20, 0x20, 0x70,
        0xf0, 0x10, 0xf0, 0x80, 0xf0,
        0xf0, 0x10, 0xf0, 0x10, 0xf0,
        0x90, 0x90, 0xf0, 0x10, 0x10,
        0xf0, 0x80, 0xf0, 0x10, 0xf0,
        0xf0, 0x80, 0xf0, 0x90, 0xf0,
        0xf0, 0x10, 0x20, 0x40, 0x40,
        0xf0, 0x90, 0xf0, 0x90, 0xf0,
        0xf0, 0x90, 0xf0, 0x10, 0xf0,
        0xf0, 0x90, 0xf0, 0x90, 0x90,
        0xe0, 0x90, 0xe0, 0x90, 0xe0,
        0xf0, 0x80, 0x80, 0x80, 0xf0,
        0xe0, 0x90, 0x90, 0x90, 0xe0,
        0xf0, 0x80, 0xf0, 0x80, 0xf0,
        0xf0, 0x80, 0xf0, 0x80, 0x80,
    ]
}

/// The glyph table as bytes, in the order it is copied into memory.
fn glyph_table() -> (v: Vec<u8>)
    ensures
        v@ == glyph_data(),
{
    let v: Vec<u8> = vec![
        0xf0u8, 0x90, 0x90, 0x90, 0xf0,
        0x20, 0x60, 0x20, 0x20, 0x70,
        0xf0, 0x10, 0xf0, 0x80, 0xf0,
        0xf0, 0x10, 0xf0, 0x10, 0xf0,
        0x90, 0x90, 0xf0, 0x10, 0x10,
        0xf0, 0x80, 0xf0, 0x10, 0xf0,
        0xf0, 0x80, 0xf0, 0x90, 0xf0,
        0xf0, 0x10, 0x20, 0x40, 0x40,
        0xf0, 0x90, 0xf0, 0x90, 0xf0,
        0xf0, 0x90, 0xf0, 0x10, 0xf0,
        0xf0, 0x90, 0xf0, 0x90, 0x90,
        0xe0, 0x90, 0xe0, 0x90, 0xe0,
        0xf0, 0x80, 0x80, 0x80, 0xf0,
        0xe0, 0x90, 0x90, 0x90, 0xe0,
        0xf0, 0x80, 0xf0, 0x80, 0xf0,
        0xf0, 0x80, 0xf0, 0x80, 0x80,
    ];
    proof {
        assert(v@ =~= glyph_data());
    }
    v
}

/// The big-endian 16-bit word formed by two consecutive bytes: the high byte
/// comes first.
pub open spec fn spec_be_word(hi: u8, lo: u8) -> u16 {
    (256 * (hi as int) + (lo as int)) as u16
}

/// The fixed-capacity call stack: up to 16 return addresses and a pointer
/// that never leaves [0, 16]. A push at capacity and a pop on empty are
/// faults, detected before anything is written.
#[derive(Debug)]
pub struct Stack {
    pub sp: usize,
    pub raw: Vec<u16>,
}

impl View for Stack {
    type V = Seq<u16>;

    /// The live entries, bottom first.
    open spec fn view(&self) -> Seq<u16> {
        self.raw@.take(self.sp as int)
    }
}

impl Stack {
    /// The backing storage always holds 16 slots and the pointer stays in
    /// bounds.
    pub open spec fn wf(&self) -> bool {
        self.raw.len() == 16 && self.sp <= 16
    }

    /// An empty stack over zeroed storage.
    pub fn init() -> (s: Stack)
        ensures
            s.wf(),
            s@ == Seq::<u16>::empty(),
    {
        let mut raw: Vec<u16> = Vec::new();
        let mut k: usize = 0;
        while k < 16
            invariant
                k <= 16,
                raw@.len() == k,
            decreases 16 - k,
        {
            raw.push(0);
            k += 1;
        }
        let s = Stack { sp: 0, raw };
        proof {
            assert(s@ =~= Seq::<u16>::empty());
        }
        s
    }

    /// Pushes a return address; fails with a stack-overflow fault, and
    /// changes nothing, when the stack already holds 16 entries.
    pub fn push(&mut self, val: u16) -> (r: Result<(), RuntimeError>)
        requires
            old(self).wf(),
        ensures
            final(self).wf(),
            old(self)@.len() < 16 ==> r == Ok::<(), RuntimeError>(())
                && final(self)@ == old(self)@.push(val),
            old(self)@.len() == 16 ==> r == Err::<(), RuntimeError>(RuntimeError::Stackoverflow)
                && final(self)@ == old(self)@,
    {
        if self.sp < 16 {
            self.raw[self.sp] = val;
            self.sp = self.sp + 1;
            proof {
                assert(self@ =~= old(self)@.push(val));
            }
            Ok(())
        } else {
            Err(RuntimeError::Stackoverflow)
        }
    }

    /// Pops the most recent return address; fails with a stack-underflow
    /// fault, and changes nothing, when the stack is empty.
    pub fn pop(&mut self) -> (r: Result<u16, RuntimeError>)
        requires
            old(self).wf(),
        ensures
            final(self).wf(),
            old(self)@.len() > 0 ==> r == Ok::<u16, RuntimeError>(old(self)@.last())
                && final(self)@ == old(self)@.drop_last(),
            old(self)@.len() == 0 ==> r == Err::<u16, RuntimeError>(RuntimeError::Stackunderflow)
                && final(self)@ == old(self)@,
    {
        if self.sp == 0 {
            Err(RuntimeError::Stackunderflow)
        } else {
            self.sp = self.sp - 1;
            let val = self.raw[self.sp];
            proof {
                assert(self@ =~= old(self)@.drop_last());
            }
            Ok(val)
        }
    }

    /// Reads the top-of-stack slot without moving the pointer; fails with a
    /// stack-underflow fault when the stack is empty.
    pub fn peek(&self) -> (r: Result<u16, RuntimeError>)
        requires
            self.wf(),
        ensures
            self@.len() > 0 ==> r == Ok::<u16, RuntimeError>(self@.last()),
            self@.len() == 0 ==> r == Err::<u16, RuntimeError>(RuntimeError::Stackunderflow),
    {
        if self.sp == 0 {
            Err(RuntimeError::Stackunderflow)
        } else {
            Ok(self.raw[self.sp - 1])
        }
    }

    /// The current depth.
    pub fn sp(&self) -> (r: u16)
        requires
            self.wf(),
        ensures
            r as int == self@.len(),
    {
        self.sp as u16
    }
}

/// Push then pop is the identity: the popped value is the pushed one and the
/// stack below it is untouched.
pub proof fn lemma_stack_push_pop(s: Seq<u16>, val: u16)
    ensures
        s.push(val).last() == val,
        s.push(val).drop_last() == s,
{
    assert(s.push(val).drop_last() =~= s);
}

/// What a memory value looks like in contracts: the 4096 bytes of the
/// address space and the live call-stack entries.
pub struct MemoryView {
    pub bytes: Seq<u8>,
    pub stack: Seq<u16>,
}

/// The address space plus the call stack it owns. Every byte-addressed
/// operation checks its address against the 4096-byte bound.
pub struct Memory {
    pub bytes: Vec<u8>,
    pub stack: Stack,
}

impl View for Memory {
    type V = MemoryView;

    open spec fn view(&self) -> MemoryView {
        MemoryView { bytes: self.bytes@, stack: self.stack@ }
    }
}

impl Memory {
    /// The buffer spans the whole address space and the stack is intact.
    pub open spec fn wf(&self) -> bool {
        self.bytes.len() == 4096 && self.stack.wf()
    }

    /// A fresh memory: every byte holds the filler 0xcc and the stack is
    /// empty.
    pub fn empty() -> (m: Memory)
        ensures
            m.wf(),
            m@.bytes.len() == 4096,
            forall|i: int| 0 <= i < 4096 ==> m@.bytes[i] == 0xcc,
            m@.stack == Seq::<u16>::empty(),
    {
        let mut bytes: Vec<u8> = Vec::new();
        let mut k: usize = 0;
        while k < 4096
            invariant
                k <= 4096,
                bytes@.len() == k,
                forall|i: int| 0 <= i < k ==> bytes@[i] == 0xcc,
            decreases 4096 - k,
        {
            bytes.push(0xcc);
            k += 1;
        }
        Memory { bytes, stack: Stack::init() }
    }

    /// Reads one byte; an address past 0xfff is an illegal-access fault.
    pub fn load_u8(&self, addr: u16) -> (r: Result<u8, RuntimeError>)
        requires
            self.wf(),
        ensures
            addr < 4096 ==> r == Ok::<u8, RuntimeError>(self@.bytes[addr as int]),
            addr >= 4096 ==> r == Err::<u8, RuntimeError>(RuntimeError::IllegalMemoryAccess(addr)),
    {
        if addr < 4096 {
            Ok(self.bytes[addr as usize])
        } else {
            Err(RuntimeError::IllegalMemoryAccess(addr))
        }
    }

    /// Reads a big-endian 16-bit word: the high byte at `addr`, the low byte
    /// at `addr + 1`. Faults on the first of the two bytes that is out of
    /// range.
    pub fn load_u16(&self, addr: u16) -> (r: Result<u16, RuntimeError>)
        requires
            self.wf(),
        ensures
            addr < 4095 ==> r == Ok::<u16, RuntimeError>(
                spec_be_word(self@.bytes[addr as int], self@.bytes[addr as int + 1]),
            ),
            addr == 4095 ==> r == Err::<u16, RuntimeError>(RuntimeError::IllegalMemoryAccess(4096)),
            addr > 4095 ==> r == Err::<u16, RuntimeError>(RuntimeError::IllegalMemoryAccess(addr)),
    {
        let hi = self.load_u8(addr)?;
        let lo = self.load_u8(addr + 1)?;
        Ok(256 * (hi as u16) + (lo as u16))
    }

    /// Writes one byte; an address past 0xfff is an illegal-access fault and
    /// changes nothing.
    pub fn store_u8(&mut self, addr: u16, value: u8) -> (r: Result<(), RuntimeError>)
        requires
            old(self).wf(),
        ensures
            final(self).wf(),
            final(self)@.stack == old(self)@.stack,
            addr < 4096 ==> r == Ok::<(), RuntimeError>(())
                && final(self)@.bytes == old(self)@.bytes.update(addr as int, value),
            addr >= 4096 ==> r == Err::<(), RuntimeError>(RuntimeError::IllegalMemoryAccess(addr))
                && final(self)@.bytes == old(self)@.bytes,
    {
        if addr < 4096 {
            self.bytes[addr as usize] = value;
            Ok(())
        } else {
            Err(RuntimeError::IllegalMemoryAccess(addr))
        }
    }

    /// The whole address space, read-only.
    pub fn raw(&self) -> (r: &Vec<u8>)
        ensures
            r@ == self@.bytes,
    {
        &self.bytes
    }

    /// The whole address space, writable. Guest programs are trusted: the
    /// glyph region is not write-protected.
    pub fn raw_mut(&mut self) -> (r: &mut Vec<u8>)
        ensures
            r@ == old(self)@.bytes,
            final(self)@.bytes == final(r)@,
            final(self)@.stack == old(self)@.stack,
            old(self).wf() && final(r)@.len() == 4096 ==> final(self).wf(),
    {
        &mut self.bytes
    }

    /// The call stack, read-only.
    pub fn stack(&self) -> (r: &Stack)
        ensures
            r@ == self@.stack,
            self.wf() ==> r.wf(),
    {
        &self.stack
    }

    /// The call stack, writable.
    pub fn stack_mut(&mut self) -> (r: &mut Stack)
        ensures
            r@ == old(self)@.stack,
            old(self).wf() ==> r.wf(),
            final(self)@.stack == final(r)@,
            final(self)@.bytes == old(self)@.bytes,
            old(self).wf() && final(r).wf() ==> final(self).wf(),
    {
        &mut self.stack
    }

    /// The base address of the 5-byte glyph for a digit; only the low nibble
    /// of the argument counts.
    pub fn get_sprite(&self, character: u8) -> (r: u16)
        ensures
            r == 0x100 + 5 * ((character & 0xf) as int),
    {
        let c = character & 0xf;
        proof {
            assert(character & 0xf < 16) by (bit_vector);
        }
        0x100 + 5 * (c as u16)
    }

    /// Copies the built-in glyph table into its reserved region at
    /// [0x100, 0x150). Every other byte is left alone.
    pub fn init_interpreter_data(&mut self)
        requires
            old(self).wf(),
        ensures
            final(self).wf(),
            final(self)@.stack == old(self)@.stack,
            final(self)@.bytes.len() == 4096,
            forall|i: int| 0x100 <= i < 0x150 ==> final(self)@.bytes[i] == glyph_data()[i - 0x100],
            forall|i: int| 0 <= i < 4096 && !(0x100 <= i < 0x150)
                ==> final(self)@.bytes[i] == old(self)@.bytes[i],
    {
        let table = glyph_table();
        let mut k: usize = 0;
        while k < 80
            invariant
                k <= 80,
                table@ == glyph_data(),
                self.wf(),
                self.stack@ == old(self).stack@,
                old(self).bytes@.len() == 4096,
                forall|i: int| 0x100 <= i < 0x100 + k ==> self.bytes@[i] == glyph_data()[i - 0x100],
                forall|i: int| 0 <= i < 4096 && !(0x100 <= i < 0x100 + k)
                    ==> self.bytes@[i] == old(self).bytes@[i],
            decreases 80 - k,
        {
            self.bytes[0x100 + k] = table[k];
            k += 1;
        }
    }

    /// Copies a ROM image to [0x200, 0x200 + len). An image that would run
    /// past the end of the address space is rejected whole, before anything
    /// is written, with an illegal-access fault at 0x1000, the first address
    /// it could not fit in front of.
    pub fn load_rom(&mut self, rom: &[u8]) -> (r: Result<(), RuntimeError>)
        requires
            old(self).wf(),
        ensures
            final(self).wf(),
            final(self)@.stack == old(self)@.stack,
            rom@.len() < 0xe00 ==> r == Ok::<(), RuntimeError>(())
                && (forall|i: int| 0x200 <= i < 0x200 + rom@.len()
                    ==> final(self)@.bytes[i] == rom@[i - 0x200])
                && (forall|i: int| 0 <= i < 4096 && !(0x200 <= i < 0x200 + rom@.len())
                    ==> final(self)@.bytes[i] == old(self)@.bytes[i]),
            rom@.len() >= 0xe00 ==> r == Err::<(), RuntimeError>(
                RuntimeError::IllegalMemoryAccess(0x1000),
            ) && final(self)@ == old(self)@,
    {
        if rom.len() >= 0xe00 {
            return Err(RuntimeError::IllegalMemoryAccess(0x1000));
        }
        let mut k: usize = 0;
        while k < rom.len()
            invariant
                rom@.len() < 0xe00,
                k <= rom@.len(),
                self.wf(),
                self.stack@ == old(self).stack@,
                old(self).bytes@.len() == 4096,
                forall|i: int| 0x200 <= i < 0x200 + k ==> self.bytes@[i] == rom@[i - 0x200],
                forall|i: int| 0 <= i < 4096 && !(0x200 <= i < 0x200 + k)
                    ==> self.bytes@[i] == old(self).bytes@[i],
            decreases rom@.len() - k,
        {
            self.bytes[0x200 + k] = rom[k];
            k += 1;
        }
        Ok(())
    }
}

} // verus!
