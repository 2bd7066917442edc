//! The machine state and the execution engine.
//!
//! [`Chip8`] gathers the register file, memory, call stack, timers, input
//! snapshot and display into one owned aggregate.  [`Chip8::step`]
//! executes exactly one instruction; [`Chip8::tick_timers`] decays the
//! two countdown timers once.  The two entry points are deliberately
//! separate: instruction throughput and the 60 Hz timer cadence are
//! independent clocks, and the host drives each at its own rate.

use vstd::prelude::*;

use crate::instruction::Instruction;
use crate::instruction::Opcode;
use crate::instruction::lemma_decode_bounds;
use crate::instruction::spec_decode;
use crate::instruction::spec_opcode_class;
use crate::screen::Screen;
use crate::screen::blank_buffer;

verus! {

/// The conditions under which [`Chip8::step`] or [`Chip8::load_rom`]
/// refuses to act.  Each is reported to the host rather than aborting
/// the process; the machine state is left exactly as it was.
#[derive(Clone, Copy, PartialEq, Eq, Structural, Debug)]
pub enum Chip8Error {
    /// The fetched bytes encode no operation the engine implements.
    UnknownOpcode { b0: u8, b1: u8, pc: usize },
    /// A call would push a seventeenth return address.
    StackOverflow,
    /// A return found the call stack empty.
    StackUnderflow,
    /// The program counter, the index register or a block transfer
    /// would reach past the 4096 bytes of memory, or a program image
    /// would not fit above the load address.
    AddressOutOfRange,
}

/// The CHIP-8 machine: sixteen 8-bit registers, a 16-bit index register
/// holding a 12-bit address, two countdown timers, the program counter,
/// 4096 bytes of memory, a call stack of at most sixteen return
/// addresses, the display, and the 16-key input snapshot.
pub struct Chip8 {
    /// General-purpose registers 0x0 to 0xF; register 0xF doubles as
    /// the flag register, overwritten by arithmetic, shift and draw
    /// opcodes.
    pub regs: Vec<u8>,
    /// Index register: a memory address, always below 4096.
    pub i: u16,
    /// Delay timer, counting down to zero.
    pub dt: u8,
    /// Sound timer, counting down to zero.
    pub st: u8,
    /// Program counter: address of the next instruction to fetch.
    pub pc: usize,
    /// 4096 bytes of memory: the font below 0x050, the program from
    /// 0x200 upward.
    pub mem: Vec<u8>,
    /// Return addresses of the calls in flight, oldest first.
    pub stack: Vec<u16>,
    /// The 64x32 pixel display buffer.
    pub screen: Screen,
    /// Pressed state of the sixteen keys, overwritten wholesale by the
    /// host between steps.
    pub keys: Vec<bool>,
}

/// The built-in font: sixteen hexadecimal glyphs of five sprite rows
/// each, kept at the bottom of memory.
pub open spec fn font_seq() -> Seq<u8> {
    seq![
        0xf0u8, 0x90, 0x90, 0x90, 0xf0,
        0x20, 0x60, 0x20, 0x20, 0x70,
        0xf0, 0x10, 0xf0, 0x80, 0xf0,
        0xf0, 0x10, 0xf0, 0x10, 0xf0,
        0x90, 0x90, 0xf0, 0x10, 0x10,
        0xf0, 0x80, 0xf0, 0x10, 0xf0,
        0xf0, 0x80, 0xf0, 0x90, 0xf0,
        0xf0, 0x10, 0x20, 0x40, 0x40,
        0xf0, 0x90, 0xf0, 0x90, 0xf0,
        0xf0, 0x90, 0xf0, 0x10, 0xf0,
        0xf0, 0x90, 0xf0, 0x90, 0x90,
        0xe0, 0x90, 0xe0, 0x90, 0xe0,
        0xf0, 0x80, 0x80, 0x80, 0x80,
        0xe0, 0x90, 0x90, 0x90, 0xe0,
        0xf0, 0x80, 0xf0, 0x80, 0xf0,
        0xf0, 0x80, 0xf0, 0x80, 0x80,
    ]
}

/// Memory at startup: the font at the bottom, zero everywhere else.
pub open spec fn init_mem() -> Seq<u8> {
    Seq::new(4096, |p: int| if 0 <= p < 80 { font_seq()[p] } else { 0u8 })
}

/// Memory after a program image lands at the load address 0x200:
/// the image bytes verbatim, everything else untouched.
pub open spec fn loaded_mem(mem: Seq<u8>, rom: Seq<u8>) -> Seq<u8> {
    Seq::new(
        4096,
        |p: int| if 0x200 <= p < 0x200 + rom.len() { rom[p - 0x200] } else { mem[p] },
    )
}

/// Build the font bytes as executable data.
fn font_bytes() -> (v: Vec<u8>)
    ensures
        v@ == font_seq(),
{
    let mut v: Vec<u8> = Vec::new();
    v.push(0xf0); v.push(0x90); v.push(0x90); v.push(0x90); v.push(0xf0);
    v.push(0x20); v.push(0x60); v.push(0x20); v.push(0x20); v.push(0x70);
    v.push(0xf0); v.push(0x10); v.push(0xf0); v.push(0x80); v.push(0xf0);
    v.push(0xf0); v.push(0x10); v.push(0xf0); v.push(0x10); v.push(0xf0);
    v.push(0x90); v.push(0x90); v.push(0xf0); v.push(0x10); v.push(0x10);
    v.push(0xf0); v.push(0x80); v.push(0xf0); v.push(0x10); v.push(0xf0);
    v.push(0xf0); v.push(0x80); v.push(0xf0); v.push(0x90); v.push(0xf0);
    v.push(0xf0); v.push(0x10); v.push(0x20); v.push(0x40); v.push(0x40);
    v.push(0xf0); v.push(0x90); v.push(0xf0); v.push(0x90); v.push(0xf0);
    v.push(0xf0); v.push(0x90); v.push(0xf0); v.push(0x10); v.push(0xf0);
    v.push(0xf0); v.push(0x90); v.push(0xf0); v.push(0x90); v.push(0x90);
    v.push(0xe0); v.push(0x90); v.push(0xe0); v.push(0x90); v.push(0xe0);
    v.push(0xf0); v.push(0x80); v.push(0x80); v.push(0x80); v.push(0x80);
    v.push(0xe0); v.push(0x90); v.push(0x90); v.push(0x90); v.push(0xe0);
    v.push(0xf0); v.push(0x80); v.push(0xf0); v.push(0x80); v.push(0xf0);
    v.push(0xf0); v.push(0x80); v.push(0xf0); v.push(0x80); v.push(0x80);
    v
}

/// Build a vector of `count` zero bytes.
fn zero_bytes(count: usize) -> (v: Vec<u8>)
    ensures
        v@.len() == count,
        forall|p: int| 0 <= p < count ==> v@[p] == 0,
{
    let mut v: Vec<u8> = Vec::new();
    let mut p: usize = 0;
    while p < count
        invariant
            v@.len() == p,
            p <= count,
            forall|q: int| 0 <= q < p ==> v@[q] == 0,
        decreases count - p,
    {
        v.push(0);
        p = p + 1;
    }
    v
}

/// Build the sixteen released key states.
fn released_keys() -> (v: Vec<bool>)
    ensures
        v@.len() == 16,
        forall|k: int| 0 <= k < 16 ==> !v@[k],
{
    let mut v: Vec<bool> = Vec::new();
    let mut p: usize = 0;
    while p < 16
        invariant
            v@.len() == p,
            p <= 16,
            forall|q: int| 0 <= q < p ==> !v@[q],
        decreases 16 - p,
    {
        v.push(false);
        p = p + 1;
    }
    v
}

impl Chip8 {
    /// Structural invariant: every collection has its hardware size,
    /// the call stack is bounded by sixteen return addresses that all
    /// point at fetchable instructions, the index register holds a
    /// memory address, and the program counter stays within reach of
    /// the redirections the opcodes can produce.
    pub open spec fn wf(self) -> bool {
        &&& self.regs@.len() == 16
        &&& self.mem@.len() == 4096
        &&& self.stack@.len() <= 16
        &&& (forall|k: int| 0 <= k < self.stack@.len() ==> self.stack@[k] <= 4094)
        &&& self.keys@.len() == 16
        &&& self.screen.wf()
        &&& self.pc <= 4350
        &&& self.i < 4096
    }

    /// Create a machine at power-on: registers, timers, stack, keys and
    /// display all cleared, the font installed at the bottom of memory,
    /// and the program counter at the canonical load address 0x200.
    pub fn new() -> (c: Chip8)
        ensures
            c.wf(),
            c.regs@.len() == 16,
            forall|k: int| 0 <= k < 16 ==> c.regs@[k] == 0,
            c.i == 0,
            c.dt == 0,
            c.st == 0,
            c.pc == 0x200,
            c.mem@ == init_mem(),
            c.stack@ == Seq::<u16>::empty(),
            c.screen.buffer@ == blank_buffer(),
            c.keys@.len() == 16,
            forall|k: int| 0 <= k < 16 ==> !c.keys@[k],
    {
        let mut mem = zero_bytes(4096);
        let font = font_bytes();
        let mut k: usize = 0;
        while k < 80
            invariant
                mem@.len() == 4096,
                font@ == font_seq(),
                k <= 80,
                forall|p: int| 0 <= p < k ==> mem@[p] == font_seq()[p],
                forall|p: int| k <= p < 4096 ==> mem@[p] == 0,
            decreases 80 - k,
        {
            assert(font@.len() == 80);
            mem.set(k, font[k]);
            k = k + 1;
        }
        assert(mem@ =~= init_mem());
        Chip8 {
            regs: zero_bytes(16),
            i: 0,
            dt: 0,
            st: 0,
            pc: 0x200,
            mem,
            stack: Vec::new(),
            screen: Screen::new(),
            keys: released_keys(),
        }
    }

    /// Place a program image in memory, byte for byte, starting at the
    /// load address 0x200.  An image wider than the 3584 bytes above
    /// the load address is refused and nothing changes.
    pub fn load_rom(&mut self, rom: &Vec<u8>) -> (r: Result<(), Chip8Error>)
        requires
            old(self).wf(),
        ensures
            final(self).wf(),
            rom@.len() > 3584 ==> r == Err::<(), Chip8Error>(Chip8Error::AddressOutOfRange)
                && *final(self) == *old(self),
            rom@.len() <= 3584 ==> r == Ok::<(), Chip8Error>(()) && final(self).mem@
                == loaded_mem(old(self).mem@, rom@) && same_but_mem_pc(*old(self), *final(self))
                && final(self).pc == old(self).pc,
    {
        if rom.len() > 3584 {
            return Err(Chip8Error::AddressOutOfRange);
        }
        let mut k: usize = 0;
        while k < rom.len()
            invariant
                old(self).wf(),
                rom@.len() <= 3584,
                k <= rom@.len(),
                self.mem@.len() == 4096,
                forall|p: int| 0x200 <= p < 0x200 + k ==> self.mem@[p] == rom@[p - 0x200],
                forall|p: int|
                    (0 <= p < 0x200 || 0x200 + k <= p < 4096) ==> self.mem@[p] == old(
                    self,
                ).mem@[p],
                self.regs == old(self).regs,
                self.i == old(self).i,
                self.dt == old(self).dt,
                self.st == old(self).st,
                self.pc == old(self).pc,
                self.stack == old(self).stack,
                self.screen == old(self).screen,
                self.keys == old(self).keys,
            decreases rom@.len() - k,
        {
            self.mem.set(0x200 + k, rom[k]);
            k = k + 1;
        }
        assert(self.mem@ =~= loaded_mem(old(self).mem@, rom@));
        Ok(())
    }

    /// Decay both timers by one unit, saturating at zero.  The host
    /// calls this on its own fixed 60 Hz clock, independent of how
    /// often it calls [`Chip8::step`].
    pub fn tick_timers(&mut self)
        ensures
            *final(self) == (Chip8 {
                dt: if old(self).dt > 0 { (old(self).dt - 1) as u8 } else { 0u8 },
                st: if old(self).st > 0 { (old(self).st - 1) as u8 } else { 0u8 },
                ..*old(self)
            }),
    {
        if self.dt > 0 {
            self.dt = self.dt - 1;
        }
        if self.st > 0 {
            self.st = self.st - 1;
        }
    }

    /// Overwrite the whole input snapshot with the sixteen key states
    /// the host read from its keyboard.
    pub fn set_keys(&mut self, keys: Vec<bool>)
        requires
            keys@.len() == 16,
        ensures
            *final(self) == (Chip8 { keys, ..*old(self) }),
            final(self).keys@ == keys@,
    {
        self.keys = keys;
    }

    /// Mark one key as pressed.
    pub fn press(&mut self, key: usize)
        requires
            old(self).keys@.len() == 16,
            key < 16,
        ensures
            final(self).keys@ == old(self).keys@.update(key as int, true),
            final(self).regs == old(self).regs,
            final(self).i == old(self).i,
            final(self).dt == old(self).dt,
            final(self).st == old(self).st,
            final(self).pc == old(self).pc,
            final(self).mem == old(self).mem,
            final(self).stack == old(self).stack,
            final(self).screen == old(self).screen,
    {
        self.keys.set(key, true);
    }

    /// Mark every key as released.
    pub fn reset_keys(&mut self)
        ensures
            final(self).keys@.len() == 16,
            forall|k: int| 0 <= k < 16 ==> !final(self).keys@[k],
            final(self).regs == old(self).regs,
            final(self).i == old(self).i,
            final(self).dt == old(self).dt,
            final(self).st == old(self).st,
            final(self).pc == old(self).pc,
            final(self).mem == old(self).mem,
            final(self).stack == old(self).stack,
            final(self).screen == old(self).screen,
    {
        self.keys = released_keys();
    }
}

impl Chip8 {
    /// Execute exactly one instruction: fetch the two bytes at the
    /// program counter, decode them, dispatch on the operation they
    /// classify as, and move the program counter as the operation
    /// demands.  Timers are not touched here; the host drives
    /// [`Chip8::tick_timers`] on its own clock.  Every failure —
    /// a program counter past the end of memory, an unknown encoding,
    /// a stack fault, an out-of-range transfer — comes back as an error
    /// with the machine left exactly as it was, so the host may halt,
    /// reset or carry on.  [`step_rel`] states the whole transition.
    pub fn step(&mut self) -> (r: Result<(), Chip8Error>)
        requires
            old(self).wf(),
        ensures
            final(self).wf(),
            step_rel(*old(self), *final(self), r),
    {
        if self.pc + 1 >= 4096 {
            return Err(Chip8Error::AddressOutOfRange);
        }
        let b0 = self.mem[self.pc];
        let b1 = self.mem[self.pc + 1];
        let mut inst = Instruction::new();
        inst.decode((b0, b1));
        proof {
            lemma_decode_bounds(b0, b1);
        }
        let x = inst.x;
        let y = inst.y;
        let kk = inst.kk;
        let nnn = inst.nnn;
        let n = inst.n;
        match Opcode::from_code(inst.get_opcode()) {
            Opcode::ClearScreen => {
                self.cls();
                Ok(())
            },
            Opcode::Return => self.ret(),
            Opcode::Jump => {
                self.jmp(nnn);
                Ok(())
            },
            Opcode::Call => self.call(nnn),
            Opcode::SkipEqImm => {
                self.se_vb(x, kk);
                Ok(())
            },
            Opcode::SkipNeImm => {
                self.sne_vb(x, kk);
                Ok(())
            },
            Opcode::SkipEqReg => {
                self.se_vv(x, y);
                Ok(())
            },
            Opcode::SetImm => {
                self.ld_vb(x, kk);
                Ok(())
            },
            Opcode::AddImm => {
                self.add_vb(x, kk);
                Ok(())
            },
            Opcode::CopyReg => {
                self.ld_vv(x, y);
                Ok(())
            },
            Opcode::Or => {
                self.or(x, y);
                Ok(())
            },
            Opcode::And => {
                self.and(x, y);
                Ok(())
            },
            Opcode::Xor => {
                self.xor(x, y);
                Ok(())
            },
            Opcode::AddReg => {
                self.add_vv(x, y);
                Ok(())
            },
            Opcode::SubReg => {
                self.sub(x, y);
                Ok(())
            },
            Opcode::ShiftRight => {
                self.shr(x);
                Ok(())
            },
            Opcode::SkipNeReg => {
                self.sne_vv(x, y);
                Ok(())
            },
            Opcode::SetIndex => {
                self.ld_ia(nnn);
                Ok(())
            },
            Opcode::JumpOffset => {
                self.jmp_va(nnn);
                Ok(())
            },
            Opcode::Random => {
                self.rnd(x, kk);
                Ok(())
            },
            Opcode::Draw => self.drw(x, y, n),
            Opcode::SkipKey => {
                self.skp(x);
                Ok(())
            },
            Opcode::SkipNoKey => {
                self.sknp(x);
                Ok(())
            },
            Opcode::GetDelay => {
                self.ld_vdt(x);
                Ok(())
            },
            Opcode::WaitKey => {
                self.ld_vk(x);
                Ok(())
            },
            Opcode::SetDelay => {
                self.ld_dtv(x);
                Ok(())
            },
            Opcode::SetSound => {
                self.ld_stv(x);
                Ok(())
            },
            Opcode::AddIndex => {
                self.add_iv(x);
                Ok(())
            },
            Opcode::FontAddr => {
                self.ld_fv(x);
                Ok(())
            },
            Opcode::StoreBcd => self.ld_bv(x),
            Opcode::RegDump => self.ld_iv(x),
            Opcode::RegLoad => self.ld_vi(x),
            Opcode::Unknown => Err(
                Chip8Error::UnknownOpcode { b0, b1, pc: self.pc },
            ),
        }
    }

    /// Advance the program counter past the instruction just executed.
    fn inc_pc(&mut self)
        requires
            old(self).pc <= 4348,
        ensures
            *final(self) == (Chip8 { pc: (old(self).pc + 2) as usize, ..*old(self) }),
    {
        self.pc = self.pc + 2;
    }

    /// Clear-screen (`00E0`).
    fn cls(&mut self)
        requires
            old(self).wf(),
            old(self).pc <= 4094,
        ensures
            final(self).wf(),
            cls_rel(*old(self), *final(self)),
    {
        self.screen.clear();
        self.inc_pc();
    }

    /// Return (`00EE`).
    fn ret(&mut self) -> (r: Result<(), Chip8Error>)
        requires
            old(self).wf(),
            old(self).pc <= 4094,
        ensures
            final(self).wf(),
            old(self).stack@.len() == 0 ==> r == Err::<(), Chip8Error>(Chip8Error::StackUnderflow)
                && *final(self) == *old(self),
            old(self).stack@.len() > 0 ==> r == Ok::<(), Chip8Error>(()) && ret_rel(
                *old(self),
                *final(self),
            ),
    {
        if self.stack.len() == 0 {
            return Err(Chip8Error::StackUnderflow);
        }
        match self.stack.pop() {
            Option::Some(addr) => {
                self.pc = (addr as usize) + 2;
                assert(self.stack@ =~= old(self).stack@.drop_last());
                Ok(())
            },
            Option::None => Err(Chip8Error::StackUnderflow),
        }
    }

    /// Jump (`1nnn`).
    fn jmp(&mut self, nnn: u16)
        requires
            old(self).wf(),
            nnn < 4096,
        ensures
            final(self).wf(),
            jmp_rel(*old(self), *final(self), nnn as int),
    {
        self.pc = nnn as usize;
    }

    /// Jump-with-offset (`Bnnn`).
    fn jmp_va(&mut self, nnn: u16)
        requires
            old(self).wf(),
            nnn < 4096,
        ensures
            final(self).wf(),
            jmp_va_rel(*old(self), *final(self), nnn as int),
    {
        let offset = self.regs[0] as usize;
        self.pc = (nnn as usize) + offset;
    }

    /// Call (`2nnn`).
    fn call(&mut self, nnn: u16) -> (r: Result<(), Chip8Error>)
        requires
            old(self).wf(),
            old(self).pc <= 4094,
            nnn < 4096,
        ensures
            final(self).wf(),
            old(self).stack@.len() >= 16 ==> r == Err::<(), Chip8Error>(Chip8Error::StackOverflow)
                && *final(self) == *old(self),
            old(self).stack@.len() < 16 ==> r == Ok::<(), Chip8Error>(()) && call_rel(
                *old(self),
                *final(self),
                nnn as int,
            ),
    {
        if self.stack.len() >= 16 {
            return Err(Chip8Error::StackOverflow);
        }
        let old_addr = self.pc as u16;
        self.stack.push(old_addr);
        self.pc = nnn as usize;
        Ok(())
    }

    /// Skip-if-equal-immediate (`3xkk`).
    fn se_vb(&mut self, x: usize, kk: u8)
        requires
            old(self).wf(),
            old(self).pc <= 4094,
            x < 16,
        ensures
            final(self).wf(),
            skip_rel(*old(self), *final(self), old(self).regs@[x as int] == kk),
    {
        if self.regs[x] == kk {
            self.inc_pc();
        }
        self.inc_pc();
    }

    /// Skip-if-not-equal-immediate (`4xkk`).
    fn sne_vb(&mut self, x: usize, kk: u8)
        requires
            old(self).wf(),
            old(self).pc <= 4094,
            x < 16,
        ensures
            final(self).wf(),
            skip_rel(*old(self), *final(self), old(self).regs@[x as int] != kk),
    {
        if self.regs[x] != kk {
            self.inc_pc();
        }
        self.inc_pc();
    }

    /// Skip-if-equal-registers (`5xy0`).
    fn se_vv(&mut self, x: usize, y: usize)
        requires
            old(self).wf(),
            old(self).pc <= 4094,
            x < 16,
            y < 16,
        ensures
            final(self).wf(),
            skip_rel(
                *old(self),
                *final(self),
                old(self).regs@[x as int] == old(self).regs@[y as int],
            ),
    {
        if self.regs[x] == self.regs[y] {
            self.inc_pc();
        }
        self.inc_pc();
    }

    /// Skip-if-not-equal-registers (`9xy0`).
    fn sne_vv(&mut self, x: usize, y: usize)
        requires
            old(self).wf(),
            old(self).pc <= 4094,
            x < 16,
            y < 16,
        ensures
            final(self).wf(),
            skip_rel(
                *old(self),
                *final(self),
                old(self).regs@[x as int] != old(self).regs@[y as int],
            ),
    {
        if self.regs[x] != self.regs[y] {
            self.inc_pc();
        }
        self.inc_pc();
    }

    /// Set-immediate (`6xkk`).
    fn ld_vb(&mut self, x: usize, kk: u8)
        requires
            old(self).wf(),
            old(self).pc <= 4094,
            x < 16,
        ensures
            final(self).wf(),
            regs_rel(*old(self), *final(self), old(self).regs@.update(x as int, kk)),
    {
        self.regs.set(x, kk);
        self.inc_pc();
    }

    /// Add-immediate (`7xkk`), wrapping modulo 256, flag untouched.
    fn add_vb(&mut self, x: usize, kk: u8)
        requires
            old(self).wf(),
            old(self).pc <= 4094,
            x < 16,
        ensures
            final(self).wf(),
            regs_rel(
                *old(self),
                *final(self),
                old(self).regs@.update(
                    x as int,
                    ((old(self).regs@[x as int] + kk) % 256) as u8,
                ),
            ),
    {
        let sum = (self.regs[x] as u16) + (kk as u16);
        self.regs.set(x, (sum % 256) as u8);
        self.inc_pc();
    }

    /// Copy-registers (`8xy0`).
    fn ld_vv(&mut self, x: usize, y: usize)
        requires
            old(self).wf(),
            old(self).pc <= 4094,
            x < 16,
            y < 16,
        ensures
            final(self).wf(),
            regs_rel(
                *old(self),
                *final(self),
                old(self).regs@.update(x as int, old(self).regs@[y as int]),
            ),
    {
        let vy = self.regs[y];
        self.regs.set(x, vy);
        self.inc_pc();
    }

    /// Bitwise or (`8xy1`).
    fn or(&mut self, x: usize, y: usize)
        requires
            old(self).wf(),
            old(self).pc <= 4094,
            x < 16,
            y < 16,
        ensures
            final(self).wf(),
            regs_rel(
                *old(self),
                *final(self),
                old(self).regs@.update(
                    x as int,
                    old(self).regs@[x as int] | old(self).regs@[y as int],
                ),
            ),
    {
        let v = self.regs[x] | self.regs[y];
        self.regs.set(x, v);
        self.inc_pc();
    }

    /// Bitwise and (`8xy2`).
    fn and(&mut self, x: usize, y: usize)
        requires
            old(self).wf(),
            old(self).pc <= 4094,
            x < 16,
            y < 16,
        ensures
            final(self).wf(),
            regs_rel(
                *old(self),
                *final(self),
                old(self).regs@.update(
                    x as int,
                    old(self).regs@[x as int] & old(self).regs@[y as int],
                ),
            ),
    {
        let v = self.regs[x] & self.regs[y];
        self.regs.set(x, v);
        self.inc_pc();
    }

    /// Bitwise xor (`8xy3`).
    fn xor(&mut self, x: usize, y: usize)
        requires
            old(self).wf(),
            old(self).pc <= 4094,
            x < 16,
            y < 16,
        ensures
            final(self).wf(),
            regs_rel(
                *old(self),
                *final(self),
                old(self).regs@.update(
                    x as int,
                    old(self).regs@[x as int] ^ old(self).regs@[y as int],
                ),
            ),
    {
        let v = self.regs[x] ^ self.regs[y];
        self.regs.set(x, v);
        self.inc_pc();
    }

    /// Add-registers (`8xy4`): sum modulo 256 into register `x`, carry
    /// into the flag register, which is written last.
    fn add_vv(&mut self, x: usize, y: usize)
        requires
            old(self).wf(),
            old(self).pc <= 4094,
            x < 16,
            y < 16,
        ensures
            final(self).wf(),
            regs_rel(
                *old(self),
                *final(self),
                old(self).regs@.update(
                    x as int,
                    ((old(self).regs@[x as int] + old(self).regs@[y as int]) % 256) as u8,
                ).update(
                    15,
                    if old(self).regs@[x as int] + old(self).regs@[y as int] > 255 {
                        1u8
                    } else {
                        0u8
                    },
                ),
            ),
            x != 15 ==> final(self).regs@[x as int] == (old(self).regs@[x as int] + old(
                self,
            ).regs@[y as int]) % 256,
            final(self).regs@[15] == (if old(self).regs@[x as int] + old(self).regs@[y as int]
                > 255 {
                1u8
            } else {
                0u8
            }),
    {
        let sum = (self.regs[x] as u16) + (self.regs[y] as u16);
        self.regs.set(x, (sum % 256) as u8);
        self.regs.set(15, if sum > 255 { 1 } else { 0 });
        self.inc_pc();
    }

    /// Subtract-registers (`8xy5`): difference modulo 256 into register
    /// `x` (wrapping, never clamped), borrow-free flag into the flag
    /// register, which is written last.
    fn sub(&mut self, x: usize, y: usize)
        requires
            old(self).wf(),
            old(self).pc <= 4094,
            x < 16,
            y < 16,
        ensures
            final(self).wf(),
            regs_rel(
                *old(self),
                *final(self),
                old(self).regs@.update(
                    x as int,
                    ((old(self).regs@[x as int] - old(self).regs@[y as int] + 256) % 256) as u8,
                ).update(
                    15,
                    if old(self).regs@[x as int] > old(self).regs@[y as int] {
                        1u8
                    } else {
                        0u8
                    },
                ),
            ),
    {
        let vx = self.regs[x] as u16;
        let vy = self.regs[y] as u16;
        let diff = (vx + 256 - vy) % 256;
        self.regs.set(x, diff as u8);
        self.regs.set(15, if vx > vy { 1 } else { 0 });
        self.inc_pc();
    }

    /// Shift-right (`8xy6`): register `x` halves; the flag register
    /// takes the bit that was dropped, and is written last.
    fn shr(&mut self, x: usize)
        requires
            old(self).wf(),
            old(self).pc <= 4094,
            x < 16,
        ensures
            final(self).wf(),
            regs_rel(
                *old(self),
                *final(self),
                old(self).regs@.update(
                    x as int,
                    (old(self).regs@[x as int] / 2) as u8,
                ).update(15, (old(self).regs@[x as int] % 2) as u8),
            ),
    {
        let vx = self.regs[x];
        self.regs.set(x, vx / 2);
        self.regs.set(15, vx % 2);
        self.inc_pc();
    }

    /// Set-index (`Annn`).
    fn ld_ia(&mut self, nnn: u16)
        requires
            old(self).wf(),
            old(self).pc <= 4094,
            nnn < 4096,
        ensures
            final(self).wf(),
            ld_ia_rel(*old(self), *final(self), nnn as int),
    {
        self.i = nnn;
        self.inc_pc();
    }

    /// Add-to-index (`Fx1E`), wrapping in the 12-bit address space.
    fn add_iv(&mut self, x: usize)
        requires
            old(self).wf(),
            old(self).pc <= 4094,
            x < 16,
        ensures
            final(self).wf(),
            add_iv_rel(*old(self), *final(self), x as int),
    {
        let sum = self.i + (self.regs[x] as u16);
        if sum > 4095 {
            self.i = sum - 4096;
            self.regs.set(15, 1);
        } else {
            self.i = sum;
            self.regs.set(15, 0);
        }
        self.inc_pc();
    }

    /// Font-address (`Fx29`).
    fn ld_fv(&mut self, x: usize)
        requires
            old(self).wf(),
            old(self).pc <= 4094,
            x < 16,
        ensures
            final(self).wf(),
            ld_fv_rel(*old(self), *final(self), x as int),
    {
        let vx = self.regs[x] as u16;
        self.i = vx * 5;
        self.inc_pc();
    }

    /// Get-delay-timer (`Fx07`).
    fn ld_vdt(&mut self, x: usize)
        requires
            old(self).wf(),
            old(self).pc <= 4094,
            x < 16,
        ensures
            final(self).wf(),
            regs_rel(
                *old(self),
                *final(self),
                old(self).regs@.update(x as int, old(self).dt),
            ),
    {
        let v = self.dt;
        self.regs.set(x, v);
        self.inc_pc();
    }

    /// Set-delay-timer (`Fx15`).
    fn ld_dtv(&mut self, x: usize)
        requires
            old(self).wf(),
            old(self).pc <= 4094,
            x < 16,
        ensures
            final(self).wf(),
            set_timer_rel(
                *old(self),
                *final(self),
                old(self).regs@[x as int] as int,
                old(self).st as int,
            ),
    {
        self.dt = self.regs[x];
        self.inc_pc();
    }

    /// Set-sound-timer (`Fx18`).
    fn ld_stv(&mut self, x: usize)
        requires
            old(self).wf(),
            old(self).pc <= 4094,
            x < 16,
        ensures
            final(self).wf(),
            set_timer_rel(
                *old(self),
                *final(self),
                old(self).dt as int,
                old(self).regs@[x as int] as int,
            ),
    {
        self.st = self.regs[x];
        self.inc_pc();
    }

    /// Random (`Cxkk`): a fresh byte from the generator, masked.
    fn rnd(&mut self, x: usize, kk: u8)
        requires
            old(self).wf(),
            old(self).pc <= 4094,
            x < 16,
        ensures
            final(self).wf(),
            rnd_rel(*old(self), *final(self), x as int, kk),
    {
        let b = crate::rng::random_byte();
        self.regs.set(x, b & kk);
        self.inc_pc();
    }

    /// Store-BCD (`Fx33`): the three decimal digits of register `x`,
    /// most significant first, at the index register's address.
    fn ld_bv(&mut self, x: usize) -> (r: Result<(), Chip8Error>)
        requires
            old(self).wf(),
            old(self).pc <= 4094,
            x < 16,
        ensures
            final(self).wf(),
            old(self).i + 2 > 4095 ==> r == Err::<(), Chip8Error>(Chip8Error::AddressOutOfRange)
                && *final(self) == *old(self),
            old(self).i + 2 <= 4095 ==> r == Ok::<(), Chip8Error>(()) && ld_bv_rel(
                *old(self),
                *final(self),
                x as int,
            ),
    {
        if (self.i as usize) + 2 > 4095 {
            return Err(Chip8Error::AddressOutOfRange);
        }
        let base = self.i as usize;
        let vx = self.regs[x];
        self.mem.set(base, vx / 100);
        self.mem.set(base + 1, (vx / 10) % 10);
        self.mem.set(base + 2, vx % 10);
        self.inc_pc();
        Ok(())
    }

    /// Register-dump (`Fx55`): registers `0..=x` to memory at the index
    /// register's address.
    fn ld_iv(&mut self, x: usize) -> (r: Result<(), Chip8Error>)
        requires
            old(self).wf(),
            old(self).pc <= 4094,
            x < 16,
        ensures
            final(self).wf(),
            old(self).i + x > 4095 ==> r == Err::<(), Chip8Error>(Chip8Error::AddressOutOfRange)
                && *final(self) == *old(self),
            old(self).i + x <= 4095 ==> r == Ok::<(), Chip8Error>(()) && ld_iv_rel(
                *old(self),
                *final(self),
                x as int,
            ),
    {
        if (self.i as usize) + x > 4095 {
            return Err(Chip8Error::AddressOutOfRange);
        }
        let base = self.i as usize;
        let mut j: usize = 0;
        while j <= x
            invariant
                old(self).wf(),
                old(self).pc <= 4094,
                x < 16,
                base == old(self).i,
                base + x <= 4095,
                j <= x + 1,
                self.mem@.len() == 4096,
                forall|p: int| base <= p < base + j ==> self.mem@[p] == old(self).regs@[p - base],
                forall|p: int|
                    (0 <= p < base || base + j <= p < 4096) ==> self.mem@[p] == old(self).mem@[p],
                self.regs == old(self).regs,
                self.i == old(self).i,
                self.dt == old(self).dt,
                self.st == old(self).st,
                self.pc == old(self).pc,
                self.stack == old(self).stack,
                self.screen == old(self).screen,
                self.keys == old(self).keys,
            decreases x + 1 - j,
        {
            let v = self.regs[j];
            self.mem.set(base + j, v);
            j = j + 1;
        }
        assert(self.mem@ =~= Seq::new(
            4096,
            |p: int|
                if old(self).i <= p <= old(self).i + x {
                    old(self).regs@[p - old(self).i]
                } else {
                    old(self).mem@[p]
                },
        ));
        self.inc_pc();
        Ok(())
    }

    /// Register-load (`Fx65`): registers `0..=x` from memory at the
    /// index register's address.
    fn ld_vi(&mut self, x: usize) -> (r: Result<(), Chip8Error>)
        requires
            old(self).wf(),
            old(self).pc <= 4094,
            x < 16,
        ensures
            final(self).wf(),
            old(self).i + x > 4095 ==> r == Err::<(), Chip8Error>(Chip8Error::AddressOutOfRange)
                && *final(self) == *old(self),
            old(self).i + x <= 4095 ==> r == Ok::<(), Chip8Error>(()) && ld_vi_rel(
                *old(self),
                *final(self),
                x as int,
            ),
    {
        if (self.i as usize) + x > 4095 {
            return Err(Chip8Error::AddressOutOfRange);
        }
        let base = self.i as usize;
        let mut j: usize = 0;
        while j <= x
            invariant
                old(self).wf(),
                old(self).pc <= 4094,
                x < 16,
                base == old(self).i,
                base + x <= 4095,
                j <= x + 1,
                self.regs@.len() == 16,
                forall|k: int| 0 <= k < j ==> self.regs@[k] == old(self).mem@[base + k],
                forall|k: int| j <= k < 16 ==> self.regs@[k] == old(self).regs@[k],
                self.mem == old(self).mem,
                self.i == old(self).i,
                self.dt == old(self).dt,
                self.st == old(self).st,
                self.pc == old(self).pc,
                self.stack == old(self).stack,
                self.screen == old(self).screen,
                self.keys == old(self).keys,
            decreases x + 1 - j,
        {
            let v = self.mem[base + j];
            self.regs.set(j, v);
            j = j + 1;
        }
        assert(self.regs@ =~= Seq::new(
            16,
            |k: int|
                if 0 <= k <= x {
                    old(self).mem@[old(self).i + k]
                } else {
                    old(self).regs@[k]
                },
        ));
        self.inc_pc();
        Ok(())
    }

    /// Draw-sprite (`Dxyn`): XOR the sprite into the display, wrapping
    /// coordinates at the screen edges, and record in the flag register
    /// whether any set pixel was toggled off.
    fn drw(&mut self, x: usize, y: usize, n: u8) -> (r: Result<(), Chip8Error>)
        requires
            old(self).wf(),
            old(self).pc <= 4094,
            x < 16,
            y < 16,
            n < 16,
        ensures
            final(self).wf(),
            old(self).i + n > 4096 ==> r == Err::<(), Chip8Error>(Chip8Error::AddressOutOfRange)
                && *final(self) == *old(self),
            old(self).i + n <= 4096 ==> r == Ok::<(), Chip8Error>(()) && drw_rel(
                *old(self),
                *final(self),
                x as int,
                y as int,
                n as int,
            ),
    {
        if (self.i as usize) + (n as usize) > 4096 {
            return Err(Chip8Error::AddressOutOfRange);
        }
        let x0 = (self.regs[x] % 64) as usize;
        let y0 = (self.regs[y] % 32) as usize;
        let base = self.i as usize;
        let mut collision = false;
        let mut row: usize = 0;
        proof {
            crate::screen::lemma_upto_start(
                old(self).screen.buffer@,
                old(self).mem@,
                base as int,
                x0 as int,
                y0 as int,
                n as int,
            );
        }
        while row < n as usize
            invariant
                old(self).wf(),
                old(self).pc <= 4094,
                x < 16,
                y < 16,
                n < 16,
                old(self).i + n <= 4096,
                base == old(self).i,
                x0 == old(self).regs@[x as int] as int % 64,
                y0 == old(self).regs@[y as int] as int % 32,
                x0 < 64,
                y0 < 32,
                row <= n as usize,
                self.regs == old(self).regs,
                self.i == old(self).i,
                self.dt == old(self).dt,
                self.st == old(self).st,
                self.pc == old(self).pc,
                self.mem == old(self).mem,
                self.stack == old(self).stack,
                self.keys == old(self).keys,
                self.screen.wf(),
                self.screen.buffer@ == crate::screen::draw_buf_upto(
                    old(self).screen.buffer@,
                    old(self).mem@,
                    base as int,
                    x0 as int,
                    y0 as int,
                    n as int,
                    row as int,
                    0,
                ),
                collision == crate::screen::draw_collision_upto(
                    old(self).screen.buffer@,
                    old(self).mem@,
                    base as int,
                    x0 as int,
                    y0 as int,
                    n as int,
                    row as int,
                    0,
                ),
            decreases n as usize - row,
        {
            let byte = self.mem[base + row];
            let mut col: usize = 0;
            while col < 8
                invariant
                    old(self).wf(),
                    old(self).pc <= 4094,
                    x < 16,
                    y < 16,
                    n < 16,
                    old(self).i + n <= 4096,
                    base == old(self).i,
                    x0 == old(self).regs@[x as int] as int % 64,
                    y0 == old(self).regs@[y as int] as int % 32,
                    x0 < 64,
                    y0 < 32,
                    row < n as usize,
                    col <= 8,
                    byte == old(self).mem@[base + row],
                    self.regs == old(self).regs,
                    self.i == old(self).i,
                    self.dt == old(self).dt,
                    self.st == old(self).st,
                    self.pc == old(self).pc,
                    self.mem == old(self).mem,
                    self.stack == old(self).stack,
                    self.keys == old(self).keys,
                    self.screen.wf(),
                    self.screen.buffer@ == crate::screen::draw_buf_upto(
                        old(self).screen.buffer@,
                        old(self).mem@,
                        base as int,
                        x0 as int,
                        y0 as int,
                        n as int,
                        row as int,
                        col as int,
                    ),
                    collision == crate::screen::draw_collision_upto(
                        old(self).screen.buffer@,
                        old(self).mem@,
                        base as int,
                        x0 as int,
                        y0 as int,
                        n as int,
                        row as int,
                        col as int,
                    ),
                decreases 8 - col,
            {
                proof {
                    crate::screen::lemma_upto_advance(
                        old(self).screen.buffer@,
                        old(self).mem@,
                        base as int,
                        x0 as int,
                        y0 as int,
                        n as int,
                        row as int,
                        col as int,
                        col as int + 1,
                    );
                }
                if byte & (0x80u8 >> (col as u8)) != 0 {
                    let px = if x0 + col < 64 {
                        x0 + col
                    } else {
                        x0 + col - 64
                    };
                    let py = if y0 + row < 32 {
                        y0 + row
                    } else {
                        y0 + row - 32
                    };
                    assert(px as int == crate::screen::wrap_col(x0 as int, col as int));
                    assert(py as int == crate::screen::wrap_row(y0 as int, row as int));
                    let was = self.screen.toggle(px, py);
                    if was {
                        collision = true;
                    }
                }
                col = col + 1;
            }
            proof {
                crate::screen::lemma_upto_row_done(
                    old(self).screen.buffer@,
                    old(self).mem@,
                    base as int,
                    x0 as int,
                    y0 as int,
                    n as int,
                    row as int,
                );
            }
            row = row + 1;
        }
        proof {
            crate::screen::lemma_upto_full(
                old(self).screen.buffer@,
                old(self).mem@,
                base as int,
                x0 as int,
                y0 as int,
                n as int,
            );
        }
        self.regs.set(15, if collision { 1 } else { 0 });
        self.inc_pc();
        Ok(())
    }

    /// Skip-if-key-pressed (`Ex9E`): the key index is the low nibble of
    /// register `x`.
    fn skp(&mut self, x: usize)
        requires
            old(self).wf(),
            old(self).pc <= 4094,
            x < 16,
        ensures
            final(self).wf(),
            skip_rel(
                *old(self),
                *final(self),
                old(self).keys@[old(self).regs@[x as int] as int % 16],
            ),
    {
        let key = (self.regs[x] as usize) % 16;
        if self.keys[key] {
            self.inc_pc();
        }
        self.inc_pc();
    }

    /// Skip-if-key-not-pressed (`ExA1`).
    fn sknp(&mut self, x: usize)
        requires
            old(self).wf(),
            old(self).pc <= 4094,
            x < 16,
        ensures
            final(self).wf(),
            skip_rel(
                *old(self),
                *final(self),
                !old(self).keys@[old(self).regs@[x as int] as int % 16],
            ),
    {
        let key = (self.regs[x] as usize) % 16;
        if !self.keys[key] {
            self.inc_pc();
        }
        self.inc_pc();
    }

    /// Wait-for-key (`Fx0A`): while nothing is pressed the program
    /// counter stays put, so the same instruction runs again on the
    /// next step; the first step that sees a pressed key captures the
    /// lowest pressed index and moves on.
    fn ld_vk(&mut self, x: usize)
        requires
            old(self).wf(),
            old(self).pc <= 4094,
            x < 16,
        ensures
            final(self).wf(),
            (exists|k: int| 0 <= k < 16 && old(self).keys@[k]) ==> ld_vk_rel(
                *old(self),
                *final(self),
                x as int,
            ),
            !(exists|k: int| 0 <= k < 16 && old(self).keys@[k]) ==> *final(self) == *old(self),
    {
        let mut k: usize = 0;
        while k < 16
            invariant
                old(self).wf(),
                old(self).pc <= 4094,
                x < 16,
                k <= 16,
                *self == *old(self),
                forall|j: int| 0 <= j < k ==> !old(self).keys@[j],
            decreases 16 - k,
        {
            if self.keys[k] {
                self.regs.set(x, k as u8);
                self.inc_pc();
                return ;
            }
            k = k + 1;
        }
    }
}

// What each opcode does to the machine, stated as a relation between
// the state before and after the executing step.  `Chip8::step_rel`
// selects the relation that the fetched instruction's class calls for.

/// Clear-screen: every pixel off, execution continues in sequence.
pub open spec fn cls_rel(pre: Chip8, post: Chip8) -> bool {
    &&& post.screen.buffer@ == blank_buffer()
    &&& post.regs@ == pre.regs@
    &&& post.pc == pre.pc + 2
    &&& same_but_screen_regs_pc(pre, post)
}

/// Return: the youngest return address leaves the stack and execution
/// resumes just past the call instruction that pushed it.
pub open spec fn ret_rel(pre: Chip8, post: Chip8) -> bool {
    &&& post.stack@ == pre.stack@.drop_last()
    &&& post.pc == pre.stack@.last() + 2
    &&& same_but_stack_pc(pre, post)
}

/// Jump: the program counter moves to the address operand.
pub open spec fn jmp_rel(pre: Chip8, post: Chip8, nnn: int) -> bool {
    &&& post.pc == nnn
    &&& post.regs@ == pre.regs@
    &&& same_but_regs_pc(pre, post)
}

/// Jump-with-offset: the program counter moves to the address operand
/// plus register 0.
pub open spec fn jmp_va_rel(pre: Chip8, post: Chip8, nnn: int) -> bool {
    &&& post.pc == nnn + pre.regs@[0]
    &&& post.regs@ == pre.regs@
    &&& same_but_regs_pc(pre, post)
}

/// Call: the address of the call instruction is pushed and the program
/// counter moves to the address operand.
pub open spec fn call_rel(pre: Chip8, post: Chip8, nnn: int) -> bool {
    &&& post.stack@ == pre.stack@.push(pre.pc as u16)
    &&& post.pc == nnn
    &&& same_but_stack_pc(pre, post)
}

/// The conditional skips: execution continues two instructions ahead
/// when `skip` holds, one instruction ahead otherwise, and nothing else
/// changes.
pub open spec fn skip_rel(pre: Chip8, post: Chip8, skip: bool) -> bool {
    &&& post.pc == pre.pc + (if skip { 4int } else { 2int })
    &&& post.regs@ == pre.regs@
    &&& same_but_regs_pc(pre, post)
}

/// The register-file opcodes: register file rewritten to `regs`,
/// execution continues in sequence, everything else unchanged.
pub open spec fn regs_rel(pre: Chip8, post: Chip8, regs: Seq<u8>) -> bool {
    &&& post.regs@ == regs
    &&& post.pc == pre.pc + 2
    &&& same_but_regs_pc(pre, post)
}

/// Set-index: the index register takes the address operand.
pub open spec fn ld_ia_rel(pre: Chip8, post: Chip8, nnn: int) -> bool {
    &&& post.i == nnn
    &&& post.regs@ == pre.regs@
    &&& post.pc == pre.pc + 2
    &&& same_but_regs_i_pc(pre, post)
}

/// Add-to-index: the sum wraps in the 12-bit address space and the flag
/// register records whether it wrapped.
pub open spec fn add_iv_rel(pre: Chip8, post: Chip8, x: int) -> bool {
    let sum = pre.i + pre.regs@[x];
    &&& post.i == sum % 4096
    &&& post.regs@ == pre.regs@.update(15, if sum > 4095 { 1u8 } else { 0u8 })
    &&& post.pc == pre.pc + 2
    &&& same_but_regs_i_pc(pre, post)
}

/// Font-address: the index register points at the five-byte glyph for
/// the value of register `x`.
pub open spec fn ld_fv_rel(pre: Chip8, post: Chip8, x: int) -> bool {
    &&& post.i == pre.regs@[x] * 5
    &&& post.regs@ == pre.regs@
    &&& post.pc == pre.pc + 2
    &&& same_but_regs_i_pc(pre, post)
}

/// Store-BCD: the three decimal digits of register `x`, most
/// significant first, land at the index register's address.
pub open spec fn ld_bv_rel(pre: Chip8, post: Chip8, x: int) -> bool {
    let v = pre.regs@[x] as int;
    &&& post.mem@ == pre.mem@.update(pre.i as int, (v / 100) as u8).update(
        pre.i + 1,
        ((v / 10) % 10) as u8,
    ).update(pre.i + 2, (v % 10) as u8)
    &&& post.pc == pre.pc + 2
    &&& same_but_mem_pc(pre, post)
}

/// Register-dump: registers `0..=x` land in memory at the index
/// register's address; every other byte keeps its value.
pub open spec fn ld_iv_rel(pre: Chip8, post: Chip8, x: int) -> bool {
    &&& post.mem@ == Seq::new(
        4096,
        |p: int|
            if pre.i <= p <= pre.i + x {
                pre.regs@[p - pre.i]
            } else {
                pre.mem@[p]
            },
    )
    &&& post.pc == pre.pc + 2
    &&& same_but_mem_pc(pre, post)
}

/// Register-load: registers `0..=x` take the bytes at the index
/// register's address; the higher registers keep their values.
pub open spec fn ld_vi_rel(pre: Chip8, post: Chip8, x: int) -> bool {
    &&& post.regs@ == Seq::new(
        16,
        |k: int| if 0 <= k <= x { pre.mem@[pre.i + k] } else { pre.regs@[k] },
    )
    &&& post.pc == pre.pc + 2
    &&& same_but_regs_pc(pre, post)
}

/// Set-delay-timer or set-sound-timer from register `x`.
pub open spec fn set_timer_rel(pre: Chip8, post: Chip8, dt: int, st: int) -> bool {
    &&& post.dt == dt
    &&& post.st == st
    &&& post.pc == pre.pc + 2
    &&& same_but_timers_pc(pre, post)
}

/// Random: register `x` takes some byte masked with `kk`; which byte
/// came out of the generator is not specified.
pub open spec fn rnd_rel(pre: Chip8, post: Chip8, x: int, kk: u8) -> bool {
    &&& exists|b: u8| post.regs@ == pre.regs@.update(x, b & kk)
    &&& post.pc == pre.pc + 2
    &&& same_but_regs_pc(pre, post)
}

/// Wait-for-key, once a key is pressed: register `x` captures the
/// lowest pressed key index and execution continues in sequence.
pub open spec fn ld_vk_rel(pre: Chip8, post: Chip8, x: int) -> bool {
    &&& exists|k: int|
        0 <= k < 16 && pre.keys@[k] && (forall|j: int| 0 <= j < k ==> !pre.keys@[j])
            && post.regs@ == pre.regs@.update(x, k as u8)
    &&& post.pc == pre.pc + 2
    &&& same_but_regs_pc(pre, post)
}

/// Draw-sprite: the `n`-row sprite at the index register's address is
/// XOR-drawn at the coordinates held in registers `x` and `y` (taken
/// modulo the screen size), and the flag register records whether any
/// set pixel was toggled off.
pub open spec fn drw_rel(pre: Chip8, post: Chip8, x: int, y: int, n: int) -> bool {
    let x0 = pre.regs@[x] as int % 64;
    let y0 = pre.regs@[y] as int % 32;
    let base = pre.i as int;
    &&& post.screen.buffer@ == crate::screen::draw_buf(
        pre.screen.buffer@,
        pre.mem@,
        base,
        x0,
        y0,
        n,
    )
    &&& post.regs@ == pre.regs@.update(
        15,
        if crate::screen::draw_collision(pre.screen.buffer@, pre.mem@, base, x0, y0, n) {
            1u8
        } else {
            0u8
        },
    )
    &&& post.pc == pre.pc + 2
    &&& same_but_screen_regs_pc(pre, post)
}

/// What one call of [`Chip8::step`] does, for every machine state and
/// every outcome: the instruction-set semantics of the machine.  The
/// two bytes at the program counter are fetched and decoded, the
/// operation they classify as picks the relation between the state
/// before and after the step, and every failure leaves the state
/// exactly as it was.
pub open spec fn step_rel(pre: Chip8, post: Chip8, r: Result<(), Chip8Error>) -> bool {
    if pre.pc + 1 >= 4096 {
        &&& r == Err::<(), Chip8Error>(Chip8Error::AddressOutOfRange)
        &&& post == pre
    } else {
        let b0 = pre.mem@[pre.pc as int];
        let b1 = pre.mem@[pre.pc as int + 1];
        let inst = spec_decode(Instruction::blank(), b0, b1);
        let x = inst.x as int;
        let y = inst.y as int;
        let kk = inst.kk;
        let nnn = inst.nnn as int;
        let n = inst.n as int;
        match spec_opcode_class(inst.opcode) {
            Opcode::ClearScreen => r == Ok::<(), Chip8Error>(()) && cls_rel(pre, post),
            Opcode::Return => if pre.stack@.len() == 0 {
                r == Err::<(), Chip8Error>(Chip8Error::StackUnderflow) && post == pre
            } else {
                r == Ok::<(), Chip8Error>(()) && ret_rel(pre, post)
            },
            Opcode::Jump => r == Ok::<(), Chip8Error>(()) && jmp_rel(pre, post, nnn),
            Opcode::Call => if pre.stack@.len() >= 16 {
                r == Err::<(), Chip8Error>(Chip8Error::StackOverflow) && post == pre
            } else {
                r == Ok::<(), Chip8Error>(()) && call_rel(pre, post, nnn)
            },
            Opcode::SkipEqImm => r == Ok::<(), Chip8Error>(()) && skip_rel(
                pre,
                post,
                pre.regs@[x] == kk,
            ),
            Opcode::SkipNeImm => r == Ok::<(), Chip8Error>(()) && skip_rel(
                pre,
                post,
                pre.regs@[x] != kk,
            ),
            Opcode::SkipEqReg => r == Ok::<(), Chip8Error>(()) && skip_rel(
                pre,
                post,
                pre.regs@[x] == pre.regs@[y],
            ),
            Opcode::SetImm => r == Ok::<(), Chip8Error>(()) && regs_rel(
                pre,
                post,
                pre.regs@.update(x, kk),
            ),
            Opcode::AddImm => r == Ok::<(), Chip8Error>(()) && regs_rel(
                pre,
                post,
                pre.regs@.update(x, ((pre.regs@[x] + kk) % 256) as u8),
            ),
            Opcode::CopyReg => r == Ok::<(), Chip8Error>(()) && regs_rel(
                pre,
                post,
                pre.regs@.update(x, pre.regs@[y]),
            ),
            Opcode::Or => r == Ok::<(), Chip8Error>(()) && regs_rel(
                pre,
                post,
                pre.regs@.update(x, pre.regs@[x] | pre.regs@[y]),
            ),
            Opcode::And => r == Ok::<(), Chip8Error>(()) && regs_rel(
                pre,
                post,
                pre.regs@.update(x, pre.regs@[x] & pre.regs@[y]),
            ),
            Opcode::Xor => r == Ok::<(), Chip8Error>(()) && regs_rel(
                pre,
                post,
                pre.regs@.update(x, pre.regs@[x] ^ pre.regs@[y]),
            ),
            Opcode::AddReg => r == Ok::<(), Chip8Error>(()) && regs_rel(
                pre,
                post,
                pre.regs@.update(x, ((pre.regs@[x] + pre.regs@[y]) % 256) as u8).update(
                    15,
                    if pre.regs@[x] + pre.regs@[y] > 255 {
                        1u8
                    } else {
                        0u8
                    },
                ),
            ),
            Opcode::SubReg => r == Ok::<(), Chip8Error>(()) && regs_rel(
                pre,
                post,
                pre.regs@.update(
                    x,
                    ((pre.regs@[x] - pre.regs@[y] + 256) % 256) as u8,
                ).update(
                    15,
                    if pre.regs@[x] > pre.regs@[y] {
                        1u8
                    } else {
                        0u8
                    },
                ),
            ),
            Opcode::ShiftRight => r == Ok::<(), Chip8Error>(()) && regs_rel(
                pre,
                post,
                pre.regs@.update(x, (pre.regs@[x] / 2) as u8).update(
                    15,
                    (pre.regs@[x] % 2) as u8,
                ),
            ),
            Opcode::SkipNeReg => r == Ok::<(), Chip8Error>(()) && skip_rel(
                pre,
                post,
                pre.regs@[x] != pre.regs@[y],
            ),
            Opcode::SetIndex => r == Ok::<(), Chip8Error>(()) && ld_ia_rel(pre, post, nnn),
            Opcode::JumpOffset => r == Ok::<(), Chip8Error>(()) && jmp_va_rel(pre, post, nnn),
            Opcode::Random => r == Ok::<(), Chip8Error>(()) && rnd_rel(pre, post, x, kk),
            Opcode::Draw => if pre.i + n > 4096 {
                r == Err::<(), Chip8Error>(Chip8Error::AddressOutOfRange) && post == pre
            } else {
                r == Ok::<(), Chip8Error>(()) && drw_rel(pre, post, x, y, n)
            },
            Opcode::SkipKey => r == Ok::<(), Chip8Error>(()) && skip_rel(
                pre,
                post,
                pre.keys@[pre.regs@[x] as int % 16],
            ),
            Opcode::SkipNoKey => r == Ok::<(), Chip8Error>(()) && skip_rel(
                pre,
                post,
                !pre.keys@[pre.regs@[x] as int % 16],
            ),
            Opcode::GetDelay => r == Ok::<(), Chip8Error>(()) && regs_rel(
                pre,
                post,
                pre.regs@.update(x, pre.dt),
            ),
            Opcode::WaitKey => if exists|k: int| 0 <= k < 16 && pre.keys@[k] {
                r == Ok::<(), Chip8Error>(()) && ld_vk_rel(pre, post, x)
            } else {
                r == Ok::<(), Chip8Error>(()) && post == pre
            },
            Opcode::SetDelay => r == Ok::<(), Chip8Error>(()) && set_timer_rel(
                pre,
                post,
                pre.regs@[x] as int,
                pre.st as int,
            ),
            Opcode::SetSound => r == Ok::<(), Chip8Error>(()) && set_timer_rel(
                pre,
                post,
                pre.dt as int,
                pre.regs@[x] as int,
            ),
            Opcode::AddIndex => r == Ok::<(), Chip8Error>(()) && add_iv_rel(pre, post, x),
            Opcode::FontAddr => r == Ok::<(), Chip8Error>(()) && ld_fv_rel(pre, post, x),
            Opcode::StoreBcd => if pre.i + 2 > 4095 {
                r == Err::<(), Chip8Error>(Chip8Error::AddressOutOfRange) && post == pre
            } else {
                r == Ok::<(), Chip8Error>(()) && ld_bv_rel(pre, post, x)
            },
            Opcode::RegDump => if pre.i + x > 4095 {
                r == Err::<(), Chip8Error>(Chip8Error::AddressOutOfRange) && post == pre
            } else {
                r == Ok::<(), Chip8Error>(()) && ld_iv_rel(pre, post, x)
            },
            Opcode::RegLoad => if pre.i + x > 4095 {
                r == Err::<(), Chip8Error>(Chip8Error::AddressOutOfRange) && post == pre
            } else {
                r == Ok::<(), Chip8Error>(()) && ld_vi_rel(pre, post, x)
            },
            Opcode::Unknown => r == Err::<(), Chip8Error>(
                Chip8Error::UnknownOpcode { b0, b1, pc: pre.pc },
            ) && post == pre,
        }
    }
}

/// Law: for every pair of registers `x`, `y` and byte values `a`, `b`,
/// an add-registers step taking register `x` from `a` and register `y`
/// from `b` leaves the flag register holding 1 exactly when
/// `a + b > 255`, and — whenever `x` is not itself the flag register —
/// leaves register `x` holding `(a + b) mod 256`.
pub proof fn lemma_add_registers(pre: Chip8, post: Chip8, x: int, y: int, a: u8, b: u8)
    requires
        0 <= x < 16,
        0 <= y < 16,
        pre.regs@.len() == 16,
        pre.regs@[x] == a,
        pre.regs@[y] == b,
        regs_rel(
            pre,
            post,
            pre.regs@.update(x, ((pre.regs@[x] + pre.regs@[y]) % 256) as u8).update(
                15,
                if pre.regs@[x] + pre.regs@[y] > 255 {
                    1u8
                } else {
                    0u8
                },
            ),
        ),
    ensures
        x != 15 ==> post.regs@[x] == (a + b) % 256,
        post.regs@[15] == (if a + b > 255 {
            1u8
        } else {
            0u8
        }),
{
}

/// Law: two consecutive draw steps of the same sprite at the same
/// coordinates restore the display exactly as it was before the first,
/// and the second step raises the collision flag precisely when the
/// first turned some pixel on.  The coordinate registers must not be
/// the flag register itself, which the first draw overwrites.
pub proof fn lemma_draw_twice_machine(s0: Chip8, s1: Chip8, s2: Chip8, x: int, y: int, n: int)
    requires
        s0.wf(),
        0 <= x < 16,
        0 <= y < 16,
        x != 15,
        y != 15,
        drw_rel(s0, s1, x, y, n),
        drw_rel(s1, s2, x, y, n),
    ensures
        s2.screen.buffer@ == s0.screen.buffer@,
        s2.regs@[15] == (if crate::screen::draw_sets_pixel(
            s0.screen.buffer@,
            s0.mem@,
            s0.i as int,
            s0.regs@[x] as int % 64,
            s0.regs@[y] as int % 32,
            n,
        ) {
            1u8
        } else {
            0u8
        }),
{
    let x0 = s0.regs@[x] as int % 64;
    let y0 = s0.regs@[y] as int % 32;
    assert(s1.regs@[x] == s0.regs@[x] && s1.regs@[y] == s0.regs@[y]);
    assert(s1.mem@ == s0.mem@ && s1.i == s0.i);
    crate::screen::lemma_draw_twice(s0.screen.buffer@, s0.mem@, s0.i as int, x0, y0, n);
}

/// Law: while no key is pressed, a step that fetches the wait-for-key
/// instruction leaves the whole machine — the program counter included —
/// exactly as it was, so the same instruction is fetched again on every
/// later step; the first step that sees a pressed key stores the lowest
/// pressed index in register `x` and advances the program counter once.
pub proof fn lemma_wait_key_polls(pre: Chip8, post: Chip8, r: Result<(), Chip8Error>)
    requires
        step_rel(pre, post, r),
        pre.pc + 1 < 4096,
        spec_opcode_class(
            spec_decode(
                Instruction::blank(),
                pre.mem@[pre.pc as int],
                pre.mem@[pre.pc as int + 1],
            ).opcode,
        ) == Opcode::WaitKey,
    ensures
        r == Ok::<(), Chip8Error>(()),
        !(exists|k: int| 0 <= k < 16 && pre.keys@[k]) ==> post == pre,
        (exists|k: int| 0 <= k < 16 && pre.keys@[k]) ==> post.pc == pre.pc + 2 && ld_vk_rel(
            pre,
            post,
            spec_decode(
                Instruction::blank(),
                pre.mem@[pre.pc as int],
                pre.mem@[pre.pc as int + 1],
            ).x as int,
        ),
{
}

/// The two states agree everywhere but the register file and the
/// program counter.
pub open spec fn same_but_regs_pc(pre: Chip8, post: Chip8) -> bool {
    &&& post.i == pre.i
    &&& post.dt == pre.dt
    &&& post.st == pre.st
    &&& post.mem@ == pre.mem@
    &&& post.stack@ == pre.stack@
    &&& post.screen.buffer@ == pre.screen.buffer@
    &&& post.keys@ == pre.keys@
}

/// The two states agree everywhere but the call stack and the program
/// counter.
pub open spec fn same_but_stack_pc(pre: Chip8, post: Chip8) -> bool {
    &&& post.regs@ == pre.regs@
    &&& post.i == pre.i
    &&& post.dt == pre.dt
    &&& post.st == pre.st
    &&& post.mem@ == pre.mem@
    &&& post.screen.buffer@ == pre.screen.buffer@
    &&& post.keys@ == pre.keys@
}

/// The two states agree everywhere but the register file, the index
/// register and the program counter.
pub open spec fn same_but_regs_i_pc(pre: Chip8, post: Chip8) -> bool {
    &&& post.dt == pre.dt
    &&& post.st == pre.st
    &&& post.mem@ == pre.mem@
    &&& post.stack@ == pre.stack@
    &&& post.screen.buffer@ == pre.screen.buffer@
    &&& post.keys@ == pre.keys@
}

/// The two states agree everywhere but memory and the program counter.
pub open spec fn same_but_mem_pc(pre: Chip8, post: Chip8) -> bool {
    &&& post.regs@ == pre.regs@
    &&& post.i == pre.i
    &&& post.dt == pre.dt
    &&& post.st == pre.st
    &&& post.stack@ == pre.stack@
    &&& post.screen.buffer@ == pre.screen.buffer@
    &&& post.keys@ == pre.keys@
}

/// The two states agree everywhere but the display, the register file
/// and the program counter.
pub open spec fn same_but_screen_regs_pc(pre: Chip8, post: Chip8) -> bool {
    &&& post.i == pre.i
    &&& post.dt == pre.dt
    &&& post.st == pre.st
    &&& post.mem@ == pre.mem@
    &&& post.stack@ == pre.stack@
    &&& post.keys@ == pre.keys@
}

/// The two states agree everywhere but the timers and the program
/// counter.
pub open spec fn same_but_timers_pc(pre: Chip8, post: Chip8) -> bool {
    &&& post.regs@ == pre.regs@
    &&& post.i == pre.i
    &&& post.mem@ == pre.mem@
    &&& post.stack@ == pre.stack@
    &&& post.screen.buffer@ == pre.screen.buffer@
    &&& post.keys@ == pre.keys@
}

} // verus!

