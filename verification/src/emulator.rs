//! The emulator core: a 256-nibble memory whose cells double as registers,
//! and a cycle-stepped fetch-decode-execute loop. Every read and write of a
//! running program goes through one access point that consults the
//! peripheral hooks first.
//!
//! The memory is modelled as the sequence of its 256 nibble values
//! (`Seq<u8>`, each element below 16). While the attached hook set is
//! transparent (intercepts no read), every operation's effect on that model
//! is stated exactly.

use vstd::prelude::*;
use crate::ext::Extension;
use crate::isa::Instruction;
use crate::isa::spec_from_u4;
use crate::nibble::u4;

verus! {

/// Address of the instruction pointer's low nibble.
pub const IP_ADDR0: u8 = 0x00;

/// Address of the instruction pointer's high nibble.
pub const IP_ADDR1: u8 = 0x01;

/// Address of the data pointer's low nibble.
pub const DP_ADDR0: u8 = 0x02;

/// Address of the data pointer's high nibble.
pub const DP_ADDR1: u8 = 0x03;

/// Address of the stack pointer.
pub const SP_ADDR: u8 = 0x04;

/// Base address of the 16-cell stack region.
pub const STACK_START: u8 = 0x10;

/// The sequence of nibble values a memory image holds.
pub open spec fn seq_vals(s: Seq<u4>) -> Seq<u8> {
    s.map_values(|x: u4| x.val())
}

/// A well-formed memory model: 256 cells, each a 4-bit value.
pub open spec fn wf_memv(m: Seq<u8>) -> bool {
    &&& m.len() == 256
    &&& forall|i: int| 0 <= i < 256 ==> m[i] < 16
}

/// One cell of the memory model.
pub open spec fn memv_read(m: Seq<u8>, addr: u8) -> u8 {
    m[addr as int]
}

/// The memory model with one cell replaced.
pub open spec fn memv_write(m: Seq<u8>, addr: u8, v: u8) -> Seq<u8>
    recommends
        v < 16,
{
    m.update(addr as int, v)
}

/// An 8-bit value read from two adjacent cells, low nibble first.
pub open spec fn memv_read8(m: Seq<u8>, addr: u8) -> u8
    recommends
        addr < 255,
        wf_memv(m),
{
    (m[addr as int] + m[addr as int + 1] * 16) as u8
}

/// An 8-bit value decomposed into two adjacent cells, low nibble first.
pub open spec fn memv_write8(m: Seq<u8>, addr: u8, v: u8) -> Seq<u8>
    recommends
        addr < 255,
{
    memv_write(memv_write(m, addr, v % 16), (addr + 1) as u8, v / 16)
}

/// The instruction pointer held in cells 0 and 1.
pub open spec fn ip_of(m: Seq<u8>) -> u8 {
    memv_read8(m, 0x00)
}

/// The data pointer held in cells 2 and 3.
pub open spec fn dp_of(m: Seq<u8>) -> u8 {
    memv_read8(m, 0x02)
}

/// The stack pointer held in cell 4.
pub open spec fn sp_of(m: Seq<u8>) -> u8 {
    m[0x04]
}

/// The cell the stack pointer designates.
pub open spec fn stack_addr(sp: u8) -> u8
    recommends
        sp < 16,
{
    (0x10 + sp) as u8
}

/// 8-bit addition wrapping modulo 256.
pub open spec fn add8(x: u8, n: u8) -> u8 {
    ((x + n) % 256) as u8
}

/// 8-bit subtraction wrapping modulo 256.
pub open spec fn sub8(x: u8, n: u8) -> u8 {
    ((x + 256 - n) % 256) as u8
}

/// A push: the stack pointer advances modulo 16, then the designated cell
/// takes the value; both through the ordinary write path.
pub open spec fn push_spec(m: Seq<u8>, v: u8) -> Seq<u8>
    recommends
        wf_memv(m),
        v < 16,
{
    let nsp = ((sp_of(m) + 1) % 16) as u8;
    memv_write(memv_write(m, SP_ADDR, nsp), stack_addr(nsp), v)
}

/// The value a peek returns: the cell the stack pointer designates.
pub open spec fn peek_spec(m: Seq<u8>) -> u8
    recommends
        wf_memv(m),
{
    m[stack_addr(sp_of(m)) as int]
}

/// A pop: the peeked value, and the stack pointer stepped back — except at
/// the stack's base, where popping saturates and changes nothing.
pub open spec fn pop_spec(m: Seq<u8>) -> (Seq<u8>, u8)
    recommends
        wf_memv(m),
{
    let v = peek_spec(m);
    if sp_of(m) == 0 {
        (m, v)
    } else {
        (memv_write(m, SP_ADDR, (sp_of(m) - 1) as u8), v)
    }
}

/// The memory after one instruction's own effect (control-flow advance
/// excluded), written as the exact sequence of reads and writes the core
/// performs.
pub open spec fn exec_op(m: Seq<u8>, op: Instruction) -> Seq<u8>
    recommends
        wf_memv(m),
{
    match op {
        Instruction::Nop => m,
        Instruction::Psi => {
            let m1 = push_spec(m, m[dp_of(m) as int]);
            memv_write8(m1, DP_ADDR0, add8(dp_of(m1), 1))
        },
        Instruction::Psd => {
            let m1 = push_spec(m, m[dp_of(m) as int]);
            memv_write8(m1, DP_ADDR0, sub8(dp_of(m1), 1))
        },
        Instruction::Poi => {
            let (m1, v) = pop_spec(m);
            let m2 = memv_write(m1, dp_of(m1), v);
            memv_write8(m2, DP_ADDR0, add8(dp_of(m2), 1))
        },
        Instruction::Pod => {
            let (m1, v) = pop_spec(m);
            let m2 = memv_write(m1, dp_of(m1), v);
            memv_write8(m2, DP_ADDR0, sub8(dp_of(m2), 1))
        },
        Instruction::Swp => {
            let (m1, a) = pop_spec(m);
            let (m2, b) = pop_spec(m1);
            push_spec(push_spec(m2, a), b)
        },
        Instruction::Mdp => {
            let (m1, a) = pop_spec(m);
            let m2 = memv_write(m1, DP_ADDR0, a);
            let (m3, b) = pop_spec(m2);
            memv_write(m3, DP_ADDR1, b)
        },
        Instruction::Di => memv_write8(m, DP_ADDR0, add8(dp_of(m), 1)),
        Instruction::Dd => memv_write8(m, DP_ADDR0, sub8(dp_of(m), 1)),
        Instruction::Jmp => {
            let (m1, a) = pop_spec(m);
            let m2 = memv_write(m1, IP_ADDR0, a);
            let (m3, b) = pop_spec(m2);
            memv_write(m3, IP_ADDR1, b)
        },
        Instruction::Jnz => {
            if peek_spec(m) != 0 {
                memv_write(m, IP_ADDR0, m[dp_of(m) as int])
            } else {
                m
            }
        },
        Instruction::Inc => {
            let (m1, v) = pop_spec(m);
            push_spec(m1, ((v + 1) % 16) as u8)
        },
        Instruction::Dec => {
            let (m1, v) = pop_spec(m);
            push_spec(m1, ((v + 15) % 16) as u8)
        },
        Instruction::Add => {
            let (m1, a) = pop_spec(m);
            let (m2, b) = pop_spec(m1);
            push_spec(m2, ((a + b) % 16) as u8)
        },
        Instruction::Sub => {
            let (m1, a) = pop_spec(m);
            let (m2, b) = pop_spec(m1);
            push_spec(m2, ((a + 16 - b) % 16) as u8)
        },
        Instruction::Mul => {
            let (m1, a) = pop_spec(m);
            let (m2, b) = pop_spec(m1);
            push_spec(m2, ((a * b) % 16) as u8)
        },
    }
}

/// The opcode one step fetches: the cell the instruction pointer designates.
pub open spec fn tick_op(m: Seq<u8>) -> Instruction
    recommends
        wf_memv(m),
{
    spec_from_u4(m[ip_of(m) as int])
}

/// True when the fetched instruction redirected control flow itself, which
/// suppresses the automatic advance of the instruction pointer.
pub open spec fn jumped(m: Seq<u8>, op: Instruction) -> bool
    recommends
        wf_memv(m),
{
    op == Instruction::Jmp || (op == Instruction::Jnz && peek_spec(m) != 0)
}

/// The memory after one full step: execute the fetched instruction, then,
/// unless it jumped or the machine self-halts at the top of the address
/// space, advance the instruction pointer.
pub open spec fn tick_mem(m: Seq<u8>) -> Seq<u8>
    recommends
        wf_memv(m),
{
    let op = tick_op(m);
    let m1 = exec_op(m, op);
    if ip_of(m1) == 255 {
        m1
    } else if jumped(m, op) {
        m1
    } else {
        memv_write8(m1, IP_ADDR0, (ip_of(m1) + 1) as u8)
    }
}

/// Whether the machine is still running after one full step: it self-halts
/// when the instruction pointer reaches the top of the address space.
pub open spec fn tick_running(m: Seq<u8>) -> bool
    recommends
        wf_memv(m),
{
    ip_of(exec_op(m, tick_op(m))) != 255
}

/// The emulator: the sole owner of the memory, a running flag, and the
/// attached peripheral hook set.
pub struct Emulator<E: Extension> {
    pub mem: [u4; 256],
    pub is_running: bool,
    pub ext: E,
}

impl<E: Extension> Emulator<E> {
    /// The memory model: the sequence of the 256 nibble values.
    pub open spec fn memv(self) -> Seq<u8> {
        seq_vals(self.mem@)
    }

    /// A well-formed emulator: its memory model is well-formed. Established
    /// by `new` and preserved by every operation.
    pub open spec fn wf(self) -> bool {
        wf_memv(self.memv())
    }

    /// Construct a stopped emulator owning the given memory image, with the
    /// given peripheral hook set attached.
    pub fn new(mem: [u4; 256], ext: E) -> (r: Self)
        ensures
            r.wf(),
            r.memv() == seq_vals(mem@),
            !r.is_running,
            r.ext == ext,
    {
        let mut i: usize = 0;
        while i < 256
            invariant
                0 <= i <= 256,
                forall|j: int| 0 <= j < i ==> seq_vals(mem@)[j] < 16,
            decreases 256 - i,
        {
            let x = mem[i];
            let v = x.into_low();
            proof {
                assert(seq_vals(mem@)[i as int] == x.val());
            }
            i += 1;
        }
        Emulator { mem, is_running: false, ext }
    }

    /// Read one cell through the access point: the hooks are asked first,
    /// the raw cell answers when none of them does.
    pub fn read_mem(&mut self, addr: u8) -> (r: u4)
        requires
            old(self).wf(),
        ensures
            final(self).wf(),
            final(self).memv() == old(self).memv(),
            final(self).is_running == old(self).is_running,
            r.val() < 16,
            old(self).ext.transparent() ==> final(self).ext.transparent()
                && r.val() == old(self).memv()[addr as int],
    {
        let out = self.ext.on_mem_read(addr, &self.mem);
        match out {
            Some(v) => v,
            None => {
                let raw = self.mem[addr as usize];
                proof {
                    assert(raw.val() == old(self).memv()[addr as int]);
                }
                raw
            },
        }
    }

    /// Read one cell without consulting the hooks: what a hook itself sees.
    pub fn ghost_read_mem(&self, addr: u8) -> (r: u4)
        requires
            self.wf(),
        ensures
            r.val() == self.memv()[addr as int],
            r.val() < 16,
    {
        let raw = self.mem[addr as usize];
        proof {
            assert(raw.val() == self.memv()[addr as int]);
        }
        raw
    }

    /// Write one cell through the access point: the raw cell is written
    /// first, then every hook is notified.
    pub fn write_mem(&mut self, addr: u8, value: u4)
        requires
            old(self).wf(),
        ensures
            final(self).wf(),
            final(self).memv() == memv_write(old(self).memv(), addr, value.val()),
            final(self).is_running == old(self).is_running,
            old(self).ext.transparent() ==> final(self).ext.transparent(),
    {
        let v = value.into_low();
        self.mem[addr as usize] = value;
        proof {
            assert(seq_vals(self.mem@) =~= seq_vals(old(self).mem@).update(
                addr as int,
                value.val(),
            ));
        }
        self.ext.on_mem_write(addr, value, &self.mem);
    }

    /// Read an 8-bit value from two adjacent cells, low nibble first,
    /// through the access point.
    pub fn read_mem8(&mut self, addr: u8) -> (r: u8)
        requires
            old(self).wf(),
            addr < 255,
        ensures
            final(self).wf(),
            final(self).memv() == old(self).memv(),
            final(self).is_running == old(self).is_running,
            old(self).ext.transparent() ==> final(self).ext.transparent()
                && r == memv_read8(old(self).memv(), addr),
    {
        let lower = self.read_mem(addr).into_low();
        let upper = self.read_mem(addr + 1).into_high();
        lower + upper
    }

    /// Read an 8-bit value from two adjacent cells without consulting the
    /// hooks.
    pub fn ghost_read_mem8(&self, addr: u8) -> (r: u8)
        requires
            self.wf(),
            addr < 255,
        ensures
            r == memv_read8(self.memv(), addr),
    {
        let lower = self.ghost_read_mem(addr).into_low();
        let upper = self.ghost_read_mem(addr + 1).into_high();
        lower + upper
    }

    /// Write an 8-bit value into two adjacent cells, low nibble first,
    /// through the access point.
    pub fn write_mem8(&mut self, addr: u8, value: u8)
        requires
            old(self).wf(),
            addr < 255,
        ensures
            final(self).wf(),
            final(self).memv() == memv_write8(old(self).memv(), addr, value),
            final(self).is_running == old(self).is_running,
            old(self).ext.transparent() ==> final(self).ext.transparent(),
    {
        self.write_mem(addr, u4::from_low(value));
        self.write_mem(addr + 1, u4::from_high(value));
    }

    /// Set the data pointer, through the ordinary write path.
    pub fn set_dp(&mut self, value: u8)
        requires
            old(self).wf(),
        ensures
            final(self).wf(),
            final(self).memv() == memv_write8(old(self).memv(), DP_ADDR0, value),
            final(self).is_running == old(self).is_running,
            old(self).ext.transparent() ==> final(self).ext.transparent(),
    {
        self.write_mem8(DP_ADDR0, value);
    }

    /// The data pointer, read through the access point.
    pub fn dp(&mut self) -> (r: u8)
        requires
            old(self).wf(),
        ensures
            final(self).wf(),
            final(self).memv() == old(self).memv(),
            final(self).is_running == old(self).is_running,
            old(self).ext.transparent() ==> final(self).ext.transparent()
                && r == dp_of(old(self).memv()),
    {
        self.read_mem8(DP_ADDR0)
    }

    /// Set the instruction pointer, through the ordinary write path.
    pub fn set_ip(&mut self, value: u8)
        requires
            old(self).wf(),
        ensures
            final(self).wf(),
            final(self).memv() == memv_write8(old(self).memv(), IP_ADDR0, value),
            final(self).is_running == old(self).is_running,
            old(self).ext.transparent() ==> final(self).ext.transparent(),
    {
        self.write_mem8(IP_ADDR0, value);
    }

    /// The instruction pointer, read through the access point.
    pub fn ip(&mut self) -> (r: u8)
        requires
            old(self).wf(),
        ensures
            final(self).wf(),
            final(self).memv() == old(self).memv(),
            final(self).is_running == old(self).is_running,
            old(self).ext.transparent() ==> final(self).ext.transparent()
                && r == ip_of(old(self).memv()),
    {
        self.read_mem8(IP_ADDR0)
    }

    /// The stack pointer, read through the access point.
    pub fn sp(&mut self) -> (r: u4)
        requires
            old(self).wf(),
        ensures
            final(self).wf(),
            final(self).memv() == old(self).memv(),
            final(self).is_running == old(self).is_running,
            r.val() < 16,
            old(self).ext.transparent() ==> final(self).ext.transparent()
                && r.val() == sp_of(old(self).memv()),
    {
        self.read_mem(SP_ADDR)
    }

    /// Set the stack pointer, through the ordinary write path.
    pub fn set_sp(&mut self, value: u4)
        requires
            old(self).wf(),
        ensures
            final(self).wf(),
            final(self).memv() == memv_write(old(self).memv(), SP_ADDR, value.val()),
            final(self).is_running == old(self).is_running,
            old(self).ext.transparent() ==> final(self).ext.transparent(),
    {
        self.write_mem(SP_ADDR, value);
    }

    /// Push onto the stack: advance the stack pointer modulo 16, then store
    /// the value in the cell it designates.
    pub fn stack_push(&mut self, value: u4)
        requires
            old(self).wf(),
        ensures
            final(self).wf(),
            final(self).is_running == old(self).is_running,
            old(self).ext.transparent() ==> final(self).ext.transparent()
                && final(self).memv() == push_spec(old(self).memv(), value.val()),
    {
        let s = self.sp();
        self.set_sp(s.overflowing_add(u4::from_low(1)));
        let s2 = self.sp();
        self.write_mem(STACK_START + s2.into_low(), value);
    }

    /// Pop from the stack: return the designated cell's value and step the
    /// stack pointer back — at the stack's base it saturates: the bottom
    /// value is returned again and the pointer stays at 0.
    pub fn stack_pop(&mut self) -> (r: u4)
        requires
            old(self).wf(),
        ensures
            final(self).wf(),
            final(self).is_running == old(self).is_running,
            r.val() < 16,
            old(self).ext.transparent() ==> final(self).ext.transparent()
                && final(self).memv() == pop_spec(old(self).memv()).0
                && r.val() == pop_spec(old(self).memv()).1,
    {
        let value = self.stack_peek();
        let s = self.sp();
        if s.into_low() == 0 {
            return value;
        }
        self.set_sp(s.overflowing_sub(u4::from_low(1)));
        value
    }

    /// Peek at the stack: the designated cell's value, read through the
    /// access point, without moving the stack pointer.
    pub fn stack_peek(&mut self) -> (r: u4)
        requires
            old(self).wf(),
        ensures
            final(self).wf(),
            final(self).memv() == old(self).memv(),
            final(self).is_running == old(self).is_running,
            r.val() < 16,
            old(self).ext.transparent() ==> final(self).ext.transparent()
                && r.val() == peek_spec(old(self).memv()),
    {
        let s = self.sp();
        self.read_mem(STACK_START + s.into_low())
    }

    /// Start the machine: the instruction pointer is reset to the boot
    /// address 0x30, the data pointer to the data window base 0x20, the
    /// stack pointer to 0, and the running flag is set.
    pub fn start(&mut self)
        requires
            old(self).wf(),
        ensures
            final(self).wf(),
            final(self).memv() == memv_write(
                memv_write8(memv_write8(old(self).memv(), IP_ADDR0, 0x30), DP_ADDR0, 0x20),
                SP_ADDR,
                0,
            ),
            final(self).is_running,
            old(self).ext.transparent() ==> final(self).ext.transparent(),
    {
        self.set_ip(0x30);
        self.set_dp(0x20);
        self.set_sp(u4::from_low(0));
        self.is_running = true;
    }

    /// Stop the machine; `tick` becomes a no-op.
    pub fn stop(&mut self)
        requires
            old(self).wf(),
        ensures
            final(self).wf(),
            final(self).memv() == old(self).memv(),
            !final(self).is_running,
            final(self).ext == old(self).ext,
    {
        self.is_running = false;
    }

    /// Execute one decoded instruction's own semantics against the stack
    /// and the pointer registers; true when it redirected control flow.
    #[verifier::spinoff_prover]
    #[verifier::rlimit(100)]
    fn exec_instr(&mut self, instruct: Instruction) -> (jump: bool)
        requires
            old(self).wf(),
        ensures
            final(self).wf(),
            final(self).is_running == old(self).is_running,
            old(self).ext.transparent() ==> final(self).ext.transparent()
                && final(self).memv() == exec_op(old(self).memv(), instruct)
                && jump == jumped(old(self).memv(), instruct),
    {
        let mut jump = false;
        match instruct {
            Instruction::Nop => {},
            Instruction::Psi => {
                let d = self.dp();
                let v = self.read_mem(d);
                self.stack_push(v);
                let d2 = self.dp();
                self.set_dp(if d2 == 255 { 0 } else { d2 + 1 });
            },
            Instruction::Psd => {
                let d = self.dp();
                let v = self.read_mem(d);
                self.stack_push(v);
                let d2 = self.dp();
                self.set_dp(if d2 == 0 { 255 } else { d2 - 1 });
            },
            Instruction::Poi => {
                let val = self.stack_pop();
                let d = self.dp();
                self.write_mem(d, val);
                let d2 = self.dp();
                self.set_dp(if d2 == 255 { 0 } else { d2 + 1 });
            },
            Instruction::Pod => {
                let val = self.stack_pop();
                let d = self.dp();
                self.write_mem(d, val);
                let d2 = self.dp();
                self.set_dp(if d2 == 0 { 255 } else { d2 - 1 });
            },
            Instruction::Swp => {
                let val1 = self.stack_pop();
                let val2 = self.stack_pop();
                self.stack_push(val1);
                self.stack_push(val2);
            },
            Instruction::Mdp => {
                let val = self.stack_pop();
                self.write_mem(DP_ADDR0, val);
                let val = self.stack_pop();
                self.write_mem(DP_ADDR1, val);
            },
            Instruction::Di => {
                let d = self.dp();
                self.set_dp(if d == 255 { 0 } else { d + 1 });
            },
            Instruction::Dd => {
                let d = self.dp();
                self.set_dp(if d == 0 { 255 } else { d - 1 });
            },
            Instruction::Jmp => {
                let val = self.stack_pop();
                self.write_mem(IP_ADDR0, val);
                let val = self.stack_pop();
                self.write_mem(IP_ADDR1, val);
                jump = true;
            },
            Instruction::Jnz => {
                let val = self.stack_peek();
                if val.into_low() != 0 {
                    let d = self.dp();
                    let v = self.read_mem(d);
                    self.write_mem(IP_ADDR0, v);
                    jump = true;
                }
            },
            Instruction::Inc => {
                let val = self.stack_pop();
                self.stack_push(val.overflowing_add(u4::from_low(1)));
            },
            Instruction::Dec => {
                let val = self.stack_pop();
                self.stack_push(val.overflowing_sub(u4::from_low(1)));
            },
            Instruction::Add => {
                let a = self.stack_pop();
                let b = self.stack_pop();
                self.stack_push(a.overflowing_add(b));
            },
            Instruction::Sub => {
                let a = self.stack_pop();
                let b = self.stack_pop();
                self.stack_push(a.overflowing_sub(b));
            },
            Instruction::Mul => {
                let a = self.stack_pop();
                let b = self.stack_pop();
                self.stack_push(a.overflowing_mul(b));
            },
        }
        jump
    }

    /// One fetch-decode-execute step, or a no-op when the machine is
    /// stopped. While the hook set is transparent, the step's whole effect
    /// is exactly the step function `tick_mem` / `tick_running` of the
    /// memory model, and the executed opcode is the fetched one.
    #[verifier::spinoff_prover]
    #[verifier::rlimit(100)]
    pub fn tick(&mut self) -> (r: Option<Instruction>)
        requires
            old(self).wf(),
        ensures
            final(self).wf(),
            r is Some <==> old(self).is_running,
            !old(self).is_running ==> *final(self) == *old(self),
            old(self).is_running && old(self).ext.transparent() ==> {
                &&& final(self).ext.transparent()
                &&& final(self).memv() == tick_mem(old(self).memv())
                &&& final(self).is_running == tick_running(old(self).memv())
                &&& r == Some(tick_op(old(self).memv()))
            },
    {
        if !self.is_running {
            return None;
        }
        let ipv = self.ip();
        let current_nib = self.read_mem(ipv);
        let instruct: Instruction = Instruction::from_u4(current_nib);

        let jump = self.exec_instr(instruct);

        let ip2 = self.ip();
        if ip2 == 255 {
            self.stop();
            return Some(instruct);
        }
        if !jump {
            self.set_ip(ip2 + 1);
        }
        Some(instruct)
    }
}

/// Stack saturation law: with the stack pointer at the stack's base,
/// popping returns the bottom cell's value and changes nothing, so popping
/// twice returns the same value both times and leaves the pointer at 0.
pub proof fn lemma_stack_pop_saturates(m: Seq<u8>)
    requires
        wf_memv(m),
        sp_of(m) == 0,
    ensures
        pop_spec(m).0 == m,
        pop_spec(m).1 == m[0x10],
        pop_spec(pop_spec(m).0).1 == pop_spec(m).1,
        sp_of(pop_spec(m).0) == 0,
{
}

/// Idempotence law of `nop`: a step on a `nop` (away from the self-halt
/// address) only advances the instruction pointer; every memory cell
/// outside the instruction pointer's two register cells is unchanged, and
/// the machine keeps running.
pub proof fn lemma_nop_changes_only_ip(m: Seq<u8>)
    requires
        wf_memv(m),
        tick_op(m) == Instruction::Nop,
        ip_of(m) != 255,
    ensures
        tick_mem(m) == memv_write8(m, IP_ADDR0, (ip_of(m) + 1) as u8),
        ip_of(tick_mem(m)) == ip_of(m) + 1,
        forall|a: int| 2 <= a < 256 ==> tick_mem(m)[a] == m[a],
        tick_running(m),
{
    let ip = ip_of(m);
    let next = (ip + 1) as u8;
    assert(next % 16 + (next / 16) * 16 == next) by (nonlinear_arith);
}

} // verus!
