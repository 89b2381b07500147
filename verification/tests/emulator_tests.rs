use mcc::assembler::assemble;
use mcc::emulator::Emulator;
use mcc::ext::ExtManager;
use mcc::ext::Extension;
use mcc::ext::NoExt;
use mcc::isa::Instruction;
use mcc::nibble::u4;

fn zero_mem() -> [u4; 256] {
    [u4::from_low(0); 256]
}

fn boot(mem: [u4; 256]) -> Emulator<NoExt> {
    let mut emu = Emulator::new(mem, NoExt);
    emu.start();
    emu
}

#[test]
fn start_sets_registers_and_runs() {
    let mut emu = Emulator::new(zero_mem(), NoExt);
    assert!(!emu.is_running);
    emu.start();
    assert!(emu.is_running);
    assert_eq!(emu.ip(), 0x30);
    assert_eq!(emu.dp(), 0x20);
    assert_eq!(emu.sp().into_low(), 0);
}

#[test]
fn tick_is_noop_when_stopped() {
    let mut emu = Emulator::new(zero_mem(), NoExt);
    assert_eq!(emu.tick(), None);
}

#[test]
fn register_writes_go_through_memory_cells() {
    let mut emu = boot(zero_mem());
    emu.set_ip(0xAB);
    assert_eq!(emu.ghost_read_mem(0x00).into_low(), 0xB);
    assert_eq!(emu.ghost_read_mem(0x01).into_low(), 0xA);
    assert_eq!(emu.ip(), 0xAB);
    emu.set_dp(0x5C);
    assert_eq!(emu.ghost_read_mem(0x02).into_low(), 0xC);
    assert_eq!(emu.ghost_read_mem(0x03).into_low(), 0x5);
    assert_eq!(emu.dp(), 0x5C);
    assert_eq!(emu.ghost_read_mem8(0x02), 0x5C);
}

#[test]
fn stack_push_pop_peek() {
    let mut emu = boot(zero_mem());
    emu.stack_push(u4::from_low(7));
    assert_eq!(emu.sp().into_low(), 1);
    assert_eq!(emu.stack_peek().into_low(), 7);
    emu.stack_push(u4::from_low(3));
    assert_eq!(emu.sp().into_low(), 2);
    assert_eq!(emu.stack_pop().into_low(), 3);
    assert_eq!(emu.stack_pop().into_low(), 7);
    assert_eq!(emu.sp().into_low(), 0);
}

#[test]
fn stack_saturates_at_its_base() {
    // Popping with sp at 0 returns the bottom value twice, sp stays 0.
    let mut emu = boot(zero_mem());
    emu.write_mem(0x10, u4::from_low(9));
    assert_eq!(emu.sp().into_low(), 0);
    assert_eq!(emu.stack_pop().into_low(), 9);
    assert_eq!(emu.sp().into_low(), 0);
    assert_eq!(emu.stack_pop().into_low(), 9);
    assert_eq!(emu.sp().into_low(), 0);
}

#[test]
fn nop_tick_changes_only_ip() {
    let mut emu = boot(zero_mem());
    let before: Vec<u8> = (0..=255u8).map(|a| emu.ghost_read_mem(a).into_low()).collect();
    assert_eq!(emu.tick(), Some(Instruction::Nop));
    let after: Vec<u8> = (0..=255u8).map(|a| emu.ghost_read_mem(a).into_low()).collect();
    assert_eq!(emu.ip(), 0x31);
    for a in 2..256 {
        assert_eq!(before[a], after[a], "cell {:#x} changed", a);
    }
    assert!(emu.is_running);
}

#[test]
fn end_to_end_push_add_store() {
    // Two data nibbles at the data window, summed and stored back at dp.
    let image = assemble(b".org 20\n0x3 0x4\n.org 30\npsi psi add pod nop").expect("asm");
    let mut emu = Emulator::new(image, NoExt);
    emu.start();
    assert_eq!(emu.tick(), Some(Instruction::Psi));
    assert_eq!(emu.tick(), Some(Instruction::Psi));
    assert_eq!(emu.tick(), Some(Instruction::Add));
    assert_eq!(emu.stack_peek().into_low(), 7);
    assert_eq!(emu.tick(), Some(Instruction::Pod));
    // pod stored the sum at dp 0x22, then stepped dp back to 0x21.
    assert_eq!(emu.ghost_read_mem(0x22).into_low(), 7);
    assert_eq!(emu.dp(), 0x21);
    assert_eq!(emu.tick(), Some(Instruction::Nop));
    assert!(emu.is_running);
}

#[test]
fn add_wraps_modulo_16() {
    let image = assemble(b".org 20\n0xf 0x9\n.org 30\npsi psi add").expect("asm");
    let mut emu = Emulator::new(image, NoExt);
    emu.start();
    emu.tick();
    emu.tick();
    emu.tick();
    assert_eq!(emu.stack_peek().into_low(), (0xf + 0x9) % 16);
}

#[test]
fn sub_pops_a_then_b() {
    // psi pushes m[0x20], then m[0x21]; sub pops a = m[0x21], b = m[0x20].
    let image = assemble(b".org 20\n0x2 0x9\n.org 30\npsi psi sub").expect("asm");
    let mut emu = Emulator::new(image, NoExt);
    emu.start();
    emu.tick();
    emu.tick();
    emu.tick();
    assert_eq!(emu.stack_peek().into_low(), 9 - 2);
}

#[test]
fn swp_swaps_top_two() {
    let image = assemble(b".org 20\n0x1 0x2\n.org 30\npsi psi swp").expect("asm");
    let mut emu = Emulator::new(image, NoExt);
    emu.start();
    emu.tick();
    emu.tick();
    emu.tick();
    assert_eq!(emu.stack_pop().into_low(), 1);
    assert_eq!(emu.stack_pop().into_low(), 2);
}

#[test]
fn jmp_redirects_control_flow() {
    // Push low then high of the target; jmp pops low into IP's low cell,
    // then high into IP's high cell, and suppresses the advance.
    let image = assemble(b".org 20\n0x4 0x2\n.org 30\npsi psi swp jmp").expect("asm");
    let mut emu = Emulator::new(image, NoExt);
    emu.start();
    emu.tick(); // psi: push 4
    emu.tick(); // psi: push 2
    emu.tick(); // swp: top is 4, below is 2
    assert_eq!(emu.tick(), Some(Instruction::Jmp));
    assert_eq!(emu.ip(), 0x24);
    assert!(emu.is_running);
}

#[test]
fn jnz_falls_through_on_zero() {
    let image = assemble(b".org 30\njnz nop").expect("asm");
    let mut emu = Emulator::new(image, NoExt);
    emu.start();
    assert_eq!(emu.tick(), Some(Instruction::Jnz));
    assert_eq!(emu.ip(), 0x31);
}

#[test]
fn jnz_overwrites_ip_low_on_nonzero() {
    // Stack top nonzero: IP's low nibble takes m[dp], advance suppressed.
    let image = assemble(b".org 20\n0x5\n.org 30\npsi psd jnz").expect("asm");
    let mut emu = Emulator::new(image, NoExt);
    emu.start();
    emu.tick(); // psi: push 5, dp 0x21
    emu.tick(); // psd: push m[0x21] = 0, dp 0x20
    emu.stack_pop(); // drop the zero, top is 5
    assert_eq!(emu.tick(), Some(Instruction::Jnz));
    // IP was 0x32; its low nibble becomes m[0x20] = 5.
    assert_eq!(emu.ip(), 0x35);
}

#[test]
fn inc_dec_wrap() {
    let image = assemble(b".org 20\n0xf\n.org 30\npsi inc").expect("asm");
    let mut emu = Emulator::new(image, NoExt);
    emu.start();
    emu.tick();
    emu.tick();
    assert_eq!(emu.stack_peek().into_low(), 0);
    let image = assemble(b".org 30\npsi dec").expect("asm");
    let mut emu = Emulator::new(image, NoExt);
    emu.start();
    emu.tick(); // psi pushes m[0x20] = 0
    emu.tick(); // dec wraps to 15
    assert_eq!(emu.stack_peek().into_low(), 15);
}

#[test]
fn di_dd_move_the_data_pointer() {
    let mut emu = boot(zero_mem());
    emu.write_mem(0x30, Instruction::Di.into_u4());
    emu.write_mem(0x31, Instruction::Dd.into_u4());
    emu.tick();
    assert_eq!(emu.dp(), 0x21);
    emu.tick();
    assert_eq!(emu.dp(), 0x20);
}

#[test]
fn mdp_loads_dp_from_stack() {
    let mut emu = boot(zero_mem());
    emu.stack_push(u4::from_low(0xA)); // becomes DP high
    emu.stack_push(u4::from_low(0x3)); // popped first: DP low
    emu.write_mem(0x30, Instruction::Mdp.into_u4());
    emu.tick();
    assert_eq!(emu.dp(), 0xA3);
}

#[test]
fn machine_self_halts_at_top_of_memory() {
    let mut emu = boot(zero_mem());
    emu.set_ip(0xFE);
    assert_eq!(emu.tick(), Some(Instruction::Nop));
    // IP reached 0xFF: the machine reports the opcode and halts.
    assert_eq!(emu.tick(), Some(Instruction::Nop));
    assert!(!emu.is_running);
    assert_eq!(emu.tick(), None);
}

struct Probe {
    reads: Vec<u8>,
    writes: Vec<(u8, u8)>,
    supply_at: u8,
    supply: u8,
}

impl Extension for Probe {
    fn transparent(&self) -> bool {
        false
    }

    fn on_mem_read(&mut self, addr: u8, _mem: &[u4; 256]) -> Option<u4> {
        self.reads.push(addr);
        if addr == self.supply_at {
            Some(u4::from_low(self.supply))
        } else {
            None
        }
    }

    fn on_mem_write(&mut self, addr: u8, value: u4, mem: &[u4; 256]) {
        // The raw cell is written before the hook hears of it.
        assert_eq!(mem[addr as usize].into_low(), value.into_low());
        self.writes.push((addr, value.into_low()));
    }
}

#[test]
fn hooks_observe_reads_and_writes() {
    let probe = Probe { reads: Vec::new(), writes: Vec::new(), supply_at: 0xF0, supply: 0xC };
    let mut emu = Emulator::new(zero_mem(), probe);
    // A hook-supplied value replaces the raw cell on reads.
    assert_eq!(emu.read_mem(0xF0).into_low(), 0xC);
    assert_eq!(emu.ghost_read_mem(0xF0).into_low(), 0);
    // Raw reads bypass the hook; hooked reads are recorded.
    assert_eq!(emu.read_mem(0x42).into_low(), 0);
    emu.write_mem(0x42, u4::from_low(5));
    assert_eq!(emu.ext.reads, vec![0xF0, 0x42]);
    assert_eq!(emu.ext.writes, vec![(0x42, 5)]);
}

#[test]
fn register_traffic_is_visible_to_hooks() {
    let probe = Probe { reads: Vec::new(), writes: Vec::new(), supply_at: 0xFF, supply: 0 };
    let mut emu = Emulator::new(zero_mem(), probe);
    emu.start();
    // start writes IP (2 cells), DP (2 cells) and SP (1 cell).
    assert_eq!(
        emu.ext.writes,
        vec![(0x00, 0x0), (0x01, 0x3), (0x02, 0x0), (0x03, 0x2), (0x04, 0x0)]
    );
}

#[test]
fn ext_manager_first_answer_wins() {
    let first = Probe { reads: Vec::new(), writes: Vec::new(), supply_at: 0x80, supply: 1 };
    let second = Probe { reads: Vec::new(), writes: Vec::new(), supply_at: 0x80, supply: 2 };
    let mgr = ExtManager::new(vec![first, second]);
    let mut emu = Emulator::new(zero_mem(), mgr);
    assert_eq!(emu.read_mem(0x80).into_low(), 1);
    // Where no hook answers, the raw cell does.
    assert_eq!(emu.read_mem(0x81).into_low(), 0);
}
