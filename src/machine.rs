use vstd::prelude::*;

use crate::display::{blank, draw_collides, draw_rows, Display, PIXELS};
use crate::error::Chip8Error;
use crate::instruction::{decode, decode_word, operands_fit, Instruction};
use crate::keypad::{key_bit, lowest_pressed, Keypad, KEY_COUNT};
use crate::memory::{
    initial_memory, with_program, word_at, Memory, GLYPH_HEIGHT, MAX_PROGRAM_SIZE, MEMORY_SIZE,
    PROGRAM_START,
};

verus! {

/// Number of general registers, V0 to VF.
pub const REGISTER_COUNT: usize = 16;

/// Depth of the return-address stack.
pub const STACK_DEPTH: usize = 16;

/// The flag register VF.
pub const FLAG: usize = 15;

/// Seed of the random byte generator for `Machine::new`.
pub const DEFAULT_SEED: u32 = 0x2545F491;

/// Everything a machine holds, as plain values.
pub struct MachineState {
    pub memory: Seq<u8>,
    pub screen: Seq<bool>,
    pub keys: u16,
    pub v: Seq<u8>,
    pub i: u16,
    pub pc: u16,
    pub sp: u16,
    pub stack: Seq<u16>,
    pub delay: u8,
    pub sound: u8,
    pub seed: u32,
}

/// The sizes of the parts of a state, and the stack pointer's range.
pub open spec fn state_wf(s: MachineState) -> bool {
    &&& s.memory.len() == MEMORY_SIZE
    &&& s.screen.len() == PIXELS
    &&& s.v.len() == REGISTER_COUNT
    &&& s.stack.len() == STACK_DEPTH
    &&& s.sp <= STACK_DEPTH
}

/// A sequence of `n` zeros.
pub open spec fn zeros<T>(n: nat, zero: T) -> Seq<T> {
    Seq::new(n, |k: int| zero)
}

/// The state after power-on with generator seed `seed`.
pub open spec fn power_on_state(seed: u32) -> MachineState {
    MachineState {
        memory: initial_memory(),
        screen: blank(),
        keys: 0,
        v: zeros(REGISTER_COUNT as nat, 0u8),
        i: 0,
        pc: PROGRAM_START as u16,
        sp: 0,
        stack: zeros(STACK_DEPTH as nat, 0u16),
        delay: 0,
        sound: 0,
        seed,
    }
}

/// `s` with `program` in the program region and registers, stack and timers
/// reset; the font, the screen, the keys and the generator are kept.
pub open spec fn loaded_state(s: MachineState, program: Seq<u8>) -> MachineState {
    MachineState {
        memory: with_program(s.memory, program),
        v: zeros(REGISTER_COUNT as nat, 0u8),
        i: 0,
        pc: PROGRAM_START as u16,
        sp: 0,
        stack: zeros(STACK_DEPTH as nat, 0u16),
        delay: 0,
        sound: 0,
        ..s
    }
}

/// One 60 Hz tick: each timer that is not zero goes down by one.
pub open spec fn ticked(s: MachineState) -> MachineState {
    MachineState {
        delay: if s.delay > 0 { (s.delay - 1) as u8 } else { 0 },
        sound: if s.sound > 0 { (s.sound - 1) as u8 } else { 0 },
        ..s
    }
}

/// The address two bytes on, wrapping at 16 bits.
pub open spec fn next_pc(pc: u16) -> u16 {
    ((pc + 2) % 0x10000) as u16
}

/// The address four bytes on (one instruction skipped), wrapping at 16 bits.
pub open spec fn skip_pc(pc: u16) -> u16 {
    ((pc + 4) % 0x10000) as u16
}

/// `skip_pc` when `cond` holds, else `next_pc`.
pub open spec fn cond_pc(pc: u16, cond: bool) -> u16 {
    if cond {
        skip_pc(pc)
    } else {
        next_pc(pc)
    }
}

/// The generator's next seed (a linear congruential step modulo 2^32).
pub open spec fn next_seed(seed: u32) -> u32 {
    ((seed as int * 1103515245 + 12345) % 0x1_0000_0000) as u32
}

/// The random byte drawn from `seed`: bits 16 to 23 of the next seed.
pub open spec fn random_byte(seed: u32) -> u8 {
    ((next_seed(seed) / 0x10000) % 0x100) as u8
}

/// Whether key number `k` is down in `mask`; numbers past the last key never are.
pub open spec fn key_down(mask: u16, k: u8) -> bool {
    k < KEY_COUNT && key_bit(mask, k)
}

/// `s` with register `x` set to `val` and the program counter moved on.
pub open spec fn set_reg(s: MachineState, x: u8, val: u8) -> MachineState {
    MachineState { v: s.v.update(x as int, val), pc: next_pc(s.pc), ..s }
}

/// `s` with register `x` set to `val`, then VF to `flag`, and the program
/// counter moved on.
pub open spec fn set_reg_flag(s: MachineState, x: u8, val: u8, flag: bool) -> MachineState {
    MachineState {
        v: s.v.update(x as int, val).update(FLAG as int, if flag { 1u8 } else { 0u8 }),
        pc: next_pc(s.pc),
        ..s
    }
}

/// The three decimal digits of `b`, hundreds first.
pub open spec fn bcd(b: u8) -> Seq<u8> {
    seq![(b / 100) as u8, ((b / 10) % 10) as u8, (b % 10) as u8]
}

/// `m` with `bytes` written from address `at` on.
pub open spec fn write_run(m: Seq<u8>, at: int, bytes: Seq<u8>) -> Seq<u8> {
    Seq::new(
        m.len(),
        |a: int|
            if at <= a < at + bytes.len() {
                bytes[a - at]
            } else {
                m[a]
            },
    )
}

/// What executing `ins` does to `s`: the next state, or the fault, in which
/// case the machine is left as it was.
#[verifier::opaque]
pub open spec fn execute_spec(s: MachineState, ins: Instruction) -> Result<MachineState, Chip8Error> {
    let vx = |x: u8| s.v[x as int];
    match ins {
        Instruction::Sys { .. } => Ok(MachineState { pc: next_pc(s.pc), ..s }),
        Instruction::Cls => Ok(MachineState { screen: blank(), pc: next_pc(s.pc), ..s }),
        Instruction::Ret => if s.sp == 0 {
            Err(Chip8Error::StackUnderflow)
        } else {
            Ok(MachineState { sp: (s.sp - 1) as u16, pc: s.stack[s.sp - 1], ..s })
        },
        Instruction::Jp { addr } => Ok(MachineState { pc: addr, ..s }),
        Instruction::Call { addr } => if s.sp >= STACK_DEPTH {
            Err(Chip8Error::StackOverflow)
        } else {
            Ok(
                MachineState {
                    stack: s.stack.update(s.sp as int, next_pc(s.pc)),
                    sp: (s.sp + 1) as u16,
                    pc: addr,
                    ..s
                },
            )
        },
        Instruction::SeByte { x, kk } => Ok(MachineState { pc: cond_pc(s.pc, vx(x) == kk), ..s }),
        Instruction::SneByte { x, kk } => Ok(MachineState { pc: cond_pc(s.pc, vx(x) != kk), ..s }),
        Instruction::SeReg { x, y } => Ok(MachineState { pc: cond_pc(s.pc, vx(x) == vx(y)), ..s }),
        Instruction::SneReg { x, y } => Ok(
            MachineState { pc: cond_pc(s.pc, vx(x) != vx(y)), ..s },
        ),
        Instruction::LdByte { x, kk } => Ok(set_reg(s, x, kk)),
        Instruction::AddByte { x, kk } => Ok(set_reg(s, x, ((vx(x) + kk) % 256) as u8)),
        Instruction::LdReg { x, y } => Ok(set_reg(s, x, vx(y))),
        Instruction::Or { x, y } => Ok(set_reg(s, x, vx(x) | vx(y))),
        Instruction::And { x, y } => Ok(set_reg(s, x, vx(x) & vx(y))),
        Instruction::Xor { x, y } => Ok(set_reg(s, x, vx(x) ^ vx(y))),
        Instruction::AddReg { x, y } => Ok(
            set_reg_flag(s, x, ((vx(x) + vx(y)) % 256) as u8, vx(x) + vx(y) > 255),
        ),
        Instruction::Sub { x, y } => Ok(
            set_reg_flag(s, x, ((vx(x) - vx(y)) % 256) as u8, vx(x) >= vx(y)),
        ),
        Instruction::Subn { x, y } => Ok(
            set_reg_flag(s, x, ((vx(y) - vx(x)) % 256) as u8, vx(y) >= vx(x)),
        ),
        Instruction::Shr { x, .. } => Ok(set_reg_flag(s, x, vx(x) / 2, vx(x) % 2 == 1)),
        Instruction::Shl { x, .. } => Ok(
            set_reg_flag(s, x, ((vx(x) * 2) % 256) as u8, vx(x) >= 128),
        ),
        Instruction::LdI { addr } => Ok(MachineState { i: addr, pc: next_pc(s.pc), ..s }),
        Instruction::JpV0 { addr } => Ok(MachineState { pc: (addr + vx(0)) as u16, ..s }),
        Instruction::Rnd { x, kk } => Ok(
            MachineState { seed: next_seed(s.seed), ..set_reg(s, x, random_byte(s.seed) & kk) },
        ),
        Instruction::Drw { x, y, n } => if s.i + n > MEMORY_SIZE {
            Err(Chip8Error::AddressOutOfBounds)
        } else {
            let sprite = s.memory.subrange(s.i as int, s.i + n);
            let col = vx(x) as int % 64;
            let row = vx(y) as int % 32;
            Ok(
                MachineState {
                    screen: draw_rows(s.screen, col, row, sprite, n as nat),
                    v: s.v.update(
                        FLAG as int,
                        if draw_collides(s.screen, col, row, sprite, n as nat) {
                            1u8
                        } else {
                            0u8
                        },
                    ),
                    pc: next_pc(s.pc),
                    ..s
                },
            )
        },
        Instruction::Skp { x } => Ok(MachineState { pc: cond_pc(s.pc, key_down(s.keys, vx(x))), ..s }),
        Instruction::Sknp { x } => Ok(
            MachineState { pc: cond_pc(s.pc, !key_down(s.keys, vx(x))), ..s },
        ),
        Instruction::LdVxDt { x } => Ok(set_reg(s, x, s.delay)),
        Instruction::LdVxK { x } => match lowest_pressed(s.keys) {
            Some(k) => Ok(set_reg(s, x, k)),
            None => Ok(s),
        },
        Instruction::LdDtVx { x } => Ok(MachineState { delay: vx(x), pc: next_pc(s.pc), ..s }),
        Instruction::LdStVx { x } => Ok(MachineState { sound: vx(x), pc: next_pc(s.pc), ..s }),
        Instruction::AddIVx { x } => Ok(
            MachineState { i: ((s.i + vx(x)) % 0x10000) as u16, pc: next_pc(s.pc), ..s },
        ),
        Instruction::LdFVx { x } => Ok(
            MachineState { i: (GLYPH_HEIGHT * (vx(x) % 16)) as u16, pc: next_pc(s.pc), ..s },
        ),
        Instruction::LdBVx { x } => if s.i + 3 > MEMORY_SIZE {
            Err(Chip8Error::AddressOutOfBounds)
        } else {
            Ok(
                MachineState {
                    memory: write_run(s.memory, s.i as int, bcd(vx(x))),
                    pc: next_pc(s.pc),
                    ..s
                },
            )
        },
        Instruction::StoreRegs { x } => if s.i + x + 1 > MEMORY_SIZE {
            Err(Chip8Error::AddressOutOfBounds)
        } else {
            Ok(
                MachineState {
                    memory: write_run(s.memory, s.i as int, s.v.subrange(0, x + 1)),
                    pc: next_pc(s.pc),
                    ..s
                },
            )
        },
        Instruction::LoadRegs { x } => if s.i + x + 1 > MEMORY_SIZE {
            Err(Chip8Error::AddressOutOfBounds)
        } else {
            Ok(
                MachineState {
                    v: write_run(s.v, 0, s.memory.subrange(s.i as int, s.i + x + 1)),
                    pc: next_pc(s.pc),
                    ..s
                },
            )
        },
    }
}

/// What one fetch-decode-execute cycle does to `s`.
pub open spec fn step_spec(s: MachineState) -> Result<MachineState, Chip8Error> {
    if s.pc + 1 >= MEMORY_SIZE {
        Err(Chip8Error::AddressOutOfBounds)
    } else {
        match decode_word(word_at(s.memory, s.pc as int)) {
            Some(ins) => execute_spec(s, ins),
            None => Err(Chip8Error::InvalidOpcode),
        }
    }
}

/// The machine after `r`: the new state when it is `Ok`, else `s` unchanged.
pub open spec fn outcome(s: MachineState, r: Result<MachineState, Chip8Error>) -> MachineState {
    match r {
        Ok(t) => t,
        Err(_) => s,
    }
}

/// The status of `r`.
pub open spec fn status(r: Result<MachineState, Chip8Error>) -> Result<(), Chip8Error> {
    match r {
        Ok(_) => Ok(()),
        Err(e) => Err(e),
    }
}

/// What the run loop does with a fault.
#[derive(Clone, Copy, Debug, PartialEq, Eq, Structural)]
pub enum FaultPolicy {
    /// Every fault stops the loop.
    Halt,
    /// An invalid opcode is passed over as a no-op; other faults stop the loop.
    SkipInvalid,
}

/// `steps` cycles from `s` then one timer tick, under `policy`: the final
/// state and status. A fault that stops the loop leaves the state in which
/// it arose, and no tick follows.
pub open spec fn run_spec(s: MachineState, steps: nat, policy: FaultPolicy) -> (
    MachineState,
    Result<(), Chip8Error>,
)
    decreases steps,
{
    if steps == 0 {
        (ticked(s), Ok(()))
    } else {
        match step_spec(s) {
            Ok(t) => run_spec(t, (steps - 1) as nat, policy),
            Err(e) => if e == Chip8Error::InvalidOpcode && policy == FaultPolicy::SkipInvalid {
                run_spec(MachineState { pc: next_pc(s.pc), ..s }, (steps - 1) as nat, policy)
            } else {
                (s, Err(e))
            },
        }
    }
}

/// The machine: memory, screen, keypad, registers, stack and timers.
pub struct Machine {
    memory: Memory,
    display: Display,
    keypad: Keypad,
    v: Vec<u8>,
    i: u16,
    pc: u16,
    sp: u16,
    stack: Vec<u16>,
    delay: u8,
    sound: u8,
    seed: u32,
}

impl View for Machine {
    type V = MachineState;

    closed spec fn view(&self) -> MachineState {
        MachineState {
            memory: self.memory@,
            screen: self.display@,
            keys: self.keypad@,
            v: self.v@,
            i: self.i,
            pc: self.pc,
            sp: self.sp,
            stack: self.stack@,
            delay: self.delay,
            sound: self.sound,
            seed: self.seed,
        }
    }
}

fn zero_bytes(n: usize) -> (r: Vec<u8>)
    ensures
        r@ == zeros(n as nat, 0u8),
{
    let mut r: Vec<u8> = Vec::new();
    let mut k: usize = 0;
    while k < n
        invariant
            k <= n,
            r@ == zeros(k as nat, 0u8),
        decreases n - k,
    {
        r.push(0);
        k = k + 1;
        assert(r@ =~= zeros(k as nat, 0u8));
    }
    r
}

fn zero_words(n: usize) -> (r: Vec<u16>)
    ensures
        r@ == zeros(n as nat, 0u16),
{
    let mut r: Vec<u16> = Vec::new();
    let mut k: usize = 0;
    while k < n
        invariant
            k <= n,
            r@ == zeros(k as nat, 0u16),
        decreases n - k,
    {
        r.push(0);
        k = k + 1;
        assert(r@ =~= zeros(k as nat, 0u16));
    }
    r
}

fn seed_after(seed: u32) -> (r: u32)
    ensures
        r == next_seed(seed),
{
    ((seed as u64 * 1103515245 + 12345) % 0x1_0000_0000) as u32
}

fn pc_after(pc: u16, bytes: u16) -> (r: u16)
    requires
        bytes == 2 || bytes == 4,
    ensures
        bytes == 2 ==> r == next_pc(pc),
        bytes == 4 ==> r == skip_pc(pc),
{
    if pc <= 0xFFFF - bytes {
        pc + bytes
    } else {
        pc - (0xFFFF - bytes + 1)
    }
}

impl Machine {
    pub open spec fn wf(&self) -> bool {
        state_wf(self@)
    }

    /// A powered-on machine with the default generator seed.
    pub fn new() -> (r: Machine)
        ensures
            r.wf(),
            r@ == power_on_state(DEFAULT_SEED),
    {
        Machine::with_seed(DEFAULT_SEED)
    }

    /// A powered-on machine whose random bytes start from `seed`.
    pub fn with_seed(seed: u32) -> (r: Machine)
        ensures
            r.wf(),
            r@ == power_on_state(seed),
    {
        Machine {
            memory: Memory::new(),
            display: Display::new(),
            keypad: Keypad::new(),
            v: zero_bytes(REGISTER_COUNT),
            i: 0,
            pc: PROGRAM_START as u16,
            sp: 0,
            stack: zero_words(STACK_DEPTH),
            delay: 0,
            sound: 0,
            seed,
        }
    }

    /// Resets everything to the power-on state; the generator goes on.
    pub fn init(&mut self)
        ensures
            final(self).wf(),
            final(self)@ == power_on_state(old(self)@.seed),
    {
        let seed = self.seed;
        *self = Machine::with_seed(seed);
    }

    /// Loads `program` at the start of the program region and resets the
    /// registers, the stack and the timers. A program longer than the region
    /// fails with `ProgramTooLarge` and changes nothing.
    pub fn load_program(&mut self, program: &[u8]) -> (r: Result<(), Chip8Error>)
        requires
            old(self).wf(),
        ensures
            final(self).wf(),
            program@.len() <= MAX_PROGRAM_SIZE ==> r is Ok && final(self)@ == loaded_state(
                old(self)@,
                program@,
            ),
            program@.len() > MAX_PROGRAM_SIZE ==> r == Err::<(), Chip8Error>(
                Chip8Error::ProgramTooLarge,
            ) && final(self)@ == old(self)@,
    {
        match self.memory.load_program(program) {
            Ok(()) => {},
            Err(e) => {
                return Err(e);
            },
        }
        self.v = zero_bytes(REGISTER_COUNT);
        self.i = 0;
        self.pc = PROGRAM_START as u16;
        self.sp = 0;
        self.stack = zero_words(STACK_DEPTH);
        self.delay = 0;
        self.sound = 0;
        Ok(())
    }

    /// Replaces the key snapshot; bit `k` of `mask` is key `k`.
    pub fn set_keys(&mut self, mask: u16)
        requires
            old(self).wf(),
        ensures
            final(self).wf(),
            final(self)@ == (MachineState { keys: mask, ..old(self)@ }),
    {
        self.keypad.set_keys(mask);
    }


    fn set_register(&mut self, x: u8, val: u8)
        requires
            old(self).wf(),
            x < REGISTER_COUNT,
        ensures
            final(self).wf(),
            final(self)@ == set_reg(old(self)@, x, val),
    {
        self.v.set(x as usize, val);
        self.pc = pc_after(self.pc, 2);
    }

    fn set_register_flag(&mut self, x: u8, val: u8, flag: bool)
        requires
            old(self).wf(),
            x < REGISTER_COUNT,
        ensures
            final(self).wf(),
            final(self)@ == set_reg_flag(old(self)@, x, val, flag),
    {
        self.v.set(x as usize, val);
        self.v.set(FLAG, if flag { 1 } else { 0 });
        self.pc = pc_after(self.pc, 2);
    }

    fn skip_if(&mut self, cond: bool)
        requires
            old(self).wf(),
        ensures
            final(self).wf(),
            final(self)@ == (MachineState { pc: cond_pc(old(self)@.pc, cond), ..old(self)@ }),
    {
        self.pc = pc_after(self.pc, if cond { 4 } else { 2 });
    }

    fn draw(&mut self, x: u8, y: u8, n: u8) -> (r: Result<(), Chip8Error>)
        requires
            old(self).wf(),
            x < 16,
            y < 16,
            n < 16,
        ensures
            final(self).wf(),
            execute_spec(old(self)@, Instruction::Drw { x, y, n }) == (match r {
                Ok(_) => Ok(final(self)@),
                Err(e) => Err::<MachineState, Chip8Error>(e),
            }),
            r is Err ==> final(self)@ == old(self)@,
    {
        reveal(execute_spec);
        if self.i as usize + n as usize > MEMORY_SIZE {
            return Err(Chip8Error::AddressOutOfBounds);
        }
        let mut sprite: Vec<u8> = Vec::new();
        let mut k: u16 = 0;
        while k < n as u16
            invariant
                self.wf(),
                self.i + n <= MEMORY_SIZE,
                k <= n,
                sprite@ == self.memory@.subrange(self.i as int, self.i + k),
            decreases n - k,
        {
            let b = match self.memory.read_byte(self.i + k) {
                Ok(b) => b,
                Err(e) => {
                    return Err(e);
                },
            };
            sprite.push(b);
            k = k + 1;
            assert(sprite@ =~= self.memory@.subrange(self.i as int, self.i + k));
        }
        let vx = self.v[x as usize];
        let vy = self.v[y as usize];
        let hit = self.display.draw_sprite(vx, vy, sprite.as_slice());
        self.v.set(FLAG, if hit { 1 } else { 0 });
        self.pc = pc_after(self.pc, 2);
        Ok(())
    }

    fn store_registers(&mut self, x: u8) -> (r: Result<(), Chip8Error>)
        requires
            old(self).wf(),
            x < 16,
        ensures
            final(self).wf(),
            execute_spec(old(self)@, Instruction::StoreRegs { x }) == (match r {
                Ok(_) => Ok(final(self)@),
                Err(e) => Err::<MachineState, Chip8Error>(e),
            }),
            r is Err ==> final(self)@ == old(self)@,
    {
        reveal(execute_spec);
        if self.i as usize + x as usize + 1 > MEMORY_SIZE {
            return Err(Chip8Error::AddressOutOfBounds);
        }
        let ghost regs = self.v@.subrange(0, x + 1);
        assert(write_run(old(self)@.memory, self.i as int, regs.subrange(0, 0)) =~= old(self)@.memory);
        let mut k: u16 = 0;
        while k <= x as u16
            invariant
                self.wf(),
                x < 16,
                self.i + x + 1 <= MEMORY_SIZE,
                k <= x + 1,
                regs == self.v@.subrange(0, x + 1),
                self.v@ == old(self)@.v,
                self.i == old(self)@.i,
                self.pc == old(self)@.pc,
                self@ == (MachineState {
                    memory: write_run(old(self)@.memory, self.i as int, regs.subrange(0, k as int)),
                    ..old(self)@
                }),
            decreases x + 1 - k,
        {
            let val = self.v[k as usize];
            let _ = self.memory.write_byte(self.i + k, val);
            k = k + 1;
            assert(self.memory@ =~= write_run(
                old(self)@.memory,
                self.i as int,
                regs.subrange(0, k as int),
            ));
        }
        assert(regs.subrange(0, x + 1) =~= regs);
        self.pc = pc_after(self.pc, 2);
        Ok(())
    }

    fn load_registers(&mut self, x: u8) -> (r: Result<(), Chip8Error>)
        requires
            old(self).wf(),
            x < 16,
        ensures
            final(self).wf(),
            execute_spec(old(self)@, Instruction::LoadRegs { x }) == (match r {
                Ok(_) => Ok(final(self)@),
                Err(e) => Err::<MachineState, Chip8Error>(e),
            }),
            r is Err ==> final(self)@ == old(self)@,
    {
        reveal(execute_spec);
        if self.i as usize + x as usize + 1 > MEMORY_SIZE {
            return Err(Chip8Error::AddressOutOfBounds);
        }
        let ghost bytes = self.memory@.subrange(self.i as int, self.i + x + 1);
        assert(write_run(old(self)@.v, 0, bytes.subrange(0, 0)) =~= old(self)@.v);
        let mut k: u16 = 0;
        while k <= x as u16
            invariant
                self.wf(),
                x < 16,
                self.i + x + 1 <= MEMORY_SIZE,
                k <= x + 1,
                bytes == self.memory@.subrange(self.i as int, self.i + x + 1),
                self@ == (MachineState {
                    v: write_run(old(self)@.v, 0, bytes.subrange(0, k as int)),
                    ..old(self)@
                }),
            decreases x + 1 - k,
        {
            let b = match self.memory.read_byte(self.i + k) {
                Ok(b) => b,
                Err(e) => {
                    return Err(e);
                },
            };
            self.v.set(k as usize, b);
            k = k + 1;
            assert(self.v@ =~= write_run(old(self)@.v, 0, bytes.subrange(0, k as int)));
        }
        assert(bytes.subrange(0, x + 1) =~= bytes);
        self.pc = pc_after(self.pc, 2);
        Ok(())
    }


    /// Jumps, calls, returns and skips.
    #[verifier::spinoff_prover]
    fn execute_flow(&mut self, ins: Instruction) -> (r: Result<(), Chip8Error>)
        requires
            old(self).wf(),
            operands_fit(ins),
            ins is Sys || ins is Cls || ins is Ret || ins is Jp || ins is Call || ins is SeByte || ins is SneByte || ins is SeReg || ins is SneReg || ins is JpV0 || ins is Skp || ins is Sknp,
        ensures
            final(self).wf(),
            execute_spec(old(self)@, ins) == (match r {
                Ok(_) => Ok(final(self)@),
                Err(e) => Err::<MachineState, Chip8Error>(e),
            }),
            r is Err ==> final(self)@ == old(self)@,
    {
        reveal(execute_spec);
        match ins {
            Instruction::Sys { .. } => {
                self.pc = pc_after(self.pc, 2);
            },
            Instruction::Cls => {
                self.display.clear();
                self.pc = pc_after(self.pc, 2);
            },
            Instruction::Ret => {
                if self.sp == 0 {
                    return Err(Chip8Error::StackUnderflow);
                }
                self.sp = self.sp - 1;
                self.pc = self.stack[self.sp as usize];
            },
            Instruction::Jp { addr } => {
                self.pc = addr;
            },
            Instruction::Call { addr } => {
                if self.sp as usize >= STACK_DEPTH {
                    return Err(Chip8Error::StackOverflow);
                }
                let ret = pc_after(self.pc, 2);
                self.stack.set(self.sp as usize, ret);
                self.sp = self.sp + 1;
                self.pc = addr;
            },
            Instruction::SeByte { x, kk } => {
                let c = self.v[x as usize] == kk;
                self.skip_if(c);
            },
            Instruction::SneByte { x, kk } => {
                let c = self.v[x as usize] != kk;
                self.skip_if(c);
            },
            Instruction::SeReg { x, y } => {
                let c = self.v[x as usize] == self.v[y as usize];
                self.skip_if(c);
            },
            Instruction::SneReg { x, y } => {
                let c = self.v[x as usize] != self.v[y as usize];
                self.skip_if(c);
            },
            Instruction::JpV0 { addr } => {
                self.pc = addr + self.v[0] as u16;
            },
            Instruction::Skp { x } => {
                let c = self.keypad.is_pressed(self.v[x as usize]);
                self.skip_if(c);
            },
            Instruction::Sknp { x } => {
                let c = !self.keypad.is_pressed(self.v[x as usize]);
                self.skip_if(c);
            },
            _ => {},
        }
        Ok(())
    }

    /// Register loads and arithmetic.
    #[verifier::spinoff_prover]
    fn execute_alu(&mut self, ins: Instruction) -> (r: Result<(), Chip8Error>)
        requires
            old(self).wf(),
            operands_fit(ins),
            ins is LdByte || ins is AddByte || ins is LdReg || ins is Or || ins is And || ins is Xor || ins is AddReg || ins is Sub || ins is Subn || ins is Shr || ins is Shl || ins is Rnd,
        ensures
            final(self).wf(),
            execute_spec(old(self)@, ins) == (match r {
                Ok(_) => Ok(final(self)@),
                Err(e) => Err::<MachineState, Chip8Error>(e),
            }),
            r is Err ==> final(self)@ == old(self)@,
    {
        reveal(execute_spec);
        match ins {
            Instruction::LdByte { x, kk } => {
                self.set_register(x, kk);
            },
            Instruction::AddByte { x, kk } => {
                let val = ((self.v[x as usize] as u16 + kk as u16) % 256) as u8;
                self.set_register(x, val);
            },
            Instruction::LdReg { x, y } => {
                let val = self.v[y as usize];
                self.set_register(x, val);
            },
            Instruction::Or { x, y } => {
                let val = self.v[x as usize] | self.v[y as usize];
                self.set_register(x, val);
            },
            Instruction::And { x, y } => {
                let val = self.v[x as usize] & self.v[y as usize];
                self.set_register(x, val);
            },
            Instruction::Xor { x, y } => {
                let val = self.v[x as usize] ^ self.v[y as usize];
                self.set_register(x, val);
            },
            Instruction::AddReg { x, y } => {
                let sum = self.v[x as usize] as u16 + self.v[y as usize] as u16;
                self.set_register_flag(x, (sum % 256) as u8, sum > 255);
            },
            Instruction::Sub { x, y } => {
                let a = self.v[x as usize];
                let b = self.v[y as usize];
                let diff = if a >= b { a - b } else { (256 - b as u16 + a as u16) as u8 };
                self.set_register_flag(x, diff, a >= b);
            },
            Instruction::Subn { x, y } => {
                let a = self.v[x as usize];
                let b = self.v[y as usize];
                let diff = if b >= a { b - a } else { (256 - a as u16 + b as u16) as u8 };
                self.set_register_flag(x, diff, b >= a);
            },
            Instruction::Shr { x, .. } => {
                let a = self.v[x as usize];
                self.set_register_flag(x, a / 2, a % 2 == 1);
            },
            Instruction::Shl { x, .. } => {
                let a = self.v[x as usize];
                self.set_register_flag(x, ((a as u16 * 2) % 256) as u8, a >= 128);
            },
            Instruction::Rnd { x, kk } => {
                let next = seed_after(self.seed);
                let byte = ((next / 0x10000) % 0x100) as u8;
                self.set_register(x, byte & kk);
                self.seed = next;
            },
            _ => {},
        }
        Ok(())
    }

    /// The index register, timers, keys, drawing and memory transfers.
    #[verifier::spinoff_prover]
    fn execute_other(&mut self, ins: Instruction) -> (r: Result<(), Chip8Error>)
        requires
            old(self).wf(),
            operands_fit(ins),
            ins is LdI || ins is Drw || ins is LdVxDt || ins is LdVxK || ins is LdDtVx || ins is LdStVx || ins is AddIVx || ins is LdFVx || ins is LdBVx || ins is StoreRegs || ins is LoadRegs,
        ensures
            final(self).wf(),
            execute_spec(old(self)@, ins) == (match r {
                Ok(_) => Ok(final(self)@),
                Err(e) => Err::<MachineState, Chip8Error>(e),
            }),
            r is Err ==> final(self)@ == old(self)@,
    {
        reveal(execute_spec);
        match ins {
            Instruction::LdI { addr } => {
                self.i = addr;
                self.pc = pc_after(self.pc, 2);
            },
            Instruction::Drw { x, y, n } => {
                return self.draw(x, y, n);
            },
            Instruction::LdVxDt { x } => {
                let val = self.delay;
                self.set_register(x, val);
            },
            Instruction::LdVxK { x } => {
                match self.keypad.wait_for_key() {
                    Some(k) => {
                        self.set_register(x, k);
                    },
                    None => {},
                }
            },
            Instruction::LdDtVx { x } => {
                self.delay = self.v[x as usize];
                self.pc = pc_after(self.pc, 2);
            },
            Instruction::LdStVx { x } => {
                self.sound = self.v[x as usize];
                self.pc = pc_after(self.pc, 2);
            },
            Instruction::AddIVx { x } => {
                self.i = ((self.i as u32 + self.v[x as usize] as u32) % 0x10000) as u16;
                self.pc = pc_after(self.pc, 2);
            },
            Instruction::LdFVx { x } => {
                self.i = (GLYPH_HEIGHT as u16) * ((self.v[x as usize] % 16) as u16);
                self.pc = pc_after(self.pc, 2);
            },
            Instruction::LdBVx { x } => {
                if self.i as usize + 3 > MEMORY_SIZE {
                    return Err(Chip8Error::AddressOutOfBounds);
                }
                let a = self.v[x as usize];
                let _ = self.memory.write_byte(self.i, a / 100);
                let _ = self.memory.write_byte(self.i + 1, (a / 10) % 10);
                let _ = self.memory.write_byte(self.i + 2, a % 10);
                assert(self.memory@ =~= write_run(old(self)@.memory, self.i as int, bcd(a)));
                self.pc = pc_after(self.pc, 2);
            },
            Instruction::StoreRegs { x } => {
                return self.store_registers(x);
            },
            Instruction::LoadRegs { x } => {
                return self.load_registers(x);
            },            _ => {},
        }
        Ok(())
    }

    /// Executes `ins`. On success the machine is in the state that
    /// `execute_spec` gives; on a fault it is unchanged.
    pub fn execute(&mut self, ins: Instruction) -> (r: Result<(), Chip8Error>)
        requires
            old(self).wf(),
            operands_fit(ins),
        ensures
            final(self).wf(),
            execute_spec(old(self)@, ins) == (match r {
                Ok(_) => Ok(final(self)@),
                Err(e) => Err::<MachineState, Chip8Error>(e),
            }),
            r is Err ==> final(self)@ == old(self)@,
    {
        match ins {
            Instruction::Sys { .. } | Instruction::Cls | Instruction::Ret | Instruction::Jp { .. }
            | Instruction::Call { .. } | Instruction::SeByte { .. } | Instruction::SneByte { .. }
            | Instruction::SeReg { .. } | Instruction::SneReg { .. } | Instruction::JpV0 { .. }
            | Instruction::Skp { .. } | Instruction::Sknp { .. } => self.execute_flow(ins),
            Instruction::LdByte { .. } | Instruction::AddByte { .. } | Instruction::LdReg { .. }
            | Instruction::Or { .. } | Instruction::And { .. } | Instruction::Xor { .. }
            | Instruction::AddReg { .. } | Instruction::Sub { .. } | Instruction::Subn { .. }
            | Instruction::Shr { .. } | Instruction::Shl { .. } | Instruction::Rnd { .. } => {
                self.execute_alu(ins)
            },
            _ => self.execute_other(ins),
        }
    }

    /// One fetch-decode-execute cycle: reads the word at PC, decodes it and
    /// executes it. On a fault the machine is unchanged.
    pub fn step(&mut self) -> (r: Result<(), Chip8Error>)
        requires
            old(self).wf(),
        ensures
            final(self).wf(),
            r == status(step_spec(old(self)@)),
            final(self)@ == outcome(old(self)@, step_spec(old(self)@)),
    {
        let word = match self.memory.read_word(self.pc) {
            Ok(w) => w,
            Err(e) => {
                return Err(e);
            },
        };
        let ins = match decode(word) {
            Ok(ins) => ins,
            Err(e) => {
                return Err(e);
            },
        };
        match self.execute(ins) {
            Ok(()) => Ok(()),
            Err(e) => Err(e),
        }
    }


    /// Runs `steps` cycles and then ticks the timers once, passing over or
    /// stopping at faults as `policy` says.
    pub fn run_tick(&mut self, steps: u32, policy: FaultPolicy) -> (r: Result<(), Chip8Error>)
        requires
            old(self).wf(),
        ensures
            final(self).wf(),
            (final(self)@, r) == run_spec(old(self)@, steps as nat, policy),
    {
        let mut k: u32 = 0;
        while k < steps
            invariant
                self.wf(),
                k <= steps,
                run_spec(old(self)@, steps as nat, policy) == run_spec(
                    self@,
                    (steps - k) as nat,
                    policy,
                ),
            decreases steps - k,
        {
            match self.step() {
                Ok(()) => {},
                Err(e) => {
                    if e == Chip8Error::InvalidOpcode && policy == FaultPolicy::SkipInvalid {
                        self.pc = pc_after(self.pc, 2);
                    } else {
                        return Err(e);
                    }
                },
            }
            k = k + 1;
        }
        self.tick_timers();
        Ok(())
    }

    /// Register `x`.
    pub fn register(&self, x: u8) -> (r: u8)
        requires
            self.wf(),
            x < REGISTER_COUNT,
        ensures
            r == self@.v[x as int],
    {
        self.v[x as usize]
    }

    /// The address register I.
    pub fn index_register(&self) -> (r: u16)
        ensures
            r == self@.i,
    {
        self.i
    }

    /// The program counter.
    pub fn program_counter(&self) -> (r: u16)
        ensures
            r == self@.pc,
    {
        self.pc
    }

    /// The number of return addresses on the stack.
    pub fn stack_pointer(&self) -> (r: u16)
        ensures
            r == self@.sp,
    {
        self.sp
    }

    /// The delay timer.
    pub fn delay_timer(&self) -> (r: u8)
        ensures
            r == self@.delay,
    {
        self.delay
    }

    /// The sound timer.
    pub fn sound_timer(&self) -> (r: u8)
        ensures
            r == self@.sound,
    {
        self.sound
    }

    /// The current key snapshot.
    pub fn keys(&self) -> (r: u16)
        ensures
            r == self@.keys,
    {
        self.keypad.mask()
    }

    /// The byte at `addr`, or `AddressOutOfBounds`.
    pub fn read_memory(&self, addr: u16) -> (r: Result<u8, Chip8Error>)
        requires
            self.wf(),
        ensures
            addr < MEMORY_SIZE ==> r == Ok::<u8, Chip8Error>(self@.memory[addr as int]),
            addr >= MEMORY_SIZE ==> r == Err::<u8, Chip8Error>(Chip8Error::AddressOutOfBounds),
    {
        self.memory.read_byte(addr)
    }

    /// Whether the pixel at column `x`, row `y` is lit.
    pub fn pixel(&self, x: usize, y: usize) -> (r: bool)
        requires
            self.wf(),
            x < 64,
            y < 32,
        ensures
            r == self@.screen[y * 64 + x],
    {
        self.display.pixel(x, y)
    }

    /// The screen, row after row, for rendering.
    pub fn framebuffer(&self) -> (r: &Vec<bool>)
        ensures
            r@ == self@.screen,
    {
        self.display.framebuffer()
    }

    /// One 60 Hz tick of the delay and sound timers.
    pub fn tick_timers(&mut self)
        requires
            old(self).wf(),
        ensures
            final(self).wf(),
            final(self)@ == ticked(old(self)@),
    {
        if self.delay > 0 {
            self.delay = self.delay - 1;
        }
        if self.sound > 0 {
            self.sound = self.sound - 1;
        }
    }
}

} // verus!
