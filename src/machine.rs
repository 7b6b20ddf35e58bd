use vstd::prelude::*;
use crate::font::{font, font_bytes, FONT_SIZE};
use crate::lemmas::{lemma_byte_sub, lemma_pixel_of, lemma_wrap_offset, pixel_of};
use crate::opcode::{decode, decoded, Instruction};
use crate::state::{
    any_pressed, collides, covers, drawn, dumped, is_first_pressed, lemma_first_pressed, loaded,
    sprite_col, sprite_row, wrap, HaltReason, MachineState, Status, DEFAULT_STACK_DEPTH, FLAG,
    HEIGHT, MEMORY_SIZE, PIXELS, PROGRAM_START, WIDTH,
};
use crate::utils::{convert_to_bcd, convert_to_bits, msb_bit};

verus! {

/// One of the two timers.
#[derive(Clone, Copy, Debug, PartialEq, Eq, Structural)]
pub enum Timer {
    Sound,
    Delay,
}

/// The interpreter: memory, registers, stack, display, timers and keys.
pub struct Machine {
    memory: [u8; 4096],
    registers: [u8; 16],
    index_register: u16,
    pc: u16,
    gfx: [bool; 2048],
    delay_timer: u8,
    sound_timer: u8,
    stack: Vec<u16>,
    stack_limit: usize,
    keys: [bool; 16],
    draw_flag: bool,
}

impl View for Machine {
    type V = MachineState;

    closed spec fn view(&self) -> MachineState {
        MachineState {
            memory: self.memory@,
            registers: self.registers@,
            index: self.index_register,
            pc: self.pc,
            stack: self.stack@,
            stack_limit: self.stack_limit as nat,
            display: self.gfx@,
            dirty: self.draw_flag,
            delay_timer: self.delay_timer,
            sound_timer: self.sound_timer,
            keys: self.keys@,
        }
    }
}

/// Whether pixel `p` is covered by the sprite rows before `h`, or by row `h`
/// in the columns before `k`.
spec fn covered_before(
    memory: Seq<u8>,
    index: u16,
    vx: u8,
    vy: u8,
    n: u8,
    p: int,
    h: int,
    k: int,
) -> bool {
    &&& covers(memory, index, vx, vy, n, p)
    &&& (sprite_row(vy, p) < h || (sprite_row(vy, p) == h && sprite_col(vx, p) < k))
}

/// Whether `ins` is executed by `execute_control`.
spec fn in_control_group(ins: Instruction) -> bool {
    ins is Clear
        || ins is Return
        || ins is JumpTo
        || ins is Call
        || ins is Flow
        || ins is SkipEq
        || ins is SkipNotEq
        || ins is SkipEqXY
        || ins is SkipNotEqXY
        || ins is KeyPressedX
        || ins is KeyNotPressedX
        || ins is KeyPressX
}

/// Whether `ins` is executed by `execute_register`.
spec fn in_register_group(ins: Instruction) -> bool {
    ins is SetRegister
        || ins is AddX
        || ins is AssignXY
        || ins is OrXY
        || ins is AndXY
        || ins is XorXY
        || ins is RandX
}

/// Whether `ins` is executed by `execute_flagged`.
spec fn in_flagged_group(ins: Instruction) -> bool {
    ins is AddXY
        || ins is SubXY
        || ins is SubYX
        || ins is ShiftRightX1
        || ins is ShiftLeftX1
}

/// Whether `ins` is executed by `execute_memory`.
spec fn in_memory_group(ins: Instruction) -> bool {
    ins is SetIR
        || ins is Draw
        || ins is TimerX
        || ins is SetDelayTimer
        || ins is SetSoundTimer
        || ins is MemAdd
        || ins is SpriteX
        || ins is BCD
        || ins is DumpX
        || ins is LoadX
}

/// Relies on `rand::random`, which draws from the thread-local generator:
/// any byte may come back.
#[verifier::external_body]
fn random_byte() -> u8 {
    rand::random::<u8>()
}

impl Machine {
    /// A machine, reset, whose stack holds the historical sixteen return
    /// addresses.
    pub fn new() -> (m: Machine)
        ensures
            m@ == MachineState::initial(DEFAULT_STACK_DEPTH as nat),
            m@.wf(),
    {
        Machine::with_stack_depth(DEFAULT_STACK_DEPTH)
    }

    /// A machine, reset, whose stack holds at most `depth` return addresses.
    pub fn with_stack_depth(depth: usize) -> (m: Machine)
        ensures
            m@ == MachineState::initial(depth as nat),
            m@.wf(),
    {
        let mut m = Machine {
            memory: [0; 4096],
            registers: [0; 16],
            index_register: 0,
            pc: PROGRAM_START as u16,
            gfx: [false; 2048],
            delay_timer: 0,
            sound_timer: 0,
            stack: Vec::new(),
            stack_limit: depth,
            keys: [false; 16],
            draw_flag: false,
        };
        m.load_fontset();
        assert(m@ =~= MachineState::initial(depth as nat));
        m
    }

    /// Reinitialises every part of the machine but its stack depth: memory
    /// holds the font and zeros, the program counter is at the program
    /// start, and all else is zero, empty or released.
    pub fn reset(&mut self)
        ensures
            final(self)@ == MachineState::initial(old(self)@.stack_limit),
            final(self)@.wf(),
    {
        *self = Machine::with_stack_depth(self.stack_limit);
    }

    /// XORs the `n`-row sprite at `I` onto the display at `(VX, VY)` and sets
    /// the flag to whether a set pixel was turned off.
    fn draw_sprite(&mut self, x: usize, y: usize, n: u8)
        requires
            old(self)@.wf(),
            x < 16,
            y < 16,
            n < 16,
        ensures
            ({
                let s = old(self)@;
                let (vx, vy) = (s.reg(x as int), s.reg(y as int));
                final(self)@ == (MachineState {
                    display: drawn(s.display, s.memory, s.index, vx, vy, n),
                    registers: s.registers.update(
                        FLAG as int,
                        if collides(s.display, s.memory, s.index, vx, vy, n) { 1u8 } else { 0u8 },
                    ),
                    ..s
                })
            }),
    {
        let ghost s = self@;
        let vx = self.registers[x];
        let vy = self.registers[y];
        let mut collision = false;
        let mut h: u8 = 0;
        while h < n
            invariant
                h <= n,
                n < 16,
                s.wf(),
                self@ == (MachineState { display: self@.display, ..s }),
                vx == s.reg(x as int),
                vy == s.reg(y as int),
                self@.display == Seq::new(PIXELS as nat, |p: int|
                    s.display[p] != covered_before(s.memory, s.index, vx, vy, n, p, h as int, 0)),
                collision == exists|p: int|
                    0 <= p < PIXELS && s.display[p]
                        && #[trigger] covered_before(s.memory, s.index, vx, vy, n, p, h as int, 0),
            decreases n - h,
        {
            let row = self.memory[(self.index_register as usize + h as usize) % MEMORY_SIZE];
            let bits = convert_to_bits(row);
            let mut k: usize = 0;
            while k < 8
                invariant
                    h < n,
                    n < 16,
                    k <= 8,
                    s.wf(),
                    self@ == (MachineState { display: self@.display, ..s }),
                    vx == s.reg(x as int),
                    vy == s.reg(y as int),
                    row == s.memory[wrap(s.index + h)],
                    forall|i: int| 0 <= i < 8 ==> #[trigger] bits@[i] == msb_bit(row, i),
                    self@.display == Seq::new(PIXELS as nat, |p: int|
                        s.display[p] != covered_before(s.memory, s.index, vx, vy, n, p, h as int, k as int)),
                    collision == exists|p: int|
                        0 <= p < PIXELS && s.display[p]
                            && #[trigger] covered_before(s.memory, s.index, vx, vy, n, p, h as int, k as int),
                decreases 8 - k,
            {
                let pos = ((vy as usize + h as usize) % HEIGHT) * WIDTH + (vx as usize + k) % WIDTH;
                proof {
                    lemma_pixel_of(vx, vy, h as int, k as int);
                    assert(pos == pixel_of(vx, vy, h as int, k as int));
                }
                let ghost was_hit = collision;
                if bits[k] == 1 {
                    if self.gfx[pos] {
                        collision = true;
                    }
                    self.gfx[pos] = !self.gfx[pos];
                }
                proof {
                    assert(covers(s.memory, s.index, vx, vy, n, pos as int) == (bits@[k as int] == 1));
                    assert forall|p: int| 0 <= p < PIXELS && p != pos implies
                        #[trigger] covered_before(s.memory, s.index, vx, vy, n, p, h as int, k + 1) == covered_before(s.memory, s.index, vx, vy, n, p, h as int, k as int) by {}
                    assert(covered_before(s.memory, s.index, vx, vy, n, pos as int, h as int, k + 1) == (bits@[k as int] == 1));
                    assert(!covered_before(s.memory, s.index, vx, vy, n, pos as int, h as int, k as int));
                    assert(self@.display =~= Seq::new(PIXELS as nat, |p: int|
                        s.display[p] != covered_before(s.memory, s.index, vx, vy, n, p, h as int, k + 1)));
                    if collision {
                        if !was_hit {
                            assert(s.display[pos as int] && covered_before(s.memory, s.index, vx, vy, n, pos as int, h as int, k + 1));
                        } else {
                            let q = choose|p: int| 0 <= p < PIXELS && s.display[p] && #[trigger] covered_before(s.memory, s.index, vx, vy, n, p, h as int, k as int);
                            assert(covered_before(s.memory, s.index, vx, vy, n, q, h as int, k + 1));
                        }
                    } else {
                        assert forall|p: int| 0 <= p < PIXELS && s.display[p] implies !covered_before(s.memory, s.index, vx, vy, n, p, h as int, k + 1) by {
                            if p != pos {
                                assert(!covered_before(s.memory, s.index, vx, vy, n, p, h as int, k as int));
                            }
                        }
                    }
                }
                k = k + 1;
            }
            proof {
                assert forall|p: int| 0 <= p < PIXELS implies
                    covered_before(s.memory, s.index, vx, vy, n, p, h as int, 8)
                        == covered_before(s.memory, s.index, vx, vy, n, p, h + 1, 0) by {}
                assert(self@.display =~= Seq::new(PIXELS as nat, |p: int|
                    s.display[p] != covered_before(s.memory, s.index, vx, vy, n, p, h + 1, 0)));
                if collision {
                    let q = choose|p: int| 0 <= p < PIXELS && s.display[p]
                        && #[trigger] covered_before(s.memory, s.index, vx, vy, n, p, h as int, 8);
                    assert(covered_before(s.memory, s.index, vx, vy, n, q, h + 1, 0));
                } else {
                    assert forall|p: int| 0 <= p < PIXELS && s.display[p] implies
                        !#[trigger] covered_before(s.memory, s.index, vx, vy, n, p, h + 1, 0) by {
                        assert(!covered_before(s.memory, s.index, vx, vy, n, p, h as int, 8));
                    }
                }
            }
            h = h + 1;
        }
        proof {
            assert forall|p: int| 0 <= p < PIXELS implies
                covered_before(s.memory, s.index, vx, vy, n, p, n as int, 0)
                    == covers(s.memory, s.index, vx, vy, n, p) by {}
            assert(self@.display =~= drawn(s.display, s.memory, s.index, vx, vy, n));
            if collision {
                let q = choose|p: int| 0 <= p < PIXELS && s.display[p]
                    && #[trigger] covered_before(s.memory, s.index, vx, vy, n, p, n as int, 0);
                assert(covers(s.memory, s.index, vx, vy, n, q));
            } else {
                assert forall|p: int| 0 <= p < PIXELS && s.display[p] implies
                    !#[trigger] covers(s.memory, s.index, vx, vy, n, p) by {
                    assert(!covered_before(s.memory, s.index, vx, vy, n, p, n as int, 0));
                }
            }
        }
        self.registers[FLAG] = if collision { 1 } else { 0 };
        proof {
            assert(self@.registers =~= s.registers.update(
                FLAG as int,
                if collides(s.display, s.memory, s.index, vx, vy, n) { 1u8 } else { 0u8 },
            ));
        }
    }

    /// Copies `program` into memory from the program start on. A program
    /// longer than the memory above the program start is refused with
    /// `LoadError`, and the machine is left as it was.
    pub fn load_program(&mut self, program: Vec<u8>) -> (r: Result<(), HaltReason>)
        requires
            old(self)@.wf(),
        ensures
            final(self)@.wf(),
            MachineState::fits(program@.len()) ==> r is Ok && final(self)@ == old(self)@.with_program(program@),
            !MachineState::fits(program@.len()) ==> r == Err::<(), HaltReason>(HaltReason::LoadError)
                && final(self)@ == old(self)@,
    {
        if program.len() > MEMORY_SIZE - PROGRAM_START {
            return Err(HaltReason::LoadError);
        }
        let ghost s = self@;
        let mut i: usize = 0;
        while i < program.len()
            invariant
                i <= program@.len() <= MEMORY_SIZE - PROGRAM_START,
                s.wf(),
                self@ == (MachineState { memory: self@.memory, ..s }),
                self@.memory == Seq::new(MEMORY_SIZE as nat, |a: int|
                    if PROGRAM_START <= a < PROGRAM_START + i { program@[a - PROGRAM_START] } else { s.memory[a] }),
            decreases program@.len() - i,
        {
            self.memory[PROGRAM_START + i] = program[i];
            i = i + 1;
            assert(self@.memory =~= Seq::new(MEMORY_SIZE as nat, |a: int|
                if PROGRAM_START <= a < PROGRAM_START + i { program@[a - PROGRAM_START] } else { s.memory[a] }));
        }
        assert(self@ =~= s.with_program(program@));
        Ok(())
    }

    /// The instruction word at the program counter: the byte there, then
    /// the byte after it, wrapping round memory.
    pub fn fetch_opcode(&self) -> (w: u16)
        requires
            self@.wf(),
        ensures
            w == self@.fetch(),
    {
        let hi = self.memory[self.pc as usize];
        let lo = self.memory[(self.pc as usize + 1) % MEMORY_SIZE];
        assert((hi as u16) << 8u16 | (lo as u16) == (hi as u16) * 256 + (lo as u16)) by (bit_vector);
        (hi as u16) << 8 | (lo as u16)
    }

    /// Fetches, decodes and executes one instruction. The random
    /// instruction draws its byte from the thread-local generator; no other
    /// instruction depends on it.
    pub fn step(&mut self) -> (status: Status)
        requires
            old(self)@.wf(),
        ensures
            final(self)@.wf(),
            exists|random: u8| (final(self)@, status) == old(self)@.step(random),
            !(decoded(old(self)@.fetch()) is RandX) ==> (final(self)@, status) == old(self)@.step(0),
    {
        let ins = decode(self.fetch_opcode());
        let random = match ins {
            Instruction::RandX(..) => random_byte(),
            _ => 0,
        };
        let status = self.execute(ins, random);
        assert((self@, status) == old(self)@.step(random));
        status
    }

    /// Counts both timers down by one, each stopping at zero. Returns whether
    /// the sound timer has just run out, the moment to beep once.
    pub fn tick_timers(&mut self) -> (beep: bool)
        ensures
            final(self)@ == old(self)@.ticked(),
            beep == (old(self)@.sound_timer == 1),
    {
        if self.delay_timer > 0 {
            self.delay_timer = self.delay_timer - 1;
        }
        let beep = self.sound_timer == 1;
        if self.sound_timer > 0 {
            self.sound_timer = self.sound_timer - 1;
        }
        beep
    }

    /// Records whether key `key` (`0` to `F`) is held down.
    pub fn set_key(&mut self, key: u8, pressed: bool)
        requires
            key < 16,
        ensures
            final(self)@ == old(self)@.with_key(key as int, pressed),
    {
        self.keys[key as usize] = pressed;
    }

    /// Executes one decoded instruction; `random` is the byte that the
    /// random instruction combines with its mask. The dirty flag is
    /// cleared first. An invalid instruction, a return with an empty stack
    /// and a call on a full stack halt the run and change nothing else.
    pub fn execute(&mut self, ins: Instruction, random: u8) -> (status: Status)
        requires
            old(self)@.wf(),
            ins.operands_in_range(),
        ensures
            (final(self)@, status) == old(self)@.execute(ins, random),
            final(self)@.wf(),
    {
        match ins {
            Instruction::Invalid => {
                self.draw_flag = false;
                Status::Halted(HaltReason::DecodeHalt)
            },
            Instruction::Clear
            | Instruction::Return
            | Instruction::JumpTo(..)
            | Instruction::Call(..)
            | Instruction::Flow(..)
            | Instruction::SkipEq(..)
            | Instruction::SkipNotEq(..)
            | Instruction::SkipEqXY(..)
            | Instruction::SkipNotEqXY(..)
            | Instruction::KeyPressedX(..)
            | Instruction::KeyNotPressedX(..)
            | Instruction::KeyPressX(..) => self.execute_control(ins, random),
            Instruction::SetRegister(..)
            | Instruction::AddX(..)
            | Instruction::AssignXY(..)
            | Instruction::OrXY(..)
            | Instruction::AndXY(..)
            | Instruction::XorXY(..)
            | Instruction::RandX(..) => self.execute_register(ins, random),
            Instruction::AddXY(..)
            | Instruction::SubXY(..)
            | Instruction::SubYX(..)
            | Instruction::ShiftRightX1(..)
            | Instruction::ShiftLeftX1(..) => self.execute_flagged(ins, random),
            _ => self.execute_memory(ins, random),
        }
    }

    /// Executes an instruction that moves the program counter other than by
    /// one step, or that waits on the keys.
    #[verifier::rlimit(40)]
    #[verifier::spinoff_prover]
    fn execute_control(&mut self, ins: Instruction, random: u8) -> (status: Status)
        requires
            old(self)@.wf(),
            ins.operands_in_range(),
            in_control_group(ins),
        ensures
            (final(self)@, status) == old(self)@.execute(ins, random),
            final(self)@.wf(),
    {
        let ghost s0 = self@;
        self.draw_flag = false;
        match ins {
            Instruction::Clear => {
                self.gfx = [false; 2048];
                self.draw_flag = true;
                self.pc_inc();
                assert(self@.display =~= Seq::new(PIXELS as nat, |p: int| false));
                proof { assert(self@ =~= s0.execute(ins, random).0); }
            },
            Instruction::Return => {
                match self.stack.pop() {
                    Some(v) => {
                        self.pc = v;
                    },
                    None => {
                        return Status::Halted(HaltReason::StackUnderflow);
                    },
                }
                proof { assert(self@ =~= s0.execute(ins, random).0); }
            },
            Instruction::JumpTo(n) => {
                self.pc = n;
                proof { assert(self@ =~= s0.execute(ins, random).0); }
            },
            Instruction::Call(n) => {
                if self.stack.len() >= self.stack_limit {
                    return Status::Halted(HaltReason::StackOverflow);
                }
                let ret = (self.pc + 2) % (MEMORY_SIZE as u16);
                self.stack.push(ret);
                self.pc = n;
                proof { assert(self@ =~= s0.execute(ins, random).0); }
            },
            Instruction::Flow(n) => {
                self.pc = (self.registers[0] as u16 + n) % (MEMORY_SIZE as u16);
                proof { assert(self@ =~= s0.execute(ins, random).0); }
            },
            Instruction::SkipEq(r, n) => {
                self.skip_if(self.registers[r] == n);
                proof { assert(self@ =~= s0.execute(ins, random).0); }
            },
            Instruction::SkipNotEq(r, n) => {
                self.skip_if(self.registers[r] != n);
                proof { assert(self@ =~= s0.execute(ins, random).0); }
            },
            Instruction::SkipEqXY(rx, ry) => {
                self.skip_if(self.registers[rx] == self.registers[ry]);
                proof { assert(self@ =~= s0.execute(ins, random).0); }
            },
            Instruction::SkipNotEqXY(rx, ry) => {
                self.skip_if(self.registers[rx] != self.registers[ry]);
                proof { assert(self@ =~= s0.execute(ins, random).0); }
            },
            Instruction::KeyPressedX(r) => {
                let k = self.registers[r] as usize;
                self.skip_if(k < 16 && self.keys[k]);
                proof { assert(self@ =~= s0.execute(ins, random).0); }
            },
            Instruction::KeyNotPressedX(r) => {
                let k = self.registers[r] as usize;
                self.skip_if(!(k < 16 && self.keys[k]));
                proof { assert(self@ =~= s0.execute(ins, random).0); }
            },
            Instruction::KeyPressX(r) => {
                match self.first_pressed_key() {
                    Some(k) => {
                        proof { lemma_first_pressed(self@.keys, k as int); }
                        self.registers[r] = k;
                        self.pc_inc();
                    },
                    None => {},
                }
                proof { assert(self@ =~= s0.execute(ins, random).0); }
            },
            _ => {},
        }
        Status::Running
    }

    /// Executes an instruction that computes into a register.
    #[verifier::rlimit(40)]
    #[verifier::spinoff_prover]
    fn execute_register(&mut self, ins: Instruction, random: u8) -> (status: Status)
        requires
            old(self)@.wf(),
            ins.operands_in_range(),
            in_register_group(ins),
        ensures
            (final(self)@, status) == old(self)@.execute(ins, random),
            final(self)@.wf(),
    {
        let ghost s0 = self@;
        self.draw_flag = false;
        match ins {
            Instruction::SetRegister(r, n) => {
                self.registers[r] = n;
                self.pc_inc();
                proof { assert(self@ =~= s0.execute(ins, random).0); }
            },
            Instruction::AddX(r, n) => {
                self.registers[r] = ((self.registers[r] as u16 + n as u16) % 256) as u8;
                self.pc_inc();
                proof { assert(self@ =~= s0.execute(ins, random).0); }
            },
            Instruction::AssignXY(rx, ry) => {
                self.registers[rx] = self.registers[ry];
                self.pc_inc();
                proof { assert(self@ =~= s0.execute(ins, random).0); }
            },
            Instruction::OrXY(rx, ry) => {
                self.registers[rx] = self.registers[rx] | self.registers[ry];
                self.pc_inc();
                proof { assert(self@ =~= s0.execute(ins, random).0); }
            },
            Instruction::AndXY(rx, ry) => {
                self.registers[rx] = self.registers[rx] & self.registers[ry];
                self.pc_inc();
                proof { assert(self@ =~= s0.execute(ins, random).0); }
            },
            Instruction::XorXY(rx, ry) => {
                self.registers[rx] = self.registers[rx] ^ self.registers[ry];
                self.pc_inc();
                proof { assert(self@ =~= s0.execute(ins, random).0); }
            },
            Instruction::RandX(r, n) => {
                self.registers[r] = random & n;
                self.pc_inc();
                proof { assert(self@ =~= s0.execute(ins, random).0); }
            },
            _ => {},
        }
        Status::Running
    }

    /// Executes an arithmetic instruction that also sets the flag.
    #[verifier::rlimit(40)]
    #[verifier::spinoff_prover]
    fn execute_flagged(&mut self, ins: Instruction, random: u8) -> (status: Status)
        requires
            old(self)@.wf(),
            ins.operands_in_range(),
            in_flagged_group(ins),
        ensures
            (final(self)@, status) == old(self)@.execute(ins, random),
            final(self)@.wf(),
    {
        let ghost s0 = self@;
        self.draw_flag = false;
        match ins {
            Instruction::AddXY(rx, ry) => {
                let sum = self.registers[rx] as u16 + self.registers[ry] as u16;
                self.registers[rx] = (sum % 256) as u8;
                self.registers[FLAG] = if sum > 255 { 1 } else { 0 };
                self.pc_inc();
                proof { assert(self@ =~= s0.execute(ins, random).0); }
            },
            Instruction::SubXY(rx, ry) => {
                let (vx, vy) = (self.registers[rx], self.registers[ry]);
                proof { lemma_byte_sub(vx, vy); }
                if vx >= vy {
                    self.registers[rx] = vx - vy;
                    self.registers[FLAG] = 1;
                } else {
                    self.registers[rx] = (256 - (vy - vx) as u16) as u8;
                    self.registers[FLAG] = 0;
                }
                self.pc_inc();
                proof { assert(self@ =~= s0.execute(ins, random).0); }
            },
            Instruction::SubYX(rx, ry) => {
                let (vx, vy) = (self.registers[rx], self.registers[ry]);
                proof { lemma_byte_sub(vy, vx); }
                if vy >= vx {
                    self.registers[rx] = vy - vx;
                    self.registers[FLAG] = 1;
                } else {
                    self.registers[rx] = (256 - (vx - vy) as u16) as u8;
                    self.registers[FLAG] = 0;
                }
                self.pc_inc();
                proof { assert(self@ =~= s0.execute(ins, random).0); }
            },
            Instruction::ShiftRightX1(r) => {
                let v = self.registers[r];
                assert(v >> 1u8 == v / 2 && v & 1u8 == v % 2) by (bit_vector);
                self.registers[r] = v >> 1;
                self.registers[FLAG] = v & 1;
                self.pc_inc();
                proof { assert(self@ =~= s0.execute(ins, random).0); }
            },
            Instruction::ShiftLeftX1(r) => {
                let v = self.registers[r];
                assert(v >> 7u8 == v / 128) by (bit_vector);
                self.registers[r] = ((v as u16 * 2) % 256) as u8;
                self.registers[FLAG] = v >> 7;
                self.pc_inc();
                proof { assert(self@ =~= s0.execute(ins, random).0); }
            },
            _ => {},
        }
        Status::Running
    }

    /// Executes an instruction on memory, the index register, the timers or
    /// the display.
    #[verifier::rlimit(40)]
    #[verifier::spinoff_prover]
    fn execute_memory(&mut self, ins: Instruction, random: u8) -> (status: Status)
        requires
            old(self)@.wf(),
            ins.operands_in_range(),
            in_memory_group(ins),
        ensures
            (final(self)@, status) == old(self)@.execute(ins, random),
            final(self)@.wf(),
    {
        let ghost s0 = self@;
        self.draw_flag = false;
        match ins {
            Instruction::SetIR(n) => {
                self.index_register = n;
                self.pc_inc();
                proof { assert(self@ =~= s0.execute(ins, random).0); }
            },
            Instruction::Draw(rx, ry, n) => {
                self.draw_sprite(rx, ry, n);
                self.draw_flag = true;
                self.pc_inc();
                proof { assert(self@ =~= s0.execute(ins, random).0); }
            },
            Instruction::TimerX(r) => {
                self.registers[r] = self.get_timer(Timer::Delay);
                self.pc_inc();
                proof { assert(self@ =~= s0.execute(ins, random).0); }
            },
            Instruction::SetDelayTimer(r) => {
                self.set_timer(Timer::Delay, self.registers[r]);
                self.pc_inc();
                proof { assert(self@ =~= s0.execute(ins, random).0); }
            },
            Instruction::SetSoundTimer(r) => {
                self.set_timer(Timer::Sound, self.registers[r]);
                self.pc_inc();
                proof { assert(self@ =~= s0.execute(ins, random).0); }
            },
            Instruction::MemAdd(r) => {
                self.index_register = ((self.index_register as u32 + self.registers[r] as u32)
                    % 0x10000) as u16;
                self.pc_inc();
                proof { assert(self@ =~= s0.execute(ins, random).0); }
            },
            Instruction::SpriteX(r) => {
                self.index_register = self.registers[r] as u16 * 5;
                self.pc_inc();
                proof { assert(self@ =~= s0.execute(ins, random).0); }
            },
            Instruction::BCD(r) => {
                self.store_bcd(r);
                self.pc_inc();
                proof { assert(self@ =~= s0.execute(ins, random).0); }
            },
            Instruction::DumpX(r) => {
                self.dump_registers(r);
                self.pc_inc();
                proof { assert(self@ =~= s0.execute(ins, random).0); }
            },
            Instruction::LoadX(r) => {
                self.load_registers(r);
                self.pc_inc();
                proof { assert(self@ =~= s0.execute(ins, random).0); }
            },
            _ => {},
        }
        Status::Running
    }

    /// Stores `V0` to `VX` in memory from `I` on; `I` stays.
    fn dump_registers(&mut self, x: usize)
        requires
            old(self)@.wf(),
            x < 16,
        ensures
            final(self)@ == (MachineState {
                memory: dumped(old(self)@.memory, old(self)@.registers, old(self)@.index, x as int),
                ..old(self)@
            }),
    {
        let ghost s = self@;
        let mut i: usize = 0;
        while i <= x
            invariant
                i <= x + 1,
                x < 16,
                s.wf(),
                self@ == (MachineState { memory: self@.memory, ..s }),
                self@.memory == Seq::new(MEMORY_SIZE as nat, |a: int|
                    if wrap(a - s.index) < i { s.registers[wrap(a - s.index)] } else { s.memory[a] }),
            decreases x + 1 - i,
        {
            let location = (self.index_register as usize + i) % MEMORY_SIZE;
            self.memory[location] = self.registers[i];
            proof {
                assert forall|a: int| 0 <= a < MEMORY_SIZE implies
                    (#[trigger] wrap(a - s.index) == i) == (a == location) by {
                    lemma_wrap_offset(a, s.index as int, i as int, MEMORY_SIZE as int);
                }
                assert(self@.memory =~= Seq::new(MEMORY_SIZE as nat, |a: int|
                    if wrap(a - s.index) < i + 1 { s.registers[wrap(a - s.index)] } else { s.memory[a] }));
            }
            i = i + 1;
        }
        assert(self@.memory =~= dumped(s.memory, s.registers, s.index, x as int));
    }

    /// Loads `V0` to `VX` from memory from `I` on; `I` stays.
    fn load_registers(&mut self, x: usize)
        requires
            old(self)@.wf(),
            x < 16,
        ensures
            final(self)@ == (MachineState {
                registers: loaded(old(self)@.registers, old(self)@.memory, old(self)@.index, x as int),
                ..old(self)@
            }),
    {
        let ghost s = self@;
        let mut i: usize = 0;
        while i <= x
            invariant
                i <= x + 1,
                x < 16,
                s.wf(),
                self@ == (MachineState { registers: self@.registers, ..s }),
                self@.registers == Seq::new(16, |j: int|
                    if j < i { s.memory[wrap(s.index + j)] } else { s.registers[j] }),
            decreases x + 1 - i,
        {
            let location = (self.index_register as usize + i) % MEMORY_SIZE;
            self.registers[i] = self.memory[location];
            assert(self@.registers =~= Seq::new(16, |j: int|
                if j < i + 1 { s.memory[wrap(s.index + j)] } else { s.registers[j] }));
            i = i + 1;
        }
        assert(self@.registers =~= loaded(s.registers, s.memory, s.index, x as int));
    }

    /// Stores the hundreds, tens and units digits of `VX` at `I`, `I + 1`
    /// and `I + 2`.
    fn store_bcd(&mut self, x: usize)
        requires
            old(self)@.wf(),
            x < 16,
        ensures
            ({
                let s = old(self)@;
                let vx = s.reg(x as int);
                final(self)@ == (MachineState {
                    memory: s.memory.update(wrap(s.index as int), (vx / 100 % 10) as u8).update(
                        wrap(s.index + 1),
                        (vx / 10 % 10) as u8,
                    ).update(wrap(s.index + 2), (vx % 10) as u8),
                    ..s
                })
            }),
    {
        let ds = convert_to_bcd(self.registers[x] as u16);
        let i = self.index_register as usize;
        self.memory[i % MEMORY_SIZE] = ds[0];
        self.memory[(i + 1) % MEMORY_SIZE] = ds[1];
        self.memory[(i + 2) % MEMORY_SIZE] = ds[2];
    }

    /// The lowest-numbered key held down, if any.
    fn first_pressed_key(&self) -> (r: Option<u8>)
        requires
            self@.wf(),
        ensures
            r matches Some(k) ==> is_first_pressed(self@.keys, k as int),
            r is None ==> !any_pressed(self@.keys),
    {
        let mut k: u8 = 0;
        while k < 16
            invariant
                k <= 16,
                self@.wf(),
                forall|j: int| 0 <= j < k ==> !self@.keys[j],
            decreases 16 - k,
        {
            if self.keys[k as usize] {
                return Some(k);
            }
            k = k + 1;
        }
        None
    }

    /// Moves the program counter on by one instruction, wrapping round
    /// memory.
    fn pc_inc(&mut self)
        requires
            old(self)@.pc < MEMORY_SIZE,
        ensures
            final(self)@ == (MachineState { pc: wrap(old(self)@.pc + 2) as u16, ..old(self)@ }),
    {
        self.pc = (self.pc + 2) % (MEMORY_SIZE as u16);
    }

    /// Moves the program counter on by two instructions where `skip` holds,
    /// else by one, wrapping round memory.
    fn skip_if(&mut self, skip: bool)
        requires
            old(self)@.pc < MEMORY_SIZE,
        ensures
            final(self)@ == (MachineState {
                pc: (if skip { wrap(old(self)@.pc + 4) } else { wrap(old(self)@.pc + 2) }) as u16,
                ..old(self)@
            }),
    {
        let step: u16 = if skip { 4 } else { 2 };
        self.pc = (self.pc + step) % (MEMORY_SIZE as u16);
    }

    /// Register `r`.
    pub fn register(&self, r: usize) -> (v: u8)
        requires
            r < 16,
        ensures
            v == self@.reg(r as int),
    {
        self.registers[r]
    }

    /// The index register `I`.
    pub fn index_register(&self) -> (i: u16)
        ensures
            i == self@.index,
    {
        self.index_register
    }

    /// The program counter.
    pub fn pc(&self) -> (pc: u16)
        ensures
            pc == self@.pc,
    {
        self.pc
    }

    /// The byte at address `addr`.
    pub fn memory_at(&self, addr: usize) -> (b: u8)
        requires
            addr < MEMORY_SIZE,
        ensures
            b == self@.memory[addr as int],
    {
        self.memory[addr]
    }

    /// How many return addresses the stack holds.
    pub fn stack_depth(&self) -> (d: usize)
        ensures
            d == self@.stack.len(),
    {
        self.stack.len()
    }

    /// Whether the pixel in column `x`, row `y` is set.
    pub fn pixel(&self, x: usize, y: usize) -> (on: bool)
        requires
            x < WIDTH,
            y < HEIGHT,
        ensures
            on == self@.display[y * WIDTH + x],
    {
        self.gfx[y * WIDTH + x]
    }

    /// Whether the last step changed what the display should show.
    pub fn display_dirty(&self) -> (d: bool)
        ensures
            d == self@.dirty,
    {
        self.draw_flag
    }

    /// Sets timer `t` to `v`.
    pub fn set_timer(&mut self, t: Timer, v: u8)
        ensures
            final(self)@ == (match t {
                Timer::Sound => MachineState { sound_timer: v, ..old(self)@ },
                Timer::Delay => MachineState { delay_timer: v, ..old(self)@ },
            }),
    {
        match t {
            Timer::Sound => self.sound_timer = v,
            Timer::Delay => self.delay_timer = v,
        }
    }

    /// The value of timer `t`.
    pub fn get_timer(&self, t: Timer) -> (r: u8)
        ensures
            r == (match t {
                Timer::Sound => self@.sound_timer,
                Timer::Delay => self@.delay_timer,
            }),
    {
        match t {
            Timer::Sound => self.sound_timer,
            Timer::Delay => self.delay_timer,
        }
    }

    /// Copies the font into the bottom of memory.
    fn load_fontset(&mut self)
        ensures
            final(self)@ == (MachineState {
                memory: Seq::new(MEMORY_SIZE as nat, |a: int|
                    if a < FONT_SIZE { font()[a] } else { old(self)@.memory[a] }),
                ..old(self)@
            }),
    {
        let codes = font_bytes();
        let mut x: usize = 0;
        while x < FONT_SIZE
            invariant
                x <= FONT_SIZE,
                codes@ == font(),
                self@ == (MachineState {
                    memory: Seq::new(MEMORY_SIZE as nat, |a: int|
                        if a < x { font()[a] } else { old(self)@.memory[a] }),
                    ..old(self)@
                }),
            decreases FONT_SIZE - x,
        {
            self.memory[x] = codes[x];
            x = x + 1;
            assert(self@.memory =~= Seq::new(MEMORY_SIZE as nat, |a: int|
                if a < x { font()[a] } else { old(self)@.memory[a] }));
        }
    }
}

} // verus!
