use vstd::prelude::*;
use crate::font::font;
use crate::opcode::{decoded, Instruction};
use crate::utils::msb_bit;

verus! {

/// Bytes of memory.
pub const MEMORY_SIZE: usize = 4096;
/// Where programs are loaded and where execution starts.
pub const PROGRAM_START: usize = 0x200;
/// Display width in pixels.
pub const WIDTH: usize = 64;
/// Display height in pixels.
pub const HEIGHT: usize = 32;
/// Pixels on the display, stored row by row.
pub const PIXELS: usize = 2048;
/// Number of general registers, and of keys.
pub const NUM_REGISTERS: usize = 16;
/// The register that holds the flag.
pub const FLAG: usize = 15;
/// The call-stack depth of the historical machine.
pub const DEFAULT_STACK_DEPTH: usize = 16;

/// Why a run stopped, or why a program could not be loaded.
#[derive(Clone, Copy, Debug, PartialEq, Eq, Structural)]
pub enum HaltReason {
    /// The program does not fit in memory above the program start.
    LoadError,
    /// The fetched word is no instruction.
    DecodeHalt,
    /// A return with no pending call.
    StackUnderflow,
    /// A call beyond the configured stack depth.
    StackOverflow,
}

/// The outcome of executing one instruction.
#[derive(Clone, Copy, Debug, PartialEq, Eq, Structural)]
pub enum Status {
    Running,
    Halted(HaltReason),
}

/// The whole machine as mathematical values.
#[verifier::ext_equal]
pub struct MachineState {
    pub memory: Seq<u8>,
    pub registers: Seq<u8>,
    /// The index register `I`.
    pub index: u16,
    /// The program counter.
    pub pc: u16,
    /// Return addresses, the latest last.
    pub stack: Seq<u16>,
    /// How many return addresses the stack holds at most.
    pub stack_limit: nat,
    /// Pixels, row by row, `WIDTH` to a row.
    pub display: Seq<bool>,
    /// Whether the last step changed what the display should show.
    pub dirty: bool,
    pub delay_timer: u8,
    pub sound_timer: u8,
    pub keys: Seq<bool>,
}

/// The address `a` wrapped into memory.
pub open spec fn wrap(a: int) -> int {
    a % (MEMORY_SIZE as int)
}

/// Whether key `k` is a key of the keypad and is held down.
pub open spec fn key_down(keys: Seq<bool>, k: int) -> bool {
    0 <= k < NUM_REGISTERS && keys[k]
}

/// Whether `k` is the lowest-numbered key held down.
pub open spec fn is_first_pressed(keys: Seq<bool>, k: int) -> bool {
    &&& key_down(keys, k)
    &&& forall|j: int| 0 <= j < k ==> !keys[j]
}

/// Whether any key is held down.
pub open spec fn any_pressed(keys: Seq<bool>) -> bool {
    exists|k: int| key_down(keys, k)
}

/// The lowest-numbered key held down, where one is.
pub open spec fn first_pressed(keys: Seq<bool>) -> int {
    choose|k: int| is_first_pressed(keys, k)
}

/// The sprite row that pixel `p` lies in, for a sprite placed at `(vx, vy)`,
/// counting rows around the display edge.
pub open spec fn sprite_row(vy: u8, p: int) -> int {
    (p / (WIDTH as int) - vy) % (HEIGHT as int)
}

/// The sprite column that pixel `p` lies in, for a sprite placed at
/// `(vx, vy)`, counting columns around the display edge.
pub open spec fn sprite_col(vx: u8, p: int) -> int {
    (p % (WIDTH as int) - vx) % (WIDTH as int)
}

/// Whether the `n`-row sprite at `index` in `memory`, placed at `(vx, vy)`,
/// has a set bit on pixel `p`. Row `h` of the sprite is the byte at
/// `index + h`, its bits from the most significant one on, and the sprite
/// wraps around the display edges.
pub open spec fn covers(memory: Seq<u8>, index: u16, vx: u8, vy: u8, n: u8, p: int) -> bool {
    let h = sprite_row(vy, p);
    let k = sprite_col(vx, p);
    &&& h < n
    &&& k < 8
    &&& msb_bit(memory[wrap(index + h)], k) == 1
}

/// The display after the sprite has been XORed onto it.
pub open spec fn drawn(display: Seq<bool>, memory: Seq<u8>, index: u16, vx: u8, vy: u8, n: u8) -> Seq<bool> {
    Seq::new(display.len(), |p: int| display[p] != covers(memory, index, vx, vy, n, p))
}

/// Whether drawing the sprite turns some set pixel off.
pub open spec fn collides(display: Seq<bool>, memory: Seq<u8>, index: u16, vx: u8, vy: u8, n: u8) -> bool {
    exists|p: int| 0 <= p < display.len() && display[p] && covers(memory, index, vx, vy, n, p)
}

/// Memory after `V0` to `VX` have been stored from `index` on.
pub open spec fn dumped(memory: Seq<u8>, registers: Seq<u8>, index: u16, x: int) -> Seq<u8> {
    Seq::new(memory.len(), |a: int| {
        let j = wrap(a - index);
        if j <= x { registers[j] } else { memory[a] }
    })
}

/// Registers after `V0` to `VX` have been loaded from `index` on.
pub open spec fn loaded(registers: Seq<u8>, memory: Seq<u8>, index: u16, x: int) -> Seq<u8> {
    Seq::new(registers.len(), |j: int| if j <= x { memory[wrap(index + j)] } else { registers[j] })
}

/// There is one lowest-numbered key held down.
pub proof fn lemma_first_pressed(keys: Seq<bool>, k: int)
    requires
        is_first_pressed(keys, k),
    ensures
        any_pressed(keys),
        first_pressed(keys) == k,
{
    let c = first_pressed(keys);
    assert(is_first_pressed(keys, c));
    if c < k {
        assert(!keys[c]);
    }
    if k < c {
        assert(!keys[k]);
    }
}

impl MachineState {
    /// The shape every machine keeps: sizes, addresses inside memory, and a
    /// stack within its limit.
    pub open spec fn wf(self) -> bool {
        &&& self.memory.len() == MEMORY_SIZE
        &&& self.registers.len() == NUM_REGISTERS
        &&& self.display.len() == PIXELS
        &&& self.keys.len() == NUM_REGISTERS
        &&& self.pc < MEMORY_SIZE
        &&& self.stack.len() <= self.stack_limit
        &&& forall|i: int| 0 <= i < self.stack.len() ==> #[trigger] self.stack[i] < MEMORY_SIZE
    }

    /// A machine just reset: the font at the bottom of memory, everything
    /// else zero, and the program counter at the program start.
    pub open spec fn initial(stack_limit: nat) -> MachineState {
        MachineState {
            memory: font() + Seq::new((MEMORY_SIZE - font().len()) as nat, |i: int| 0u8),
            registers: Seq::new(NUM_REGISTERS as nat, |i: int| 0u8),
            index: 0,
            pc: PROGRAM_START as u16,
            stack: Seq::empty(),
            stack_limit,
            display: Seq::new(PIXELS as nat, |i: int| false),
            dirty: false,
            delay_timer: 0,
            sound_timer: 0,
            keys: Seq::new(NUM_REGISTERS as nat, |i: int| false),
        }
    }

    /// Whether a program of `len` bytes fits in memory from the program start.
    pub open spec fn fits(len: nat) -> bool {
        len <= MEMORY_SIZE - PROGRAM_START
    }

    /// The machine with `program` copied into memory from the program start.
    pub open spec fn with_program(self, program: Seq<u8>) -> MachineState {
        MachineState {
            memory: Seq::new(self.memory.len(), |a: int|
                if PROGRAM_START <= a < PROGRAM_START + program.len() {
                    program[a - PROGRAM_START]
                } else {
                    self.memory[a]
                }),
            ..self
        }
    }

    /// The instruction word at the program counter, high byte first.
    pub open spec fn fetch(self) -> u16 {
        (self.memory[self.pc as int] * 256 + self.memory[wrap(self.pc + 1)]) as u16
    }

    /// Register `r`.
    pub open spec fn reg(self, r: int) -> u8 {
        self.registers[r]
    }

    /// Both timers one tick later, each stopping at zero.
    pub open spec fn ticked(self) -> MachineState {
        MachineState {
            delay_timer: if self.delay_timer > 0 { (self.delay_timer - 1) as u8 } else { 0 },
            sound_timer: if self.sound_timer > 0 { (self.sound_timer - 1) as u8 } else { 0 },
            ..self
        }
    }

    /// The machine after `k` timer ticks.
    pub open spec fn ticked_times(self, k: nat) -> MachineState
        decreases k,
    {
        if k == 0 {
            self
        } else {
            self.ticked_times((k - 1) as nat).ticked()
        }
    }

    /// The machine with key `k` set to `pressed`.
    pub open spec fn with_key(self, k: int, pressed: bool) -> MachineState {
        MachineState { keys: self.keys.update(k, pressed), ..self }
    }

    /// Executes `ins`. `random` is the byte that the random instruction
    /// uses; no other instruction reads it. The dirty flag is cleared first
    /// and set again only by `Clear` and `Draw`. Unless it says otherwise,
    /// an instruction moves the program counter on by two bytes, wrapping
    /// round memory. A halted step changes nothing else.
    pub open spec fn execute(self, ins: Instruction, random: u8) -> (MachineState, Status) {
        let s = MachineState { dirty: false, ..self };
        let next = wrap(self.pc + 2) as u16;
        let skip = wrap(self.pc + 4) as u16;
        let running = Status::Running;
        match ins {
            Instruction::Clear => (
                MachineState { display: Seq::new(PIXELS as nat, |p: int| false), dirty: true, pc: next, ..s },
                running,
            ),
            Instruction::Return => if s.stack.len() == 0 {
                (s, Status::Halted(HaltReason::StackUnderflow))
            } else {
                (MachineState { pc: s.stack.last(), stack: s.stack.drop_last(), ..s }, running)
            },
            Instruction::JumpTo(n) => (MachineState { pc: n, ..s }, running),
            Instruction::Call(n) => if s.stack.len() >= s.stack_limit {
                (s, Status::Halted(HaltReason::StackOverflow))
            } else {
                (MachineState { pc: n, stack: s.stack.push(next), ..s }, running)
            },
            Instruction::SkipEq(x, nn) => (
                MachineState { pc: if s.reg(x as int) == nn { skip } else { next }, ..s },
                running,
            ),
            Instruction::SkipNotEq(x, nn) => (
                MachineState { pc: if s.reg(x as int) != nn { skip } else { next }, ..s },
                running,
            ),
            Instruction::SkipEqXY(x, y) => (
                MachineState { pc: if s.reg(x as int) == s.reg(y as int) { skip } else { next }, ..s },
                running,
            ),
            Instruction::SkipNotEqXY(x, y) => (
                MachineState { pc: if s.reg(x as int) != s.reg(y as int) { skip } else { next }, ..s },
                running,
            ),
            Instruction::SetRegister(x, nn) => (
                MachineState { registers: s.registers.update(x as int, nn), pc: next, ..s },
                running,
            ),
            Instruction::AddX(x, nn) => (
                MachineState {
                    registers: s.registers.update(x as int, ((s.reg(x as int) + nn) % 256) as u8),
                    pc: next,
                    ..s
                },
                running,
            ),
            Instruction::AssignXY(x, y) => (
                MachineState { registers: s.registers.update(x as int, s.reg(y as int)), pc: next, ..s },
                running,
            ),
            Instruction::OrXY(x, y) => (
                MachineState {
                    registers: s.registers.update(x as int, s.reg(x as int) | s.reg(y as int)),
                    pc: next,
                    ..s
                },
                running,
            ),
            Instruction::AndXY(x, y) => (
                MachineState {
                    registers: s.registers.update(x as int, s.reg(x as int) & s.reg(y as int)),
                    pc: next,
                    ..s
                },
                running,
            ),
            Instruction::XorXY(x, y) => (
                MachineState {
                    registers: s.registers.update(x as int, s.reg(x as int) ^ s.reg(y as int)),
                    pc: next,
                    ..s
                },
                running,
            ),
            Instruction::AddXY(x, y) => {
                let sum = s.reg(x as int) + s.reg(y as int);
                (
                    MachineState {
                        registers: s.registers.update(x as int, (sum % 256) as u8).update(
                            FLAG as int,
                            if sum > 255 { 1u8 } else { 0u8 },
                        ),
                        pc: next,
                        ..s
                    },
                    running,
                )
            },
            Instruction::SubXY(x, y) => {
                let (vx, vy) = (s.reg(x as int), s.reg(y as int));
                (
                    MachineState {
                        registers: s.registers.update(x as int, ((256 + vx - vy) % 256) as u8).update(
                            FLAG as int,
                            if vx >= vy { 1u8 } else { 0u8 },
                        ),
                        pc: next,
                        ..s
                    },
                    running,
                )
            },
            Instruction::SubYX(x, y) => {
                let (vx, vy) = (s.reg(x as int), s.reg(y as int));
                (
                    MachineState {
                        registers: s.registers.update(x as int, ((256 + vy - vx) % 256) as u8).update(
                            FLAG as int,
                            if vy >= vx { 1u8 } else { 0u8 },
                        ),
                        pc: next,
                        ..s
                    },
                    running,
                )
            },
            Instruction::ShiftRightX1(x) => {
                let vx = s.reg(x as int);
                (
                    MachineState {
                        registers: s.registers.update(x as int, vx / 2).update(FLAG as int, vx % 2),
                        pc: next,
                        ..s
                    },
                    running,
                )
            },
            Instruction::ShiftLeftX1(x) => {
                let vx = s.reg(x as int);
                (
                    MachineState {
                        registers: s.registers.update(x as int, ((vx * 2) % 256) as u8).update(
                            FLAG as int,
                            vx / 128,
                        ),
                        pc: next,
                        ..s
                    },
                    running,
                )
            },
            Instruction::SetIR(n) => (MachineState { index: n, pc: next, ..s }, running),
            Instruction::Flow(n) => (MachineState { pc: wrap(s.reg(0) + n) as u16, ..s }, running),
            Instruction::RandX(x, nn) => (
                MachineState { registers: s.registers.update(x as int, random & nn), pc: next, ..s },
                running,
            ),
            Instruction::Draw(x, y, n) => {
                let (vx, vy) = (s.reg(x as int), s.reg(y as int));
                let hit = collides(s.display, s.memory, s.index, vx, vy, n);
                (
                    MachineState {
                        display: drawn(s.display, s.memory, s.index, vx, vy, n),
                        registers: s.registers.update(FLAG as int, if hit { 1u8 } else { 0u8 }),
                        dirty: true,
                        pc: next,
                        ..s
                    },
                    running,
                )
            },
            Instruction::KeyPressedX(x) => (
                MachineState { pc: if key_down(s.keys, s.reg(x as int) as int) { skip } else { next }, ..s },
                running,
            ),
            Instruction::KeyNotPressedX(x) => (
                MachineState { pc: if !key_down(s.keys, s.reg(x as int) as int) { skip } else { next }, ..s },
                running,
            ),
            Instruction::TimerX(x) => (
                MachineState { registers: s.registers.update(x as int, s.delay_timer), pc: next, ..s },
                running,
            ),
            Instruction::KeyPressX(x) => if any_pressed(s.keys) {
                (
                    MachineState {
                        registers: s.registers.update(x as int, first_pressed(s.keys) as u8),
                        pc: next,
                        ..s
                    },
                    running,
                )
            } else {
                (s, running)
            },
            Instruction::SetDelayTimer(x) => (
                MachineState { delay_timer: s.reg(x as int), pc: next, ..s },
                running,
            ),
            Instruction::SetSoundTimer(x) => (
                MachineState { sound_timer: s.reg(x as int), pc: next, ..s },
                running,
            ),
            Instruction::MemAdd(x) => (
                MachineState { index: ((s.index + s.reg(x as int)) % 0x10000) as u16, pc: next, ..s },
                running,
            ),
            Instruction::SpriteX(x) => (
                MachineState { index: (s.reg(x as int) * 5) as u16, pc: next, ..s },
                running,
            ),
            Instruction::BCD(x) => {
                let vx = s.reg(x as int);
                (
                    MachineState {
                        memory: s.memory.update(wrap(s.index as int), (vx / 100 % 10) as u8).update(
                            wrap(s.index + 1),
                            (vx / 10 % 10) as u8,
                        ).update(wrap(s.index + 2), (vx % 10) as u8),
                        pc: next,
                        ..s
                    },
                    running,
                )
            },
            Instruction::DumpX(x) => (
                MachineState { memory: dumped(s.memory, s.registers, s.index, x as int), pc: next, ..s },
                running,
            ),
            Instruction::LoadX(x) => (
                MachineState { registers: loaded(s.registers, s.memory, s.index, x as int), pc: next, ..s },
                running,
            ),
            Instruction::Invalid => (s, Status::Halted(HaltReason::DecodeHalt)),
        }
    }

    /// One fetch, decode and execute.
    pub open spec fn step(self, random: u8) -> (MachineState, Status) {
        self.execute(decoded(self.fetch()), random)
    }
}

} // verus!
