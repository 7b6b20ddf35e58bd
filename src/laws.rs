use vstd::prelude::*;
use crate::font::{font, FONT_SIZE};
use crate::opcode::{decoded, Instruction};
use crate::state::{covers, wrap, HaltReason, MachineState, Status, FLAG, PIXELS, PROGRAM_START};

verus! {

/// `k` ticks take `k` off each timer, and a timer that reaches zero stays
/// there.
pub proof fn lemma_ticks_stop_at_zero(s: MachineState, k: nat)
    ensures
        s.ticked_times(k).delay_timer == if s.delay_timer >= k { s.delay_timer - k } else { 0 },
        s.ticked_times(k).sound_timer == if s.sound_timer >= k { s.sound_timer - k } else { 0 },
    decreases k,
{
    if k > 0 {
        lemma_ticks_stop_at_zero(s, (k - 1) as nat);
    }
}

/// After a reset the bottom of memory holds the font, byte for byte.
pub proof fn lemma_reset_loads_font(stack_limit: nat)
    ensures
        MachineState::initial(stack_limit).memory.subrange(0, FONT_SIZE as int) == font(),
{
    assert(MachineState::initial(stack_limit).memory.subrange(0, FONT_SIZE as int) =~= font());
}

/// Memory read back from the program start after loading a program that
/// fits holds the program unchanged.
pub proof fn lemma_load_then_read(s: MachineState, program: Seq<u8>)
    requires
        s.wf(),
        MachineState::fits(program.len()),
    ensures
        s.with_program(program).memory.subrange(
            PROGRAM_START as int,
            PROGRAM_START + program.len(),
        ) == program,
{
    assert(s.with_program(program).memory.subrange(PROGRAM_START as int, PROGRAM_START + program.len())
        =~= program);
}

/// Drawing a sprite twice at the same place leaves the display as it was:
/// XOR undoes itself. The place stays the same when neither coordinate is
/// read from the flag register, which the first draw overwrites.
pub proof fn lemma_draw_twice_restores_display(
    s: MachineState,
    x: usize,
    y: usize,
    n: u8,
    random1: u8,
    random2: u8,
)
    requires
        s.wf(),
        x < FLAG,
        y < FLAG,
        n < 16,
    ensures
        ({
            let s1 = s.execute(Instruction::Draw(x, y, n), random1).0;
            let s2 = s1.execute(Instruction::Draw(x, y, n), random2).0;
            s2.display == s.display
        }),
{
    let s1 = s.execute(Instruction::Draw(x, y, n), random1).0;
    let s2 = s1.execute(Instruction::Draw(x, y, n), random2).0;
    assert(s1.reg(x as int) == s.reg(x as int));
    assert(s1.reg(y as int) == s.reg(y as int));
    assert(s2.display =~= s.display);
}

/// The second of two draws of one sprite at one place sets the flag when
/// the sprite sets some pixel that was off before the first draw: the first
/// draw turned it on, and the second turns it off again.
pub proof fn lemma_draw_twice_collides(
    s: MachineState,
    x: usize,
    y: usize,
    n: u8,
    random1: u8,
    random2: u8,
)
    requires
        s.wf(),
        x < FLAG,
        y < FLAG,
        n < 16,
        exists|p: int|
            0 <= p < PIXELS && !s.display[p] && #[trigger] covers(
                s.memory,
                s.index,
                s.reg(x as int),
                s.reg(y as int),
                n,
                p,
            ),
    ensures
        ({
            let s1 = s.execute(Instruction::Draw(x, y, n), random1).0;
            let s2 = s1.execute(Instruction::Draw(x, y, n), random2).0;
            s2.reg(FLAG as int) == 1
        }),
{
    let s1 = s.execute(Instruction::Draw(x, y, n), random1).0;
    let (vx, vy) = (s.reg(x as int), s.reg(y as int));
    assert(s1.reg(x as int) == vx);
    assert(s1.reg(y as int) == vy);
    let p = choose|p: int|
        0 <= p < PIXELS && !s.display[p] && #[trigger] covers(s.memory, s.index, vx, vy, n, p);
    assert(s1.display[p]);
}

/// A call followed at once by a return brings the program counter to the
/// instruction after the call and the stack back to what it held, whenever
/// the stack had room for the call.
pub proof fn lemma_call_then_return(s: MachineState, target: u16, random1: u8, random2: u8)
    requires
        s.wf(),
        target < 0x1000,
        s.stack.len() < s.stack_limit,
    ensures
        ({
            let (s1, status1) = s.execute(Instruction::Call(target), random1);
            let (s2, status2) = s1.execute(Instruction::Return, random2);
            &&& status1 == Status::Running
            &&& status2 == Status::Running
            &&& s1.pc == target
            &&& s2.pc == wrap(s.pc + 2)
            &&& s2.stack == s.stack
        }),
{
    let s1 = s.execute(Instruction::Call(target), random1).0;
    assert(s1.stack.drop_last() =~= s.stack);
}

/// A step on a word that decodes to no instruction halts with
/// `DecodeHalt` and changes no register, no memory and no pixel: only the
/// dirty flag is cleared.
pub proof fn lemma_invalid_word_halts(s: MachineState, random: u8)
    requires
        s.wf(),
        decoded(s.fetch()) == Instruction::Invalid,
    ensures
        s.step(random) == (MachineState { dirty: false, ..s }, Status::Halted(HaltReason::DecodeHalt)),
{
}

} // verus!
