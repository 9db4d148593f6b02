use crate::machine::{
    any_pressed, is_lowest_pressed, lowest_pressed, Machine, DISPLAY_SIZE, FLAG, NUM_REGISTERS,
    STACK_SIZE,
};
use crate::opcode::Instruction;
use vstd::prelude::*;

verus! {

/// The fields of an instruction are digits of its word: together they give
/// the word back, and each stays within its width, whichever group the
/// instruction belongs to.
pub proof fn lemma_fields_of_word(hi: u8, lo: u8)
    ensures
        ({
            let i = Instruction::decoded(hi, lo);
            &&& i.opcode == hi * 256 + lo
            &&& i.opcode == i.family * 4096 + i.x * 256 + i.y * 16 + i.n
            &&& i.nn == i.y * 16 + i.n
            &&& i.nnn == i.x * 256 + i.nn
            &&& i.family < 16
            &&& i.x < 16
            &&& i.y < 16
            &&& i.n < 16
            &&& i.nnn < 4096
        }),
{
}

/// Flipping a pixel twice gives the pixel back, and flipping a dark or lit
/// pixel gives a lit or dark one.
pub proof fn lemma_flip(pixel: u8)
    ensures
        (pixel ^ 1) ^ 1 == pixel,
        pixel == 0 <==> pixel ^ 1 == 1,
        pixel == 1 <==> pixel ^ 1 == 0,
{
    assert((pixel ^ 1) ^ 1 == pixel) by (bit_vector);
    assert(pixel == 0 <==> pixel ^ 1 == 1) by (bit_vector);
    assert(pixel == 1 <==> pixel ^ 1 == 0) by (bit_vector);
}

/// A cycle that can run keeps the machine well formed: the stack pointer
/// stays within the stack and every pixel stays 0 or 1.
pub proof fn lemma_step_keeps_wf(m: Machine, random: u8)
    requires
        m.wf(),
        m.fault() is None,
    ensures
        m.step(random).wf(),
{
    let i = m.instruction();
    lemma_fields_of_word(m.memory[m.program_counter as int], m.memory[m.program_counter as int + 1]);
    let next = m.execute(i, random);
    assert forall|p: int| 0 <= p < DISPLAY_SIZE implies #[trigger] next.display[p] <= 1 by {
        lemma_flip(m.display[p]);
    }
}

/// What a cycle leaves alone. The keypad is never written. The frame
/// buffer changes only on a clear or a draw, memory only where digits or
/// registers are stored, the stack only on a call, the stack pointer only
/// on a call or a return, and the index register only where it is set or
/// added to.
pub proof fn lemma_step_frame(m: Machine, random: u8)
    ensures
        ({
            let i = m.instruction();
            let next = m.step(random);
            &&& next.keys == m.keys
            &&& (i.family == 0x0 && i.nn == 0xE0) || i.family == 0xD || next.display == m.display
            &&& (i.family == 0xF && (i.nn == 0x33 || i.nn == 0x55)) || next.memory == m.memory
            &&& i.family == 0x2 || next.stack == m.stack
            &&& i.family == 0x2 || (i.family == 0x0 && i.nn == 0xEE) || next.stack_pointer
                == m.stack_pointer
            &&& i.family == 0xA || (i.family == 0xF && (i.nn == 0x1E || i.nn == 0x29))
                || next.index == m.index
        }),
{
}

/// Where a cycle leaves the program counter. A jump, a call and a return
/// set it and add nothing. A skip moves it by two or by four. A wait for
/// a key with no key held down leaves it. Every other word, known or not,
/// moves it by two.
pub proof fn lemma_program_counter_policy(m: Machine, random: u8)
    ensures
        ({
            let i = m.instruction();
            let pc = m.program_counter;
            let next = m.step(random).program_counter;
            if i.family == 0x1 || i.family == 0x2 {
                next == i.nnn
            } else if i.family == 0xB {
                next == (i.nnn + m.registers[0]) % 4096
            } else if i.family == 0x0 && i.nn == 0xEE {
                next == m.stack[m.stack_pointer - 1]
            } else if i.family == 0x3 || i.family == 0x4 || i.family == 0x5 || i.family == 0x9 || (
            i.family == 0xE && (i.nn == 0x9E || i.nn == 0xA1)) {
                next == pc + 2 || next == pc + 4
            } else if i.family == 0xF && m.awaits_key(i.nn) {
                next == pc
            } else {
                next == pc + 2
            }
        }),
{
}

/// A cycle draws on the random byte only when its instruction is the
/// random one.
pub proof fn lemma_random_only_where_drawn(m: Machine, a: u8, b: u8)
    requires
        !Machine::draws_random(m.instruction()),
    ensures
        m.step(a) == m.step(b),
{
}

/// Drawing the same sprite at the same place twice in a row gives back the
/// frame buffer as it was. The second drawing raises the flag exactly when
/// the sprite lights a pixel that was dark before the first.
///
/// The two drawings are at the same place when the first leaves the two
/// coordinate registers as they were, which it does unless one of them is
/// the flag register.
pub proof fn lemma_draw_twice(m: Machine, x: int, y: int, height: u8)
    requires
        m.wf(),
        0 <= x < NUM_REGISTERS,
        0 <= y < NUM_REGISTERS,
        m.draw(x, y, height).registers[x] == m.registers[x],
        m.draw(x, y, height).registers[y] == m.registers[y],
    ensures
        m.draw(x, y, height).draw(x, y, height).display == m.display,
        m.draw(x, y, height).draw(x, y, height).registers[FLAG as int] == 1 <==> exists|p: int|
            #[trigger] m.sprite_lights(m.registers[x], m.registers[y], height, p) && m.display[p]
                == 0,
{
    let left = m.registers[x];
    let top = m.registers[y];
    let once = m.draw(x, y, height);
    let twice = once.draw(x, y, height);
    assert forall|p: int| 0 <= p < DISPLAY_SIZE implies #[trigger] twice.display[p]
        == m.display[p] by {
        lemma_flip(m.display[p]);
        assert(once.sprite_lights(left, top, height, p) == m.sprite_lights(left, top, height, p));
    }
    assert(twice.display =~= m.display);
    if once.sprite_collides(left, top, height) {
        let p = choose|p: int| #[trigger]
            once.sprite_lights(left, top, height, p) && once.display[p] == 1;
        lemma_flip(m.display[p]);
        assert(m.sprite_lights(left, top, height, p) && m.display[p] == 0);
    }
    if exists|p: int| #[trigger] m.sprite_lights(left, top, height, p) && m.display[p] == 0 {
        let p = choose|p: int| #[trigger]
            m.sprite_lights(left, top, height, p) && m.display[p] == 0;
        lemma_flip(m.display[p]);
        assert(once.sprite_lights(left, top, height, p) && once.display[p] == 1);
    }
}

/// A call followed at once by a return resumes at the instruction after
/// the call, with the stack pointer where it was.
pub proof fn lemma_call_then_return(m: Machine, addr: u16)
    requires
        m.wf(),
        m.fetchable(),
        m.stack_pointer < STACK_SIZE,
    ensures
        m.call_subroutine(addr).return_from_subroutine().program_counter == m.program_counter
            + 2,
        m.call_subroutine(addr).return_from_subroutine().stack_pointer == m.stack_pointer,
{
}

/// The same over two cycles: when the machine is at a call, and a return
/// stands at the address called, the two cycles end at the instruction
/// after the call with the stack pointer where it was.
pub proof fn lemma_call_cycle_then_return_cycle(m: Machine, a: u8, b: u8)
    requires
        m.wf(),
        m.fault() is None,
        m.instruction().family == 0x2,
        m.step(a).fetchable(),
        m.step(a).instruction().family == 0x0,
        m.step(a).instruction().nn == 0xEE,
    ensures
        m.step(a).fault() is None,
        m.step(a).step(b).program_counter == m.program_counter + 2,
        m.step(a).step(b).stack_pointer == m.stack_pointer,
{
    lemma_fields_of_word(m.memory[m.program_counter as int], m.memory[m.program_counter as int + 1]);
    lemma_call_then_return(m, m.instruction().nnn);
}

/// At most one key is the lowest one held down.
pub proof fn lemma_lowest_pressed(keys: Seq<bool>, key: int)
    requires
        is_lowest_pressed(keys, key),
    ensures
        any_pressed(keys),
        lowest_pressed(keys) == key,
{
    let chosen = lowest_pressed(keys);
    assert(is_lowest_pressed(keys, chosen));
}

/// While no key is held down, a machine that waits for a key stays where
/// it is, however many cycles run: only the timers move.
pub proof fn lemma_key_wait_stalls(m: Machine, randoms: Seq<u8>)
    requires
        m.wf(),
        m.fetchable(),
        m.instruction().family == 0xF,
        m.instruction().nn == 0x0A,
        !any_pressed(m.keys),
    ensures
        m.run(randoms) == (Machine {
            delay_timer: m.run(randoms).delay_timer,
            sound_timer: m.run(randoms).sound_timer,
            ..m
        }),
        m.run(randoms).delay_timer == if m.delay_timer >= randoms.len() {
            m.delay_timer - randoms.len()
        } else {
            0
        },
        m.run(randoms).sound_timer == if m.sound_timer >= randoms.len() {
            m.sound_timer - randoms.len()
        } else {
            0
        },
    decreases randoms.len(),
{
    if randoms.len() > 0 {
        lemma_key_wait_stalls(m, randoms.drop_last());
    }
}

/// Once a key is held down, the waiting machine takes the number of the
/// lowest such key into its register and moves on by one instruction.
pub proof fn lemma_key_wait_ends(m: Machine, key: int, random: u8)
    requires
        m.wf(),
        m.fetchable(),
        m.instruction().family == 0xF,
        m.instruction().nn == 0x0A,
        is_lowest_pressed(m.keys, key),
    ensures
        m.step(random).program_counter == m.program_counter + 2,
        m.step(random).registers == m.registers.update(m.instruction().x as int, key as u8),
{
    lemma_lowest_pressed(m.keys, key);
}

} // verus!
