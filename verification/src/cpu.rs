use crate::machine::{
    font_set, is_lowest_pressed, pixel_position, Fault, Machine, Outcome, DISPLAY_HEIGHT,
    DISPLAY_SIZE, DISPLAY_WIDTH, FLAG, FONT_SIZE, GLYPH_HEIGHT, MEMORY_SIZE, NUM_KEYS,
    NUM_REGISTERS, PIXEL_OFF, PIXEL_ON, PROGRAM_START, STACK_SIZE,
};
use crate::painting::{
    lemma_painted_all, lemma_painted_next, lemma_painted_none, lemma_painted_row, painted,
};
use crate::entropy::random_byte;
use crate::laws::lemma_step_keeps_wf;
use crate::opcode::Instruction;
use vstd::prelude::*;

verus! {

/// A CHIP-8 machine: memory, registers, call stack, timers, keypad and
/// frame buffer.
pub struct Chip8 {
    /// Memory: the font from address 0, programs from `PROGRAM_START`.
    pub memory: [u8; MEMORY_SIZE],
    /// Registers V0 to VF; VF is the flag register.
    pub registers: [u8; NUM_REGISTERS],
    /// Frame buffer, row by row: 1 is a lit pixel, 0 a dark one.
    pub display: [u8; DISPLAY_SIZE],
    /// Return addresses; the slots below `stack_pointer` are in use.
    pub stack: [u16; STACK_SIZE],
    /// Address of the next instruction.
    pub program_counter: usize,
    /// Number of return addresses on the stack.
    pub stack_pointer: usize,
    /// The index register.
    pub index: usize,
    /// For each key, whether it is held down. The front end writes these
    /// between cycles.
    pub keys: [bool; NUM_KEYS],
    /// Counts down once per cycle.
    pub delay_timer: u8,
    /// Counts down once per cycle; sound is due while it is not zero.
    pub sound_timer: u8,
}

impl View for Chip8 {
    type V = Machine;

    open spec fn view(&self) -> Machine {
        Machine {
            memory: self.memory@,
            registers: self.registers@,
            display: self.display@,
            stack: self.stack@,
            program_counter: self.program_counter as nat,
            stack_pointer: self.stack_pointer as nat,
            index: self.index as nat,
            keys: self.keys@,
            delay_timer: self.delay_timer,
            sound_timer: self.sound_timer,
        }
    }
}

impl Chip8 {
    /// Builds a machine with the font in place and everything else zero.
    pub fn new() -> (chip: Chip8)
        ensures
            chip@ == Machine::initial(),
            chip@.wf(),
    {
        let mut chip = Chip8 {
            memory: [0;MEMORY_SIZE],
            registers: [0;NUM_REGISTERS],
            display: [0;DISPLAY_SIZE],
            stack: [0;STACK_SIZE],
            program_counter: 0,
            stack_pointer: 0,
            index: 0,
            keys: [false;NUM_KEYS],
            delay_timer: 0,
            sound_timer: 0,
        };
        let fonts: [u8; FONT_SIZE] = [
            0xF0, 0x90, 0x90, 0x90, 0xF0,
            0x20, 0x60, 0x20, 0x20, 0x70,
            0xF0, 0x10, 0xF0, 0x80, 0xF0,
            0xF0, 0x10, 0xF0, 0x10, 0xF0,
            0x90, 0x90, 0xF0, 0x10, 0x10,
            0xF0, 0x80, 0xF0, 0x10, 0xF0,
            0xF0, 0x80, 0xF0, 0x90, 0xF0,
            0xF0, 0x10, 0x20, 0x40, 0x40,
            0xF0, 0x90, 0xF0, 0x90, 0xF0,
            0xF0, 0x90, 0xF0, 0x10, 0xF0,
            0xF0, 0x90, 0xF0, 0x90, 0x90,
            0xE0, 0x90, 0xE0, 0x90, 0xE0,
            0xF0, 0x80, 0x80, 0x80, 0xF0,
            0xE0, 0x90, 0x90, 0x90, 0xE0,
            0xF0, 0x80, 0xF0, 0x80, 0xF0,
            0xF0, 0x80, 0xF0, 0x80, 0x80,
        ];
        assert(fonts@ =~= font_set());
        let ghost blank = chip@;
        let mut idx: usize = 0;
        while idx < FONT_SIZE
            invariant
                idx <= FONT_SIZE,
                fonts@ == font_set(),
                chip@ == (Machine { memory: chip@.memory, ..blank }),
                forall|a: int| 0 <= a < idx ==> chip.memory@[a] == fonts@[a],
                forall|a: int| idx <= a < MEMORY_SIZE ==> chip.memory@[a] == 0,
            decreases FONT_SIZE - idx,
        {
            chip.memory[idx] = fonts[idx];
            idx = idx + 1;
        }
        assert(chip@ =~= Machine::initial());
        chip
    }

    /// Copies a program image to the program area and points the program
    /// counter at its first byte. The image is taken as it is.
    pub fn load_program(&mut self, rom: &[u8])
        requires
            rom@.len() <= MEMORY_SIZE - PROGRAM_START,
        ensures
            final(self)@ == old(self)@.load_program(rom@),
            old(self)@.wf() ==> final(self)@.wf(),
    {
        let mut i: usize = 0;
        while i < rom.len()
            invariant
                i <= rom@.len() <= MEMORY_SIZE - PROGRAM_START,
                self@ == (Machine { memory: self@.memory, ..old(self)@ }),
                forall|a: int|
                    0 <= a < MEMORY_SIZE ==> self.memory@[a] == if PROGRAM_START <= a
                        < PROGRAM_START + i {
                        rom@[a - PROGRAM_START]
                    } else {
                        old(self).memory@[a]
                    },
            decreases rom@.len() - i,
        {
            self.memory[PROGRAM_START + i] = rom[i];
            i = i + 1;
        }
        self.program_counter = PROGRAM_START;
        assert(self@ =~= old(self)@.load_program(rom@));
    }

    /// Records that key `key` is held down, or that it is not.
    pub fn set_key(&mut self, key: usize, pressed: bool)
        requires
            key < NUM_KEYS,
        ensures
            final(self)@ == old(self)@.set_key(key as int, pressed),
            old(self)@.wf() ==> final(self)@.wf(),
    {
        self.keys[key] = pressed;
    }

    /// The frame buffer as colours, one per pixel, row by row.
    pub fn texture(&self) -> (texture: [u32; DISPLAY_SIZE])
        ensures
            texture@ == self@.texture(),
    {
        let mut texture: [u32; DISPLAY_SIZE] = [PIXEL_OFF;DISPLAY_SIZE];
        let mut p: usize = 0;
        while p < DISPLAY_SIZE
            invariant
                p <= DISPLAY_SIZE,
                forall|q: int| 0 <= q < p ==> texture@[q] == self@.texture()[q],
            decreases DISPLAY_SIZE - p,
        {
            if self.display[p] == 1 {
                texture[p] = PIXEL_ON;
            } else {
                texture[p] = PIXEL_OFF;
            }
            p = p + 1;
        }
        assert(texture@ =~= self@.texture());
        texture
    }

    /// The instruction at the program counter.
    fn fetch(&self) -> (instruction: Instruction)
        requires
            self@.fetchable(),
        ensures
            instruction == self@.instruction(),
            instruction.x < NUM_REGISTERS,
            instruction.y < NUM_REGISTERS,
            instruction.n < 16,
            instruction.family < 16,
    {
        Instruction::fetch(self.memory[self.program_counter], self.memory[self.program_counter + 1])
    }

    /// Tells why the next cycle cannot run, if it cannot. `cycle` and
    /// `cycle_with` may be called exactly when this is `None`.
    pub fn fault(&self) -> (fault: Option<Fault>)
        ensures
            fault == self@.fault(),
    {
        if self.program_counter >= MEMORY_SIZE - 1 {
            return Some(Fault::ProgramCounterOutOfBounds);
        }
        let i = self.fetch();
        match i.family {
            0x0 => {
                if i.nn == 0xEE && self.stack_pointer == 0 {
                    Some(Fault::StackUnderflow)
                } else if i.nn == 0xEE && self.stack_pointer > STACK_SIZE {
                    Some(Fault::StackOverflow)
                } else {
                    None
                }
            },
            0x2 => {
                if self.stack_pointer >= STACK_SIZE {
                    Some(Fault::StackOverflow)
                } else {
                    None
                }
            },
            0xD => {
                if i.n != 0 && self.index > MEMORY_SIZE - i.n as usize {
                    Some(Fault::IndexOutOfBounds)
                } else {
                    None
                }
            },
            0xE => {
                if (i.nn == 0x9E || i.nn == 0xA1) && self.registers[i.x] >= 16 {
                    Some(Fault::KeyOutOfRange)
                } else {
                    None
                }
            },
            0xF => {
                if i.nn == 0x33 && self.index >= MEMORY_SIZE - 2 {
                    Some(Fault::IndexOutOfBounds)
                } else if (i.nn == 0x55 || i.nn == 0x65) && self.index >= MEMORY_SIZE - i.x {
                    Some(Fault::IndexOutOfBounds)
                } else {
                    None
                }
            },
            _ => None,
        }
    }

    /// Runs one cycle: carries out the instruction at the program counter,
    /// then lets the timers count down. A random instruction draws its byte
    /// from the thread's random number generator.
    pub fn cycle(&mut self) -> (outcome: Outcome)
        requires
            old(self)@.fault() is None,
        ensures
            exists|random: u8| final(self)@ == #[trigger] old(self)@.step(random),
            !Machine::draws_random(old(self)@.instruction()) ==> final(self)@ == old(self)@.step(0),
            outcome == old(self)@.outcome(),
            old(self)@.wf() ==> final(self)@.wf(),
    {
        let random: u8 = if self.fetch().family == 0xC {
            random_byte()
        } else {
            0
        };
        self.cycle_with(random)
    }

    /// Runs one cycle in which a random instruction, if it is one, draws
    /// `random`.
    pub fn cycle_with(&mut self, random: u8) -> (outcome: Outcome)
        requires
            old(self)@.fault() is None,
        ensures
            final(self)@ == old(self)@.step(random),
            outcome == old(self)@.outcome(),
            old(self)@.wf() ==> final(self)@.wf(),
    {
        proof {
            if self@.wf() {
                lemma_step_keeps_wf(self@, random);
            }
        }
        let i = self.fetch();
        let outcome = match i.family {
            0x0 => match i.nn {
                0xE0 => {
                    self.clear_screen();
                    Outcome::Executed
                },
                0xEE => {
                    self.return_from_subroutine();
                    Outcome::Executed
                },
                _ => {
                    self.increment_pc();
                    Outcome::UnknownOpcode(i.opcode)
                },
            },
            0x1 => {
                self.jump(i.nnn);
                Outcome::Executed
            },
            0x2 => {
                self.call_subroutine(i.nnn);
                Outcome::Executed
            },
            0x3 => {
                self.skip_if_equal(i.x, i.nn);
                Outcome::Executed
            },
            0x4 => {
                self.skip_if_not_equal(i.x, i.nn);
                Outcome::Executed
            },
            0x5 => {
                self.skip_if_equal_reg(i.x, i.y);
                Outcome::Executed
            },
            0x6 => {
                self.set_register(i.x, i.nn);
                Outcome::Executed
            },
            0x7 => {
                self.add_to_register(i.x, i.nn);
                Outcome::Executed
            },
            0x8 => self.alu_operations(i.x, i.y, i.n),
            0x9 => {
                self.skip_if_not_equal_reg(i.x, i.y);
                Outcome::Executed
            },
            0xA => {
                self.set_index(i.nnn);
                Outcome::Executed
            },
            0xB => {
                self.jump_with_offset(i.nnn);
                Outcome::Executed
            },
            0xC => {
                self.random(i.x, i.nn, random);
                Outcome::Executed
            },
            0xD => {
                self.draw(i.x, i.y, i.n);
                Outcome::Executed
            },
            0xE => match i.nn {
                0x9E => {
                    self.skip_if_key_pressed(i.x);
                    Outcome::Executed
                },
                0xA1 => {
                    self.skip_if_key_not_pressed(i.x);
                    Outcome::Executed
                },
                _ => {
                    self.increment_pc();
                    Outcome::UnknownOpcode(i.opcode)
                },
            },
            _ => self.misc_operations(i.x, i.nn),
        };
        self.update_timers();
        outcome
    }

    /// Moves the program counter to the next instruction.
    fn increment_pc(&mut self)
        requires
            old(self)@.program_counter + 2 <= usize::MAX,
        ensures
            final(self)@ == old(self)@.advance(),
    {
        self.program_counter = self.program_counter + 2;
    }

    /// 00E0: clears the screen.
    fn clear_screen(&mut self)
        requires
            old(self)@.fetchable(),
        ensures
            final(self)@ == old(self)@.clear_screen(),
    {
        self.display = [0;DISPLAY_SIZE];
        self.increment_pc();
        assert(self@ =~= old(self)@.clear_screen());
    }

    /// 00EE: returns to the caller of the running subroutine.
    fn return_from_subroutine(&mut self)
        requires
            0 < old(self)@.stack_pointer <= STACK_SIZE,
        ensures
            final(self)@ == old(self)@.return_from_subroutine(),
    {
        self.stack_pointer = self.stack_pointer - 1;
        self.program_counter = self.stack[self.stack_pointer] as usize;
    }

    /// 1nnn: jumps to `addr`.
    fn jump(&mut self, addr: u16)
        ensures
            final(self)@ == old(self)@.jump(addr),
    {
        self.program_counter = addr as usize;
    }

    /// 2nnn: calls the subroutine at `addr`.
    fn call_subroutine(&mut self, addr: u16)
        requires
            old(self)@.fetchable(),
            old(self)@.stack_pointer < STACK_SIZE,
        ensures
            final(self)@ == old(self)@.call_subroutine(addr),
    {
        self.stack[self.stack_pointer] = (self.program_counter + 2) as u16;
        self.stack_pointer = self.stack_pointer + 1;
        self.program_counter = addr as usize;
    }

    /// 3xnn: skips the next instruction if register `x` equals `value`.
    fn skip_if_equal(&mut self, x: usize, value: u8)
        requires
            x < NUM_REGISTERS,
            old(self)@.fetchable(),
        ensures
            final(self)@ == old(self)@.skip_if_equal(x as int, value),
    {
        if self.registers[x] == value {
            self.increment_pc();
        }
        self.increment_pc();
    }

    /// 4xnn: skips the next instruction if register `x` differs from `value`.
    fn skip_if_not_equal(&mut self, x: usize, value: u8)
        requires
            x < NUM_REGISTERS,
            old(self)@.fetchable(),
        ensures
            final(self)@ == old(self)@.skip_if_not_equal(x as int, value),
    {
        if self.registers[x] != value {
            self.increment_pc();
        }
        self.increment_pc();
    }

    /// 5xy0: skips the next instruction if registers `x` and `y` are equal.
    fn skip_if_equal_reg(&mut self, x: usize, y: usize)
        requires
            x < NUM_REGISTERS,
            y < NUM_REGISTERS,
            old(self)@.fetchable(),
        ensures
            final(self)@ == old(self)@.skip_if_equal_reg(x as int, y as int),
    {
        if self.registers[x] == self.registers[y] {
            self.increment_pc();
        }
        self.increment_pc();
    }

    /// 6xnn: loads `value` into register `x`.
    fn set_register(&mut self, x: usize, value: u8)
        requires
            x < NUM_REGISTERS,
            old(self)@.fetchable(),
        ensures
            final(self)@ == old(self)@.set_register(x as int, value),
    {
        self.registers[x] = value;
        self.increment_pc();
    }

    /// 7xnn: adds `value` to register `x`, wrapping, without touching the
    /// flag.
    fn add_to_register(&mut self, x: usize, value: u8)
        requires
            x < NUM_REGISTERS,
            old(self)@.fetchable(),
        ensures
            final(self)@ == old(self)@.add_to_register(x as int, value),
    {
        self.registers[x] = self.registers[x].wrapping_add(value);
        self.increment_pc();
    }

    /// 9xy0: skips the next instruction if registers `x` and `y` differ.
    fn skip_if_not_equal_reg(&mut self, x: usize, y: usize)
        requires
            x < NUM_REGISTERS,
            y < NUM_REGISTERS,
            old(self)@.fetchable(),
        ensures
            final(self)@ == old(self)@.skip_if_not_equal_reg(x as int, y as int),
    {
        if self.registers[x] != self.registers[y] {
            self.increment_pc();
        }
        self.increment_pc();
    }

    /// Annn: loads `value` into the index register.
    fn set_index(&mut self, value: u16)
        requires
            old(self)@.fetchable(),
        ensures
            final(self)@ == old(self)@.set_index(value),
    {
        self.index = value as usize;
        self.increment_pc();
    }

    /// Bnnn: jumps to `addr` plus register 0, kept inside memory.
    fn jump_with_offset(&mut self, addr: u16)
        ensures
            final(self)@ == old(self)@.jump_with_offset(addr),
    {
        let target: u32 = addr as u32 + self.registers[0] as u32;
        assert(target & 0xFFF == target % 4096) by (bit_vector);
        self.program_counter = (target & 0xFFF) as usize;
    }

    /// Cxnn: loads the random `byte`, cut down by `mask`, into register `x`.
    fn random(&mut self, x: usize, mask: u8, byte: u8)
        requires
            x < NUM_REGISTERS,
            old(self)@.fetchable(),
        ensures
            final(self)@ == old(self)@.random(x as int, mask, byte),
    {
        self.registers[x] = byte & mask;
        self.increment_pc();
    }

    /// Dxyn: draws a sprite and records whether it turned a pixel off.
    fn draw(&mut self, x: usize, y: usize, height: u8)
        requires
            x < NUM_REGISTERS,
            y < NUM_REGISTERS,
            height < 16,
            old(self)@.fetchable(),
            old(self)@.sprite_in_memory(height),
        ensures
            final(self)@ == old(self)@.draw(x as int, y as int, height),
    {
        let left: u8 = self.registers[x];
        let top: u8 = self.registers[y];
        let ghost before = self@;
        self.registers[FLAG] = 0;
        proof {
            lemma_painted_none(before, self@, left, top, height);
        }
        let mut row: usize = 0;
        while row < height as usize
            invariant
                row <= height < 16,
                before == old(self)@,
                before.fetchable(),
                before.sprite_in_memory(height),
                painted(before, self@, left, top, height, row as int, 0),
            decreases height - row,
        {
            let sprite_byte: u8 = self.memory[self.index + row];
            let mut col: u8 = 0;
            while col < 8
                invariant
                    col <= 8,
                    row < height < 16,
                    before == old(self)@,
                    before.fetchable(),
                    before.sprite_in_memory(height),
                    sprite_byte == before.memory[before.index + row],
                    painted(before, self@, left, top, height, row as int, col as int),
                decreases 8 - col,
            {
                let pixel_x: usize = (left as usize + col as usize) % DISPLAY_WIDTH;
                let pixel_y: usize = (top as usize + row) % DISPLAY_HEIGHT;
                let pixel_index: usize = pixel_y * DISPLAY_WIDTH + pixel_x;
                assert(pixel_index == pixel_position(left, top, row as int, col as int));
                let ghost earlier = self@;
                if sprite_byte & (0x80u8 >> col) != 0 {
                    if self.display[pixel_index] == 1 {
                        self.registers[FLAG] = 1;
                    }
                    self.display[pixel_index] = self.display[pixel_index] ^ 1;
                }
                proof {
                    lemma_painted_next(
                        before,
                        earlier,
                        self@,
                        left,
                        top,
                        height,
                        row as int,
                        col as int,
                    );
                }
                col = col + 1;
            }
            proof {
                lemma_painted_row(before, self@, left, top, height, row as int);
            }
            row = row + 1;
        }
        proof {
            lemma_painted_all(before, self@, left, top, height);
        }
        self.increment_pc();
        assert(self@ =~= old(self)@.draw(x as int, y as int, height));
    }

    /// 8xy0 to 8xyE: the arithmetic group.
    fn alu_operations(&mut self, x: usize, y: usize, op: u8) -> (outcome: Outcome)
        requires
            x < NUM_REGISTERS,
            y < NUM_REGISTERS,
            old(self)@.fetchable(),
        ensures
            final(self)@ == old(self)@.alu_operations(x as int, y as int, op),
            outcome == Machine::alu_outcome(op),
    {
        let vx: u8 = self.registers[x];
        let vy: u8 = self.registers[y];
        let mut outcome = Outcome::Executed;
        match op {
            0x0 => {
                self.registers[x] = vy;
            },
            0x1 => {
                self.registers[x] = vx | vy;
            },
            0x2 => {
                self.registers[x] = vx & vy;
            },
            0x3 => {
                self.registers[x] = vx ^ vy;
            },
            0x4 => {
                self.registers[x] = vx.wrapping_add(vy);
                self.registers[FLAG] = if vy > 255 - vx {
                    1
                } else {
                    0
                };
            },
            0x5 => {
                self.registers[x] = vx.wrapping_sub(vy);
                self.registers[FLAG] = if vx >= vy {
                    1
                } else {
                    0
                };
            },
            0x6 => {
                assert(vx >> 1 == vx / 2) by (bit_vector);
                assert(vx & 1 == vx % 2) by (bit_vector);
                self.registers[x] = vx >> 1;
                self.registers[FLAG] = vx & 1;
            },
            0x7 => {
                self.registers[x] = vy.wrapping_sub(vx);
                self.registers[FLAG] = if vy >= vx {
                    1
                } else {
                    0
                };
            },
            0xE => {
                assert(vx << 1 == (vx * 2) % 256) by (bit_vector);
                assert((vx & 0x80) >> 7 == vx / 128) by (bit_vector);
                self.registers[x] = vx << 1;
                self.registers[FLAG] = (vx & 0x80) >> 7;
            },
            _ => {
                outcome = Outcome::UnknownAlu(op);
            },
        }
        self.increment_pc();
        assert(self@ =~= old(self)@.alu_operations(x as int, y as int, op));
        outcome
    }

    /// Ex9E: skips the next instruction if the key named by register `x` is
    /// held down.
    fn skip_if_key_pressed(&mut self, x: usize)
        requires
            x < NUM_REGISTERS,
            old(self)@.fetchable(),
            old(self)@.names_key(x as int),
        ensures
            final(self)@ == old(self)@.skip_if_key_pressed(x as int),
    {
        if self.keys[self.registers[x] as usize] {
            self.increment_pc();
        }
        self.increment_pc();
    }

    /// ExA1: skips the next instruction unless the key named by register
    /// `x` is held down.
    fn skip_if_key_not_pressed(&mut self, x: usize)
        requires
            x < NUM_REGISTERS,
            old(self)@.fetchable(),
            old(self)@.names_key(x as int),
        ensures
            final(self)@ == old(self)@.skip_if_key_not_pressed(x as int),
    {
        if !self.keys[self.registers[x] as usize] {
            self.increment_pc();
        }
        self.increment_pc();
    }

    /// Fx07 to Fx65: the timer-and-memory group.
    fn misc_operations(&mut self, x: usize, op: u8) -> (outcome: Outcome)
        requires
            x < NUM_REGISTERS,
            old(self)@.fetchable(),
            old(self)@.misc_in_memory(x as int, op),
        ensures
            final(self)@ == old(self)@.misc_operations(x as int, op),
            outcome == old(self)@.misc_outcome(op),
    {
        let vx: u8 = self.registers[x];
        let mut outcome = Outcome::Executed;
        match op {
            0x07 => {
                self.registers[x] = self.delay_timer;
            },
            0x0A => {
                let mut key: usize = 0;
                while key < NUM_KEYS && !self.keys[key]
                    invariant
                        key <= NUM_KEYS,
                        *self == *old(self),
                        forall|other: int| 0 <= other < key ==> !self.keys@[other],
                    decreases NUM_KEYS - key,
                {
                    key = key + 1;
                }
                if key == NUM_KEYS {
                    return Outcome::AwaitingKey;
                }
                assert(is_lowest_pressed(self.keys@, key as int));
                self.registers[x] = key as u8;
            },
            0x15 => {
                self.delay_timer = vx;
            },
            0x18 => {
                self.sound_timer = vx;
            },
            0x1E => {
                self.index = self.index.wrapping_add(vx as usize);
                self.registers[FLAG] = if self.index > 0xFFF {
                    1
                } else {
                    0
                };
            },
            0x29 => {
                self.index = vx as usize * GLYPH_HEIGHT;
            },
            0x33 => {
                self.memory[self.index] = vx / 100;
                self.memory[self.index + 1] = (vx / 10) % 10;
                self.memory[self.index + 2] = vx % 10;
            },
            0x55 => {
                let mut i: usize = 0;
                while i <= x
                    invariant
                        i <= x + 1,
                        x < NUM_REGISTERS,
                        self.index + x < MEMORY_SIZE,
                        self@ == (Machine { memory: self@.memory, ..old(self)@ }),
                        forall|a: int|
                            0 <= a < MEMORY_SIZE ==> self.memory@[a] == if self.index <= a
                                < self.index + i {
                                self.registers@[a - self.index]
                            } else {
                                old(self).memory@[a]
                            },
                    decreases x + 1 - i,
                {
                    self.memory[self.index + i] = self.registers[i];
                    i = i + 1;
                }
            },
            0x65 => {
                let mut i: usize = 0;
                while i <= x
                    invariant
                        i <= x + 1,
                        x < NUM_REGISTERS,
                        self.index + x < MEMORY_SIZE,
                        self@ == (Machine { registers: self@.registers, ..old(self)@ }),
                        forall|r: int|
                            0 <= r < NUM_REGISTERS ==> self.registers@[r] == if r < i {
                                self.memory@[self.index + r]
                            } else {
                                old(self).registers@[r]
                            },
                    decreases x + 1 - i,
                {
                    self.registers[i] = self.memory[self.index + i];
                    i = i + 1;
                }
            },
            _ => {
                outcome = Outcome::UnknownMisc(op);
            },
        }
        self.increment_pc();
        assert(self@ =~= old(self)@.misc_operations(x as int, op));
        outcome
    }

    /// Both timers count down towards zero.
    fn update_timers(&mut self)
        ensures
            final(self)@ == old(self)@.update_timers(),
    {
        if self.delay_timer > 0 {
            self.delay_timer = self.delay_timer - 1;
        }
        if self.sound_timer > 0 {
            self.sound_timer = self.sound_timer - 1;
        }
    }
}

} // verus!
