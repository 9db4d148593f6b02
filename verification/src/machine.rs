use crate::opcode::Instruction;
use vstd::prelude::*;

verus! {

/// Number of addressable bytes.
pub const MEMORY_SIZE: usize = 4096;

/// Number of general-purpose registers; the last one is the flag register.
pub const NUM_REGISTERS: usize = 16;

/// Number of return addresses the call stack can hold.
pub const STACK_SIZE: usize = 16;

/// Number of keys on the keypad.
pub const NUM_KEYS: usize = 16;

/// Width of the screen in pixels.
pub const DISPLAY_WIDTH: usize = 64;

/// Height of the screen in pixels.
pub const DISPLAY_HEIGHT: usize = 32;

/// Number of pixels in the frame buffer, stored row by row.
pub const DISPLAY_SIZE: usize = 2048;

/// Address at which a program image is placed and starts running.
pub const PROGRAM_START: usize = 0x200;

/// Number of bytes in the built-in font: sixteen glyphs of five rows each.
pub const FONT_SIZE: usize = 80;

/// Number of rows in one glyph of the built-in font.
pub const GLYPH_HEIGHT: usize = 5;

/// Register that receives carry, borrow, shifted-out and collision flags.
pub const FLAG: usize = 0xF;

/// Colour of a lit pixel in a texture: opaque white, as red, green, blue
/// and alpha from the highest byte down.
pub const PIXEL_ON: u32 = 0xFFFFFFFF;

/// Colour of a dark pixel in a texture: opaque black.
pub const PIXEL_OFF: u32 = 0x000000FF;

/// A condition under which the machine cannot execute its next instruction.
#[derive(Clone, Copy, Debug, PartialEq, Eq, Structural)]
pub enum Fault {
    /// The program counter does not leave room for a two-byte instruction.
    ProgramCounterOutOfBounds,
    /// A return was reached with no return address on the stack.
    StackUnderflow,
    /// A call was reached with the stack full, or the stack pointer lies
    /// beyond the stack.
    StackOverflow,
    /// The instruction reads or writes memory through the index register
    /// past the end of memory.
    IndexOutOfBounds,
    /// The instruction asks for a key whose number is not on the keypad.
    KeyOutOfRange,
}

/// What one cycle did, for a front end that wants to report it.
#[derive(Clone, Copy, Debug, PartialEq, Eq, Structural)]
pub enum Outcome {
    /// A known instruction was carried out.
    Executed,
    /// The instruction waits for a key and none is pressed: it will be
    /// fetched again.
    AwaitingKey,
    /// The word matches no instruction; it was skipped.
    UnknownOpcode(u16),
    /// The word is in the arithmetic group with an unassigned operation
    /// nibble; it was skipped.
    UnknownAlu(u8),
    /// The word is in the timer-and-memory group with an unassigned
    /// operation byte; it was skipped.
    UnknownMisc(u8),
}

/// The sixteen built-in glyphs, five bytes each, for the digits 0 to F.
pub open spec fn font_set() -> Seq<u8> {
    seq![
        0xF0u8, 0x90u8, 0x90u8, 0x90u8, 0xF0u8,
        0x20u8, 0x60u8, 0x20u8, 0x20u8, 0x70u8,
        0xF0u8, 0x10u8, 0xF0u8, 0x80u8, 0xF0u8,
        0xF0u8, 0x10u8, 0xF0u8, 0x10u8, 0xF0u8,
        0x90u8, 0x90u8, 0xF0u8, 0x10u8, 0x10u8,
        0xF0u8, 0x80u8, 0xF0u8, 0x10u8, 0xF0u8,
        0xF0u8, 0x80u8, 0xF0u8, 0x90u8, 0xF0u8,
        0xF0u8, 0x10u8, 0x20u8, 0x40u8, 0x40u8,
        0xF0u8, 0x90u8, 0xF0u8, 0x90u8, 0xF0u8,
        0xF0u8, 0x90u8, 0xF0u8, 0x10u8, 0xF0u8,
        0xF0u8, 0x90u8, 0xF0u8, 0x90u8, 0x90u8,
        0xE0u8, 0x90u8, 0xE0u8, 0x90u8, 0xE0u8,
        0xF0u8, 0x80u8, 0x80u8, 0x80u8, 0xF0u8,
        0xE0u8, 0x90u8, 0x90u8, 0x90u8, 0xE0u8,
        0xF0u8, 0x80u8, 0xF0u8, 0x80u8, 0xF0u8,
        0xF0u8, 0x80u8, 0xF0u8, 0x80u8, 0x80u8,
    ]
}

/// Whether the pixel in column `col` of a sprite row is lit. A row is one
/// byte; column 0 is its most significant bit.
pub open spec fn sprite_bit(row: u8, col: u8) -> bool {
    row & (0x80u8 >> col) != 0
}

/// The column of a sprite that falls on screen position `p` when the
/// sprite's first column is drawn in screen column `left`. Positions are
/// counted row by row, and columns wrap round the edge of the screen.
pub open spec fn sprite_col(p: int, left: u8) -> int {
    (p % (DISPLAY_WIDTH as int) - left) % (DISPLAY_WIDTH as int)
}

/// The row of a sprite that falls on screen position `p` when the sprite's
/// first row is drawn in screen row `top`. Rows wrap round the edge of the
/// screen.
pub open spec fn sprite_row(p: int, top: u8) -> int {
    (p / (DISPLAY_WIDTH as int) - top) % (DISPLAY_HEIGHT as int)
}

/// The screen position on which row `row`, column `col` of a sprite falls
/// when its corner is drawn at column `left`, row `top`.
pub open spec fn pixel_position(left: u8, top: u8, row: int, col: int) -> int {
    ((top + row) % (DISPLAY_HEIGHT as int)) * DISPLAY_WIDTH + (left + col) % (
    DISPLAY_WIDTH as int)
}

/// Whether `key` is the lowest-numbered key that is held down.
pub open spec fn is_lowest_pressed(keys: Seq<bool>, key: int) -> bool {
    &&& 0 <= key < keys.len()
    &&& keys[key]
    &&& forall|other: int| 0 <= other < key ==> !keys[other]
}

/// Whether any key is held down.
pub open spec fn any_pressed(keys: Seq<bool>) -> bool {
    exists|key: int| 0 <= key < keys.len() && keys[key]
}

/// The lowest-numbered key that is held down, where there is one.
pub open spec fn lowest_pressed(keys: Seq<bool>) -> int {
    choose|key: int| is_lowest_pressed(keys, key)
}

/// The value that an address-sized register holds after `value` was added
/// into it: sums beyond the register's range start again from zero.
pub open spec fn wrapped_address(value: int) -> nat {
    if value > usize::MAX {
        (value - usize::MAX - 1) as nat
    } else {
        value as nat
    }
}

/// The whole state of the machine, as mathematical values.
#[verifier::ext_equal]
pub struct Machine {
    /// The bytes of memory, by address.
    pub memory: Seq<u8>,
    /// The general-purpose registers; register 0xF is the flag.
    pub registers: Seq<u8>,
    /// The frame buffer, row by row: 1 for a lit pixel, 0 for a dark one.
    pub display: Seq<u8>,
    /// The slots of the call stack.
    pub stack: Seq<u16>,
    /// Address of the next instruction.
    pub program_counter: nat,
    /// Number of return addresses on the stack.
    pub stack_pointer: nat,
    /// The index register.
    pub index: nat,
    /// For each key, whether it is held down.
    pub keys: Seq<bool>,
    /// Counts down to zero, one per cycle.
    pub delay_timer: u8,
    /// Counts down to zero, one per cycle; sound is due while it is not 0.
    pub sound_timer: u8,
}

impl Machine {
    /// What holds of every machine that was built by `Chip8::new` and then
    /// only driven through its operations: each part has its fixed size, the
    /// stack pointer stays within the stack, and every pixel is 0 or 1.
    pub open spec fn wf(self) -> bool {
        &&& self.memory.len() == MEMORY_SIZE
        &&& self.registers.len() == NUM_REGISTERS
        &&& self.display.len() == DISPLAY_SIZE
        &&& self.stack.len() == STACK_SIZE
        &&& self.keys.len() == NUM_KEYS
        &&& self.stack_pointer <= STACK_SIZE
        &&& forall|p: int| 0 <= p < DISPLAY_SIZE ==> #[trigger] self.display[p] <= 1
    }

    /// The machine as it is first built: the font at the bottom of memory,
    /// everything else zero.
    pub open spec fn initial() -> Machine {
        Machine {
            memory: Seq::new(
                MEMORY_SIZE as nat,
                |a: int|
                    if a < FONT_SIZE {
                        font_set()[a]
                    } else {
                        0u8
                    },
            ),
            registers: Seq::new(NUM_REGISTERS as nat, |r: int| 0u8),
            display: Seq::new(DISPLAY_SIZE as nat, |p: int| 0u8),
            stack: Seq::new(STACK_SIZE as nat, |s: int| 0u16),
            program_counter: 0,
            stack_pointer: 0,
            index: 0,
            keys: Seq::new(NUM_KEYS as nat, |k: int| false),
            delay_timer: 0,
            sound_timer: 0,
        }
    }

    /// The machine after `rom` was copied to the program area and the
    /// program counter was set to its first byte.
    pub open spec fn load_program(self, rom: Seq<u8>) -> Machine {
        Machine {
            memory: Seq::new(
                self.memory.len(),
                |a: int|
                    if PROGRAM_START <= a < PROGRAM_START + rom.len() {
                        rom[a - PROGRAM_START]
                    } else {
                        self.memory[a]
                    },
            ),
            program_counter: PROGRAM_START as nat,
            ..self
        }
    }

    /// The machine after key `key` was pressed or released.
    pub open spec fn set_key(self, key: int, pressed: bool) -> Machine {
        Machine { keys: self.keys.update(key, pressed), ..self }
    }

    /// The colour of each pixel of the frame buffer, row by row.
    pub open spec fn texture(self) -> Seq<u32> {
        Seq::new(
            self.display.len(),
            |p: int|
                if self.display[p] == 1 {
                    PIXEL_ON
                } else {
                    PIXEL_OFF
                },
        )
    }

    /// Whether a whole instruction lies at the program counter.
    pub open spec fn fetchable(self) -> bool {
        self.program_counter + 1 < MEMORY_SIZE
    }

    /// The instruction at the program counter.
    pub open spec fn instruction(self) -> Instruction {
        Instruction::decoded(
            self.memory[self.program_counter as int],
            self.memory[self.program_counter as int + 1],
        )
    }

    /// Moves on to the next instruction.
    pub open spec fn advance(self) -> Machine {
        Machine { program_counter: self.program_counter + 2, ..self }
    }

    /// Moves on to the next instruction, or past it when `condition` holds.
    pub open spec fn skip_when(self, condition: bool) -> Machine {
        if condition {
            Machine { program_counter: self.program_counter + 4, ..self }
        } else {
            self.advance()
        }
    }

    /// 00E0: every pixel goes dark.
    pub open spec fn clear_screen(self) -> Machine {
        Machine { display: Seq::new(DISPLAY_SIZE as nat, |p: int| 0u8), ..self }.advance()
    }

    /// 00EE: the newest return address leaves the stack and becomes the
    /// program counter.
    pub open spec fn return_from_subroutine(self) -> Machine {
        Machine {
            stack_pointer: (self.stack_pointer - 1) as nat,
            program_counter: self.stack[self.stack_pointer - 1] as nat,
            ..self
        }
    }

    /// 1nnn: execution continues at `addr`.
    pub open spec fn jump(self, addr: u16) -> Machine {
        Machine { program_counter: addr as nat, ..self }
    }

    /// 2nnn: the address of the instruction after the call goes onto the
    /// stack, and execution continues at `addr`.
    pub open spec fn call_subroutine(self, addr: u16) -> Machine {
        Machine {
            stack: self.stack.update(
                self.stack_pointer as int,
                (self.program_counter + 2) as u16,
            ),
            stack_pointer: self.stack_pointer + 1,
            program_counter: addr as nat,
            ..self
        }
    }

    /// 3xnn: skips the next instruction when register `x` holds `value`.
    pub open spec fn skip_if_equal(self, x: int, value: u8) -> Machine {
        self.skip_when(self.registers[x] == value)
    }

    /// 4xnn: skips the next instruction unless register `x` holds `value`.
    pub open spec fn skip_if_not_equal(self, x: int, value: u8) -> Machine {
        self.skip_when(self.registers[x] != value)
    }

    /// 5xy0: skips the next instruction when registers `x` and `y` agree.
    pub open spec fn skip_if_equal_reg(self, x: int, y: int) -> Machine {
        self.skip_when(self.registers[x] == self.registers[y])
    }

    /// 9xy0: skips the next instruction when registers `x` and `y` differ.
    pub open spec fn skip_if_not_equal_reg(self, x: int, y: int) -> Machine {
        self.skip_when(self.registers[x] != self.registers[y])
    }

    /// 6xnn: register `x` takes `value`.
    pub open spec fn set_register(self, x: int, value: u8) -> Machine {
        Machine { registers: self.registers.update(x, value), ..self }.advance()
    }

    /// 7xnn: `value` is added into register `x` modulo 256; the flag
    /// register is left alone.
    pub open spec fn add_to_register(self, x: int, value: u8) -> Machine {
        Machine {
            registers: self.registers.update(x, ((self.registers[x] + value) % 256) as u8),
            ..self
        }.advance()
    }

    /// The registers after the arithmetic instruction 8xy`op`.
    ///
    /// Sums and differences are taken modulo 256. A shift right halves
    /// register `x` and flags the bit that fell off at the low end; a shift
    /// left doubles it modulo 256 and flags the bit that fell off at the
    /// high end. Wherever a flag is set it is written last, so with `x` the
    /// flag register the flag is what remains.
    pub open spec fn alu_registers(self, x: int, y: int, op: u8) -> Seq<u8> {
        let vx = self.registers[x];
        let vy = self.registers[y];
        if op == 0x0 {
            self.registers.update(x, vy)
        } else if op == 0x1 {
            self.registers.update(x, vx | vy)
        } else if op == 0x2 {
            self.registers.update(x, vx & vy)
        } else if op == 0x3 {
            self.registers.update(x, vx ^ vy)
        } else if op == 0x4 {
            self.registers.update(x, ((vx + vy) % 256) as u8).update(
                FLAG as int,
                if vx + vy > 255 {
                    1u8
                } else {
                    0u8
                },
            )
        } else if op == 0x5 {
            self.registers.update(x, ((vx - vy) % 256) as u8).update(
                FLAG as int,
                if vx >= vy {
                    1u8
                } else {
                    0u8
                },
            )
        } else if op == 0x6 {
            self.registers.update(x, vx / 2).update(FLAG as int, vx % 2)
        } else if op == 0x7 {
            self.registers.update(x, ((vy - vx) % 256) as u8).update(
                FLAG as int,
                if vy >= vx {
                    1u8
                } else {
                    0u8
                },
            )
        } else if op == 0xE {
            self.registers.update(x, ((vx * 2) % 256) as u8).update(FLAG as int, vx / 128)
        } else {
            self.registers
        }
    }

    /// Whether the arithmetic group assigns an operation to `op`.
    pub open spec fn alu_known(op: u8) -> bool {
        op <= 0x7 || op == 0xE
    }

    /// 8xy0 to 8xyE: the arithmetic group. An unassigned `op` changes no
    /// register.
    pub open spec fn alu_operations(self, x: int, y: int, op: u8) -> Machine {
        Machine { registers: self.alu_registers(x, y, op), ..self }.advance()
    }

    /// Annn: the index register takes `value`.
    pub open spec fn set_index(self, value: u16) -> Machine {
        Machine { index: value as nat, ..self }.advance()
    }

    /// Bnnn: execution continues at `addr` plus register 0, reduced modulo
    /// the size of memory.
    pub open spec fn jump_with_offset(self, addr: u16) -> Machine {
        Machine {
            program_counter: ((addr + self.registers[0]) % (MEMORY_SIZE as int)) as nat,
            ..self
        }
    }

    /// Cxnn: register `x` takes the bits of `byte` that `mask` lets through.
    pub open spec fn random(self, x: int, mask: u8, byte: u8) -> Machine {
        Machine { registers: self.registers.update(x, byte & mask), ..self }.advance()
    }

    /// Whether drawing `height` rows from the index register stays inside
    /// memory.
    pub open spec fn sprite_in_memory(self, height: u8) -> bool {
        height == 0 || self.index + height <= MEMORY_SIZE
    }

    /// Whether the sprite of `height` rows at the index register, drawn
    /// with its top left corner at column `left` and row `top`, has a lit
    /// pixel on screen position `p`. The sprite wraps round both edges of
    /// the screen.
    pub open spec fn sprite_lights(self, left: u8, top: u8, height: u8, p: int) -> bool {
        &&& 0 <= p < DISPLAY_SIZE
        &&& sprite_col(p, left) < 8
        &&& sprite_row(p, top) < height
        &&& sprite_bit(self.memory[self.index + sprite_row(p, top)], sprite_col(p, left) as u8)
    }

    /// Whether drawing that sprite turns off a pixel that was lit.
    pub open spec fn sprite_collides(self, left: u8, top: u8, height: u8) -> bool {
        exists|p: int| #[trigger] self.sprite_lights(left, top, height, p) && self.display[p] == 1
    }

    /// The frame buffer after that sprite was drawn: each pixel it lights
    /// is flipped, every other pixel is kept.
    pub open spec fn sprite_drawn(self, left: u8, top: u8, height: u8) -> Seq<u8> {
        Seq::new(
            DISPLAY_SIZE as nat,
            |p: int|
                if self.sprite_lights(left, top, height, p) {
                    self.display[p] ^ 1
                } else {
                    self.display[p]
                },
        )
    }

    /// Dxyn: draws the sprite of `height` rows at the index register with
    /// its corner at the position that registers `x` and `y` hold. The flag
    /// register tells whether a lit pixel was turned off.
    pub open spec fn draw(self, x: int, y: int, height: u8) -> Machine {
        let left = self.registers[x];
        let top = self.registers[y];
        Machine {
            display: self.sprite_drawn(left, top, height),
            registers: self.registers.update(
                FLAG as int,
                if self.sprite_collides(left, top, height) {
                    1u8
                } else {
                    0u8
                },
            ),
            ..self
        }.advance()
    }

    /// Whether register `x` holds the number of a key.
    pub open spec fn names_key(self, x: int) -> bool {
        self.registers[x] < NUM_KEYS
    }

    /// Ex9E: skips the next instruction when the key that register `x`
    /// names is held down.
    pub open spec fn skip_if_key_pressed(self, x: int) -> Machine {
        self.skip_when(self.keys[self.registers[x] as int])
    }

    /// ExA1: skips the next instruction unless the key that register `x`
    /// names is held down.
    pub open spec fn skip_if_key_not_pressed(self, x: int) -> Machine {
        self.skip_when(!self.keys[self.registers[x] as int])
    }

    /// Whether the timer-and-memory group assigns an operation to `op`.
    pub open spec fn misc_known(op: u8) -> bool {
        op == 0x07 || op == 0x0A || op == 0x15 || op == 0x18 || op == 0x1E || op == 0x29 || op
            == 0x33 || op == 0x55 || op == 0x65
    }

    /// Whether the memory that Fx`op` touches through the index register
    /// lies inside memory.
    pub open spec fn misc_in_memory(self, x: int, op: u8) -> bool {
        &&& op == 0x33 ==> self.index + 2 < MEMORY_SIZE
        &&& op == 0x55 || op == 0x65 ==> self.index + x < MEMORY_SIZE
    }

    /// Fx0A with no key held down: nothing moves, so the instruction is
    /// fetched again.
    pub open spec fn awaits_key(self, op: u8) -> bool {
        op == 0x0A && !any_pressed(self.keys)
    }

    /// Fx07 to Fx65: the timer-and-memory group.
    ///
    /// - 07: register `x` takes the delay timer.
    /// - 0A: register `x` takes the number of the lowest key held down;
    ///   with none held down the machine stays as it is.
    /// - 15, 18: the delay timer, the sound timer takes register `x`.
    /// - 1E: register `x` is added into the index register, and the flag
    ///   tells whether the index now lies beyond memory.
    /// - 29: the index register takes the address of the glyph for the
    ///   digit in register `x`.
    /// - 33: the hundreds, tens and ones of register `x` go to memory at
    ///   the index register.
    /// - 55, 65: registers 0 to `x` go to, come from memory at the index
    ///   register.
    /// - An unassigned `op` changes nothing.
    pub open spec fn misc_operations(self, x: int, op: u8) -> Machine {
        let vx = self.registers[x];
        if op == 0x07 {
            Machine { registers: self.registers.update(x, self.delay_timer), ..self }.advance()
        } else if op == 0x0A {
            if any_pressed(self.keys) {
                Machine {
                    registers: self.registers.update(x, lowest_pressed(self.keys) as u8),
                    ..self
                }.advance()
            } else {
                self
            }
        } else if op == 0x15 {
            Machine { delay_timer: vx, ..self }.advance()
        } else if op == 0x18 {
            Machine { sound_timer: vx, ..self }.advance()
        } else if op == 0x1E {
            let index = wrapped_address(self.index + vx);
            Machine {
                index,
                registers: self.registers.update(
                    FLAG as int,
                    if index >= MEMORY_SIZE {
                        1u8
                    } else {
                        0u8
                    },
                ),
                ..self
            }.advance()
        } else if op == 0x29 {
            Machine { index: vx as nat * GLYPH_HEIGHT as nat, ..self }.advance()
        } else if op == 0x33 {
            Machine {
                memory: self.memory.update(self.index as int, vx / 100).update(
                    self.index as int + 1,
                    (vx / 10) % 10,
                ).update(self.index as int + 2, vx % 10),
                ..self
            }.advance()
        } else if op == 0x55 {
            Machine {
                memory: Seq::new(
                    self.memory.len(),
                    |a: int|
                        if self.index <= a <= self.index + x {
                            self.registers[a - self.index]
                        } else {
                            self.memory[a]
                        },
                ),
                ..self
            }.advance()
        } else if op == 0x65 {
            Machine {
                registers: Seq::new(
                    self.registers.len(),
                    |r: int|
                        if r <= x {
                            self.memory[self.index + r]
                        } else {
                            self.registers[r]
                        },
                ),
                ..self
            }.advance()
        } else {
            self.advance()
        }
    }

    /// Both timers count down by one, and stay at zero once there.
    pub open spec fn update_timers(self) -> Machine {
        Machine {
            delay_timer: if self.delay_timer > 0 {
                (self.delay_timer - 1) as u8
            } else {
                0u8
            },
            sound_timer: if self.sound_timer > 0 {
                (self.sound_timer - 1) as u8
            } else {
                0u8
            },
            ..self
        }
    }

    /// Why the machine cannot carry out the instruction `i`, if it cannot.
    pub open spec fn instruction_fault(self, i: Instruction) -> Option<Fault> {
        if i.family == 0x0 && i.nn == 0xEE && self.stack_pointer == 0 {
            Some(Fault::StackUnderflow)
        } else if i.family == 0x0 && i.nn == 0xEE && self.stack_pointer > STACK_SIZE {
            Some(Fault::StackOverflow)
        } else if i.family == 0x2 && self.stack_pointer >= STACK_SIZE {
            Some(Fault::StackOverflow)
        } else if i.family == 0xD && !self.sprite_in_memory(i.n) {
            Some(Fault::IndexOutOfBounds)
        } else if i.family == 0xE && (i.nn == 0x9E || i.nn == 0xA1) && !self.names_key(
            i.x as int,
        ) {
            Some(Fault::KeyOutOfRange)
        } else if i.family == 0xF && !self.misc_in_memory(i.x as int, i.nn) {
            Some(Fault::IndexOutOfBounds)
        } else {
            None
        }
    }

    /// Why the machine cannot run its next cycle, if it cannot.
    pub open spec fn fault(self) -> Option<Fault> {
        if !self.fetchable() {
            Some(Fault::ProgramCounterOutOfBounds)
        } else {
            self.instruction_fault(self.instruction())
        }
    }

    /// Whether the outcome of the instruction `i` depends on a random byte.
    pub open spec fn draws_random(i: Instruction) -> bool {
        i.family == 0xC
    }

    /// The machine after the instruction `i` was carried out, where
    /// `random` is the byte that a random instruction draws. A word that is
    /// no instruction only moves the program counter on.
    pub open spec fn execute(self, i: Instruction, random: u8) -> Machine {
        let x = i.x as int;
        let y = i.y as int;
        if i.family == 0x0 {
            if i.nn == 0xE0 {
                self.clear_screen()
            } else if i.nn == 0xEE {
                self.return_from_subroutine()
            } else {
                self.advance()
            }
        } else if i.family == 0x1 {
            self.jump(i.nnn)
        } else if i.family == 0x2 {
            self.call_subroutine(i.nnn)
        } else if i.family == 0x3 {
            self.skip_if_equal(x, i.nn)
        } else if i.family == 0x4 {
            self.skip_if_not_equal(x, i.nn)
        } else if i.family == 0x5 {
            self.skip_if_equal_reg(x, y)
        } else if i.family == 0x6 {
            self.set_register(x, i.nn)
        } else if i.family == 0x7 {
            self.add_to_register(x, i.nn)
        } else if i.family == 0x8 {
            self.alu_operations(x, y, i.n)
        } else if i.family == 0x9 {
            self.skip_if_not_equal_reg(x, y)
        } else if i.family == 0xA {
            self.set_index(i.nnn)
        } else if i.family == 0xB {
            self.jump_with_offset(i.nnn)
        } else if i.family == 0xC {
            self.random(x, i.nn, random)
        } else if i.family == 0xD {
            self.draw(x, y, i.n)
        } else if i.family == 0xE {
            if i.nn == 0x9E {
                self.skip_if_key_pressed(x)
            } else if i.nn == 0xA1 {
                self.skip_if_key_not_pressed(x)
            } else {
                self.advance()
            }
        } else if i.family == 0xF {
            self.misc_operations(x, i.nn)
        } else {
            self.advance()
        }
    }

    /// What the arithmetic instruction 8xy`op` reports.
    pub open spec fn alu_outcome(op: u8) -> Outcome {
        if Self::alu_known(op) {
            Outcome::Executed
        } else {
            Outcome::UnknownAlu(op)
        }
    }

    /// What the timer-and-memory instruction Fx`op` reports.
    pub open spec fn misc_outcome(self, op: u8) -> Outcome {
        if !Self::misc_known(op) {
            Outcome::UnknownMisc(op)
        } else if self.awaits_key(op) {
            Outcome::AwaitingKey
        } else {
            Outcome::Executed
        }
    }

    /// What carrying out the instruction `i` reports.
    pub open spec fn outcome_of(self, i: Instruction) -> Outcome {
        if i.family == 0x0 {
            if i.nn == 0xE0 || i.nn == 0xEE {
                Outcome::Executed
            } else {
                Outcome::UnknownOpcode(i.opcode)
            }
        } else if i.family == 0x8 {
            Self::alu_outcome(i.n)
        } else if i.family == 0xE {
            if i.nn == 0x9E || i.nn == 0xA1 {
                Outcome::Executed
            } else {
                Outcome::UnknownOpcode(i.opcode)
            }
        } else if i.family == 0xF {
            self.misc_outcome(i.nn)
        } else if i.family < 0xF {
            Outcome::Executed
        } else {
            Outcome::UnknownOpcode(i.opcode)
        }
    }

    /// The machine after one cycle: the instruction at the program counter
    /// is carried out, then the timers count down.
    pub open spec fn step(self, random: u8) -> Machine {
        self.execute(self.instruction(), random).update_timers()
    }

    /// The machine after one cycle for each byte of `randoms`, in order.
    pub open spec fn run(self, randoms: Seq<u8>) -> Machine
        decreases randoms.len(),
    {
        if randoms.len() == 0 {
            self
        } else {
            self.run(randoms.drop_last()).step(randoms.last())
        }
    }

    /// What that cycle reports.
    pub open spec fn outcome(self) -> Outcome {
        self.outcome_of(self.instruction())
    }
}

} // verus!
