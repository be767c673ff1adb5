use vstd::prelude::*;

verus! {

/// Number of bytes of addressable memory.
pub const MEMORY_SIZE: usize = 4096;

/// Width of the pixel surface, in pixels.
pub const DISPLAY_WIDTH: usize = 64;

/// Height of the pixel surface, in pixels.
pub const DISPLAY_HEIGHT: usize = 32;

/// Address of the first byte of a loaded program.
pub const PROGRAM_START: u16 = 0x200;

/// Address of the first byte of the built-in glyph table.
pub const FONT_START: u16 = 0x50;

/// The complete state of the virtual machine.
pub struct Chip8 {
    /// 4KB of memory, writable by the program.
    pub memory: [u8; 4096],
    /// Pixel surface, indexed by column, then row.
    pub display_buf: [[bool; 32]; 64],
    /// Program counter: address of the next instruction.
    pub pc: u16,
    /// Index register: points at locations in memory.
    pub i: u16,
    /// Return addresses of the subroutines being run.
    pub stack: Vec<u16>,
    /// Counts down at 60Hz.
    pub delay_timer: u32,
    /// Counts down at 60Hz; the machine beeps when it reaches zero.
    pub sound_timer: u32,
    /// The registers V0 to VF. VF doubles as the flag register.
    pub v: [u8; 16],
    /// Address of the glyph table in memory.
    pub font_location: u16,
    /// True if the pixel surface changed since the host last repainted.
    pub draw_flag: bool,
    /// Free for the host's timer bookkeeping; no instruction reads or
    /// writes it.
    pub timers_dec_flag: bool,
}

/// The machine as a mathematical value: what the contracts speak of.
pub struct MachineState {
    /// The 4096 bytes of memory.
    pub memory: Seq<u8>,
    /// The pixel surface: 64 columns of 32 pixels each.
    pub display: Seq<Seq<bool>>,
    pub pc: u16,
    pub i: u16,
    /// The return addresses, the most recent call last.
    pub stack: Seq<u16>,
    pub delay_timer: u32,
    pub sound_timer: u32,
    /// The 16 registers.
    pub v: Seq<u8>,
    pub font_location: u16,
    pub draw_flag: bool,
    pub timers_dec_flag: bool,
}

impl MachineState {
    /// True if memory, the registers and the pixel surface have their fixed
    /// sizes.
    pub open spec fn wf(self) -> bool {
        &&& self.memory.len() == 4096
        &&& self.v.len() == 16
        &&& is_surface(self.display)
    }
}

/// True if `display` has 64 columns of 32 pixels.
pub open spec fn is_surface(display: Seq<Seq<bool>>) -> bool {
    &&& display.len() == 64
    &&& forall|x: int| 0 <= x < 64 ==> (#[trigger] display[x]).len() == 32
}

/// Why a program could not be loaded.
#[derive(Copy, Clone, Debug, PartialEq, Eq, Structural)]
pub enum LoadError {
    /// The program, of the length given here, does not fit between the
    /// start of the program area and the end of memory.
    TooLarge(usize),
}

/// The pixel surface of a frame buffer: column `x`, then row `y`.
pub open spec fn surface(buf: [[bool; 32]; 64]) -> Seq<Seq<bool>> {
    Seq::new(64, |x: int| buf@[x]@)
}

impl View for Chip8 {
    type V = MachineState;

    open spec fn view(&self) -> MachineState {
        MachineState {
            memory: self.memory@,
            display: surface(self.display_buf),
            pc: self.pc,
            i: self.i,
            stack: self.stack@,
            delay_timer: self.delay_timer,
            sound_timer: self.sound_timer,
            v: self.v@,
            font_location: self.font_location,
            draw_flag: self.draw_flag,
            timers_dec_flag: self.timers_dec_flag,
        }
    }
}

/// A pixel surface with every pixel off.
pub open spec fn blank_display() -> Seq<Seq<bool>> {
    Seq::new(64, |x: int| Seq::new(32, |y: int| false))
}

/// The built-in glyphs for the hexadecimal digits 0 to F, five bytes each;
/// every byte is one row of pixels, held in its high four bits.
pub open spec fn font_table() -> Seq<u8> {
    seq![
        0xF0u8, 0x90, 0x90, 0x90, 0xF0,
        0x20, 0x60, 0x20, 0x20, 0x70,
        0xF0, 0x10, 0xF0, 0x80, 0xF0,
        0xF0, 0x10, 0xF0, 0x10, 0xF0,
        0x90, 0x90, 0xF0, 0x10, 0x10,
        0xF0, 0x80, 0xF0, 0x10, 0xF0,
        0xF0, 0x80, 0xF0, 0x90, 0xF0,
        0xF0, 0x10, 0x20, 0x40, 0x40,
        0xF0, 0x90, 0xF0, 0x90, 0xF0,
        0xF0, 0x90, 0xF0, 0x10, 0xF0,
        0xF0, 0x90, 0xF0, 0x90, 0x90,
        0xE0, 0x90, 0xE0, 0x90, 0xE0,
        0xF0, 0x80, 0x80, 0x80, 0xF0,
        0xE0, 0x90, 0x90, 0x90, 0xE0,
        0xF0, 0x80, 0xF0, 0x80, 0xF0,
        0xF0, 0x80, 0xF0, 0x80, 0x80,
    ]
}

/// `memory` with `bytes` written over the addresses that start at `at`.
pub open spec fn memory_with(memory: Seq<u8>, at: int, bytes: Seq<u8>) -> Seq<u8> {
    Seq::new(
        memory.len(),
        |a: int|
            if at <= a < at + bytes.len() {
                bytes[a - at]
            } else {
                memory[a]
            },
    )
}

/// The machine at power-on: everything zero but the glyph table in memory,
/// and the program counter at the start of the program area.
pub open spec fn initial_state() -> MachineState {
    MachineState {
        memory: memory_with(Seq::new(4096, |a: int| 0u8), FONT_START as int, font_table()),
        display: blank_display(),
        pc: PROGRAM_START,
        i: 0,
        stack: Seq::empty(),
        delay_timer: 0,
        sound_timer: 0,
        v: Seq::new(16, |r: int| 0u8),
        font_location: FONT_START,
        draw_flag: false,
        timers_dec_flag: false,
    }
}

impl Chip8 {
    /// Creates the machine in its power-on state.
    pub fn init() -> (chip8: Chip8)
        ensures
            chip8@ == initial_state(),
    {
        let mut chip8 = Chip8 {
            memory: [0;4096],
            display_buf: [[false;32];64],
            pc: PROGRAM_START,
            i: 0,
            stack: Vec::with_capacity(32),
            delay_timer: 0,
            sound_timer: 0,
            v: [0;16],
            font_location: FONT_START,
            draw_flag: false,
            timers_dec_flag: false,
        };
        chip8.init_font();
        assert(chip8@.memory =~= initial_state().memory);
        assert(chip8@.display =~~= initial_state().display);
        assert(chip8@.v =~= initial_state().v);
        assert(chip8@.stack =~= initial_state().stack);
        chip8
    }

    /// Writes the glyph table into its place in memory.
    pub fn init_font(&mut self)
        ensures
            final(self)@ == (MachineState {
                memory: memory_with(old(self)@.memory, FONT_START as int, font_table()),
                ..old(self)@
            }),
    {
        let font: [u8; 80] = [
            0xF0, 0x90, 0x90, 0x90, 0xF0,
            0x20, 0x60, 0x20, 0x20, 0x70,
            0xF0, 0x10, 0xF0, 0x80, 0xF0,
            0xF0, 0x10, 0xF0, 0x10, 0xF0,
            0x90, 0x90, 0xF0, 0x10, 0x10,
            0xF0, 0x80, 0xF0, 0x10, 0xF0,
            0xF0, 0x80, 0xF0, 0x90, 0xF0,
            0xF0, 0x10, 0x20, 0x40, 0x40,
            0xF0, 0x90, 0xF0, 0x90, 0xF0,
            0xF0, 0x90, 0xF0, 0x10, 0xF0,
            0xF0, 0x90, 0xF0, 0x90, 0x90,
            0xE0, 0x90, 0xE0, 0x90, 0xE0,
            0xF0, 0x80, 0x80, 0x80, 0xF0,
            0xE0, 0x90, 0x90, 0x90, 0xE0,
            0xF0, 0x80, 0xF0, 0x80, 0xF0,
            0xF0, 0x80, 0xF0, 0x80, 0x80,
        ];
        assert(font@ =~= font_table());
        self.write_memory(FONT_START as usize, font.as_slice());
    }

    /// Copies `bytes` into memory from address `at` on.
    fn write_memory(&mut self, at: usize, bytes: &[u8])
        requires
            at + bytes@.len() <= 4096,
        ensures
            final(self)@ == (MachineState {
                memory: memory_with(old(self)@.memory, at as int, bytes@),
                ..old(self)@
            }),
    {
        let mut k: usize = 0;
        assert(self@.memory =~= memory_with(self@.memory, at as int, bytes@.take(0)));
        while k < bytes.len()
            invariant
                at + bytes@.len() <= 4096,
                k <= bytes@.len(),
                self@ == (MachineState {
                    memory: memory_with(old(self)@.memory, at as int, bytes@.take(k as int)),
                    ..old(self)@
                }),
            decreases bytes@.len() - k,
        {
            self.memory[at + k] = bytes[k];
            k += 1;
            assert(self@.memory =~= memory_with(
                old(self)@.memory,
                at as int,
                bytes@.take(k as int),
            ));
        }
        assert(bytes@.take(k as int) =~= bytes@);
    }

    /// The hook that runs when the sound timer runs out. It makes no sound.
    pub fn beep_sound(&self) {
    }

    /// The model of a machine always has the fixed sizes.
    pub proof fn lemma_view_wf(&self)
        ensures
            self@.wf(),
    {
    }

    /// Copies a program into memory from the start of the program area on.
    /// A program that does not fit is refused and nothing is written.
    pub fn load_data(&mut self, data: &[u8]) -> (res: Result<(), LoadError>)
        ensures
            data@.len() > 4096 - PROGRAM_START ==> res == Err::<(), LoadError>(
                LoadError::TooLarge(data@.len() as usize),
            ) && *final(self) == *old(self),
            data@.len() <= 4096 - PROGRAM_START ==> res == Ok::<(), LoadError>(())
                && final(self)@ == (MachineState {
                memory: memory_with(old(self)@.memory, PROGRAM_START as int, data@),
                ..old(self)@
            }),
    {
        if data.len() > 4096 - PROGRAM_START as usize {
            return Err(LoadError::TooLarge(data.len()));
        }
        self.write_memory(PROGRAM_START as usize, data);
        Ok(())
    }

    /// Counts both timers down by one, unless they are at zero already.
    /// Returns true when the sound timer reaches zero by this tick: the
    /// moment of the beep.
    pub fn tick_timers(&mut self) -> (beep: bool)
        ensures
            final(self)@ == timers_ticked(old(self)@),
            beep == (old(self).sound_timer == 1),
    {
        let mut beep: bool = false;
        if self.delay_timer > 0 {
            self.delay_timer -= 1;
        }
        if self.sound_timer > 0 {
            self.sound_timer -= 1;
            if self.sound_timer == 0 {
                self.beep_sound();
                beep = true;
            }
        }
        beep
    }
}

/// One less, but never below zero.
pub open spec fn counted_down(timer: u32) -> u32 {
    if timer > 0 {
        (timer - 1) as u32
    } else {
        0
    }
}

/// The machine after one tick of the timers.
pub open spec fn timers_ticked(s: MachineState) -> MachineState {
    MachineState {
        delay_timer: counted_down(s.delay_timer),
        sound_timer: counted_down(s.sound_timer),
        ..s
    }
}

} // verus!
