use vstd::prelude::*;
use crate::machine::{blank_display, is_surface, Chip8, MachineState};

verus! {

/// True if pixel `col` of the 8-pixel row `byte` is on, the leftmost pixel
/// being the most significant bit.
pub open spec fn row_bit(byte: u8, col: int) -> bool {
    0 <= col < 8 && byte & (0x80u8 >> (col as u8)) != 0
}

/// True if the sprite `rows`, with its top left corner at `(ox, oy)`, has a
/// lit pixel at `(px, py)`.
pub open spec fn sprite_covers(rows: Seq<u8>, ox: int, oy: int, px: int, py: int) -> bool {
    &&& 0 <= py - oy < rows.len()
    &&& row_bit(rows[py - oy], px - ox)
}

/// The surface after the sprite is XORed onto it: exactly the pixels under
/// a lit sprite pixel flip. Sprite pixels that fall off the surface are
/// dropped.
pub open spec fn display_after_draw(display: Seq<Seq<bool>>, rows: Seq<u8>, ox: int, oy: int) -> Seq<
    Seq<bool>,
> {
    Seq::new(
        64,
        |px: int| Seq::new(32, |py: int| display[px][py] != sprite_covers(rows, ox, oy, px, py)),
    )
}

/// True if drawing the sprite turns off a pixel of the surface: some lit
/// sprite pixel lands on a lit pixel.
pub open spec fn draw_collides(display: Seq<Seq<bool>>, rows: Seq<u8>, ox: int, oy: int) -> bool {
    exists|px: int, py: int|
        0 <= px < 64 && 0 <= py < 32 && display[px][py] && #[trigger] sprite_covers(
            rows,
            ox,
            oy,
            px,
            py,
        )
}

/// True if drawing the sprite turns on a pixel of the surface: some lit
/// sprite pixel lands on a dark pixel.
pub open spec fn draw_lights(display: Seq<Seq<bool>>, rows: Seq<u8>, ox: int, oy: int) -> bool {
    exists|px: int, py: int|
        0 <= px < 64 && 0 <= py < 32 && !display[px][py] && #[trigger] sprite_covers(
            rows,
            ox,
            oy,
            px,
            py,
        )
}

/// Drawing is its own inverse: the same sprite drawn twice at the same
/// place gives the surface back, and the second drawing collides exactly
/// when the first one turned a pixel on.
pub proof fn lemma_draw_twice_restores_surface(
    display: Seq<Seq<bool>>,
    rows: Seq<u8>,
    ox: int,
    oy: int,
)
    requires
        is_surface(display),
    ensures
        is_surface(display_after_draw(display, rows, ox, oy)),
        display_after_draw(display_after_draw(display, rows, ox, oy), rows, ox, oy) == display,
        draw_collides(display_after_draw(display, rows, ox, oy), rows, ox, oy) == draw_lights(
            display,
            rows,
            ox,
            oy,
        ),
{
    let once = display_after_draw(display, rows, ox, oy);
    let twice = display_after_draw(once, rows, ox, oy);
    assert(twice =~~= display);
    if draw_collides(once, rows, ox, oy) {
        let (px, py) = choose|px: int, py: int|
            0 <= px < 64 && 0 <= py < 32 && once[px][py] && #[trigger] sprite_covers(
                rows,
                ox,
                oy,
                px,
                py,
            );
        assert(!display[px][py]);
    }
    if draw_lights(display, rows, ox, oy) {
        let (px, py) = choose|px: int, py: int|
            0 <= px < 64 && 0 <= py < 32 && !display[px][py] && #[trigger] sprite_covers(
                rows,
                ox,
                oy,
                px,
                py,
            );
        assert(once[px][py]);
    }
}

/// The draw instruction's effect on the machine is its own inverse but for
/// VF: executed twice with the same origin and height, it restores the
/// surface and changes nothing else, and VF then holds 1 exactly when the
/// first drawing turned a pixel on.
pub proof fn lemma_draw_twice_restores(s: MachineState, x: u8, y: u8, n: u8)
    requires
        s.wf(),
    ensures
        ({
            let once = state_after_draw(s, x, y, n);
            let twice = state_after_draw(once, x, y, n);
            &&& twice.display == s.display
            &&& twice.v == s.v.update(
                15,
                if draw_lights(s.display, sprite_rows(s, n), x as int % 64, y as int % 32) {
                    1u8
                } else {
                    0u8
                },
            )
            &&& twice == (MachineState { v: twice.v, ..s })
        }),
{
    let once = state_after_draw(s, x, y, n);
    let twice = state_after_draw(once, x, y, n);
    assert(sprite_rows(once, n) =~= sprite_rows(s, n));
    lemma_draw_twice_restores_surface(s.display, sprite_rows(s, n), x as int % 64, y as int % 32);
    assert(twice.v =~= s.v.update(15, twice.v[15]));
}

/// The `n` bytes that memory holds from the index register on: the rows of
/// the sprite that a draw reads.
pub open spec fn sprite_rows(s: MachineState, n: u8) -> Seq<u8> {
    Seq::new(n as nat, |k: int| s.memory[s.i + k])
}

/// The machine after a sprite of `n` rows, read from memory at the index
/// register, is drawn with its corner at `(x mod 64, y mod 32)`: the surface
/// is XORed and VF tells whether a pixel was turned off.
pub open spec fn state_after_draw(s: MachineState, x: u8, y: u8, n: u8) -> MachineState {
    let rows = sprite_rows(s, n);
    let ox = x as int % 64;
    let oy = y as int % 32;
    MachineState {
        display: display_after_draw(s.display, rows, ox, oy),
        v: s.v.update(
            15,
            if draw_collides(s.display, rows, ox, oy) {
                1u8
            } else {
                0u8
            },
        ),
        ..s
    }
}

/// The part of the sprite that is drawn before the loop reaches column `l`
/// of row `k`.
spec fn covers_before(rows: Seq<u8>, ox: int, oy: int, k: int, l: int, px: int, py: int) -> bool {
    sprite_covers(rows, ox, oy, px, py) && (py - oy < k || (py - oy == k && px - ox < l))
}

/// True if that part of the sprite has a lit pixel on a lit pixel of the
/// surface.
spec fn collides_before(display: Seq<Seq<bool>>, rows: Seq<u8>, ox: int, oy: int, k: int, l: int) -> bool {
    exists|px: int, py: int|
        0 <= px < 64 && 0 <= py < 32 && display[px][py] && #[trigger] covers_before(
            rows,
            ox,
            oy,
            k,
            l,
            px,
            py,
        )
}

impl Chip8 {
    /// Turns every pixel off.
    pub fn buf_clear_screen(&mut self)
        ensures
            final(self)@ == (MachineState { display: blank_display(), ..old(self)@ }),
    {
        let mut x: usize = 0;
        while x < 64
            invariant
                x <= 64,
                forall|px: int, py: int|
                    0 <= px < x && 0 <= py < 32 ==> !(#[trigger] self.display_buf@[px]@[py]),
                self@ == (MachineState { display: self@.display, ..old(self)@ }),
            decreases 64 - x,
        {
            let mut y: usize = 0;
            while y < 32
                invariant
                    x < 64,
                    y <= 32,
                    forall|px: int, py: int|
                        0 <= px < x && 0 <= py < 32 ==> !(#[trigger] self.display_buf@[px]@[py]),
                    forall|py: int| 0 <= py < y ==> !(#[trigger] self.display_buf@[x as int]@[py]),
                    self@ == (MachineState { display: self@.display, ..old(self)@ }),
                decreases 32 - y,
            {
                self.display_buf[x][y] = false;
                y += 1;
            }
            x += 1;
        }
        assert(self@.display =~~= blank_display());
    }

    /// Draws the sprite of `n` rows that memory holds at the index register,
    /// with its top left corner at `(x mod 64, y mod 32)`, by XOR. Sets VF
    /// to 1 if that turns a pixel off, to 0 otherwise.
    pub fn buf_draw_sprite(&mut self, x: u8, y: u8, n: u8)
        requires
            n > 0 ==> old(self).i + n <= 4096,
        ensures
            final(self)@ == state_after_draw(old(self)@, x, y, n),
    {
        self.v[0xF] = 0;
        let x: usize = x as usize % 64;
        let y: usize = y as usize % 32;
        let ghost before = old(self)@.display;
        let ghost rows = sprite_rows(old(self)@, n);
        let ghost ox = x as int;
        let ghost oy = y as int;
        let mut k: usize = 0;
        while k < n as usize && y + k < 32
            invariant
                k <= n,
                x < 64,
                y < 32,
                ox == x,
                oy == y,
                n > 0 ==> self.i + n <= 4096,
                before == old(self)@.display,
                rows == sprite_rows(old(self)@, n),
                forall|px: int, py: int|
                    0 <= px < 64 && 0 <= py < 32 ==> #[trigger] self.display_buf@[px]@[py] == (
                    before[px][py] != covers_before(rows, ox, oy, k as int, 0, px, py)),
                self.v@[15] == (if collides_before(before, rows, ox, oy, k as int, 0) {
                    1u8
                } else {
                    0u8
                }),
                self.v@ =~= old(self)@.v.update(15, self.v@[15]),
                self@ == (MachineState { display: self@.display, v: self@.v, ..old(self)@ }),
            decreases n - k,
        {
            let row: u8 = self.memory[self.i as usize + k];
            assert(row == rows[k as int]);
            let mut mask: u8 = 1 << 7;
            assert(mask == 0x80u8 >> 0u8) by (bit_vector)
                requires
                    mask == 1u8 << 7,
            ;
            let mut l: usize = 0;
            while l < 8 && x + l < 64
                invariant
                    k < n,
                    x < 64,
                    y + k < 32,
                    l <= 8,
                    ox == x,
                    oy == y,
                    l < 8 ==> mask == 0x80u8 >> (l as u8),
                    row == rows[k as int],
                    rows.len() == n,
                    before == old(self)@.display,
                    forall|px: int, py: int|
                        0 <= px < 64 && 0 <= py < 32 ==> #[trigger] self.display_buf@[px]@[py] == (
                        before[px][py] != covers_before(rows, ox, oy, k as int, l as int, px, py)),
                    self.v@[15] == (if collides_before(before, rows, ox, oy, k as int, l as int) {
                        1u8
                    } else {
                        0u8
                    }),
                    self.v@ =~= old(self)@.v.update(15, self.v@[15]),
                    self@ == (MachineState { display: self@.display, v: self@.v, ..old(self)@ }),
                decreases 8 - l,
            {
                let ghost hit = collides_before(before, rows, ox, oy, k as int, l as int);
                let ghost lit = row_bit(row, l as int);
                assert((row & mask == mask) == lit) by (bit_vector)
                    requires
                        l < 8,
                        mask == 0x80u8 >> (l as u8),
                        lit == (row & (0x80u8 >> (l as u8)) != 0),
                ;
                assert(!covers_before(rows, ox, oy, k as int, l as int, ox + l, oy + k));
                assert(covers_before(rows, ox, oy, k as int, l + 1, ox + l, oy + k) == lit);
                if row & mask == mask {
                    if self.display_buf[x + l][y + k] == true {
                        self.v[0xF] = 1;
                        self.display_buf[x + l][y + k] = false;
                    } else {
                        self.display_buf[x + l][y + k] = true;
                    }
                }
                assert(collides_before(before, rows, ox, oy, k as int, l + 1) == (hit || (lit
                    && before[ox + l][oy + k]))) by {
                    if collides_before(before, rows, ox, oy, k as int, l + 1) {
                        let (px, py) = choose|px: int, py: int|
                            0 <= px < 64 && 0 <= py < 32 && before[px][py]
                                && #[trigger] covers_before(rows, ox, oy, k as int, l + 1, px, py);
                        if !(px == ox + l && py == oy + k) {
                            assert(covers_before(rows, ox, oy, k as int, l as int, px, py));
                        }
                    }
                    if hit {
                        let (px, py) = choose|px: int, py: int|
                            0 <= px < 64 && 0 <= py < 32 && before[px][py]
                                && #[trigger] covers_before(rows, ox, oy, k as int, l as int, px, py);
                        assert(covers_before(rows, ox, oy, k as int, l + 1, px, py));
                    }
                }
                let ghost next_mask = mask;
                mask >>= 1;
                assert(l + 1 < 8 ==> mask == 0x80u8 >> ((l + 1) as u8)) by (bit_vector)
                    requires
                        l < 8,
                        next_mask == 0x80u8 >> (l as u8),
                        mask == next_mask >> 1,
                ;
                l += 1;
            }
            assert forall|px: int, py: int| 0 <= px < 64 && 0 <= py < 32 implies covers_before(
                rows,
                ox,
                oy,
                k as int,
                l as int,
                px,
                py,
            ) == covers_before(rows, ox, oy, k + 1, 0, px, py) by {}
            assert(collides_before(before, rows, ox, oy, k as int, l as int) == collides_before(
                before,
                rows,
                ox,
                oy,
                k + 1,
                0,
            )) by {
                if collides_before(before, rows, ox, oy, k as int, l as int) {
                    let (px, py) = choose|px: int, py: int|
                        0 <= px < 64 && 0 <= py < 32 && before[px][py]
                            && #[trigger] covers_before(rows, ox, oy, k as int, l as int, px, py);
                    assert(covers_before(rows, ox, oy, k + 1, 0, px, py));
                }
                if collides_before(before, rows, ox, oy, k + 1, 0) {
                    let (px, py) = choose|px: int, py: int|
                        0 <= px < 64 && 0 <= py < 32 && before[px][py]
                            && #[trigger] covers_before(rows, ox, oy, k + 1, 0, px, py);
                    assert(covers_before(rows, ox, oy, k as int, l as int, px, py));
                }
            }
            k += 1;
        }
        proof {
            assert forall|px: int, py: int| 0 <= px < 64 && 0 <= py < 32 implies covers_before(
                rows,
                ox,
                oy,
                k as int,
                0,
                px,
                py,
            ) == sprite_covers(rows, ox, oy, px, py) by {}
            assert(collides_before(before, rows, ox, oy, k as int, 0) == draw_collides(
                before,
                rows,
                ox,
                oy,
            )) by {
                if collides_before(before, rows, ox, oy, k as int, 0) {
                    let (px, py) = choose|px: int, py: int|
                        0 <= px < 64 && 0 <= py < 32 && before[px][py]
                            && #[trigger] covers_before(rows, ox, oy, k as int, 0, px, py);
                    assert(sprite_covers(rows, ox, oy, px, py));
                }
                if draw_collides(before, rows, ox, oy) {
                    let (px, py) = choose|px: int, py: int|
                        0 <= px < 64 && 0 <= py < 32 && before[px][py] && #[trigger] sprite_covers(
                            rows,
                            ox,
                            oy,
                            px,
                            py,
                        );
                    assert(covers_before(rows, ox, oy, k as int, 0, px, py));
                }
            }
            assert(self@.display =~~= display_after_draw(before, rows, ox, oy));
        }
    }
}

/// A position on the terminal, or the size of a rectangle on it.
#[derive(Copy, Clone, Debug, PartialEq, Eq, Structural)]
pub struct Vec2 {
    pub x: i32,
    pub y: i32,
}

/// One cell of the terminal to paint: where, and whether it is lit.
#[derive(Copy, Clone, Debug, PartialEq, Eq, Structural)]
pub struct Pixel {
    pub pos: Vec2,
    pub lit: bool,
}

/// Where the pixel surface lies on the terminal.
pub struct Display {
    /// The terminal position of the surface's top left pixel.
    pub top_left: Vec2,
}

/// Half of `a`, rounded toward zero.
pub open spec fn half(a: int) -> int {
    if a >= 0 {
        a / 2
    } else {
        -((-a) / 2)
    }
}

/// The position of the frame around the surface, on a terminal of size
/// `dim`: the frame is centred.
pub open spec fn frame_origin(dim: Vec2) -> Vec2 {
    Vec2 { x: (half(dim.x as int) - 33) as i32, y: (half(dim.y as int) - 17) as i32 }
}

/// The terminal position of the surface pixel `(x, y)` when the surface's
/// corner is at `top_left`.
pub open spec fn placed(top_left: Vec2, x: int, y: int) -> Vec2 {
    Vec2 { x: (top_left.x + x) as i32, y: (top_left.y + y) as i32 }
}

impl Display {
    /// The frame to draw around the surface on a terminal of size `dim`:
    /// its top left corner and its size, one cell wider than the surface on
    /// every side.
    pub fn frame(dim: Vec2) -> (rect: (Vec2, Vec2))
        ensures
            rect.0 == frame_origin(dim),
            rect.1 == (Vec2 { x: 66, y: 34 }),
    {
        let top_left = Vec2 { x: (dim.x / 2) - 33, y: (dim.y / 2) - 17 };
        let size = Vec2 { x: 66, y: 34 };
        (top_left, size)
    }

    /// Places the surface on a terminal of size `dim`, just inside its
    /// frame.
    pub fn new(dim: Vec2) -> (display: Display)
        ensures
            display.top_left == placed(frame_origin(dim), 1, 1),
    {
        let (top_left, _) = Display::frame(dim);
        Display { top_left: Vec2 { x: top_left.x + 1, y: top_left.y + 1 } }
    }

    /// The terminal position of the surface point `vec2`.
    pub fn draw_point(&self, vec2: Vec2) -> (coords: Vec2)
        requires
            i32::MIN <= self.top_left.x + vec2.x <= i32::MAX,
            i32::MIN <= self.top_left.y + vec2.y <= i32::MAX,
        ensures
            coords == placed(self.top_left, vec2.x as int, vec2.y as int),
    {
        Vec2 { x: self.top_left.x + vec2.x, y: self.top_left.y + vec2.y }
    }

    /// The cells to paint for the surface `buf`: one for every pixel,
    /// column by column, each at its terminal position and lit as its
    /// pixel is.
    pub fn update(&self, buf: &[[bool; 32]; 64]) -> (cells: Vec<Pixel>)
        requires
            self.top_left.x + 63 <= i32::MAX,
            self.top_left.y + 31 <= i32::MAX,
        ensures
            cells@.len() == 64 * 32,
            forall|x: int, y: int|
                0 <= x < 64 && 0 <= y < 32 ==> #[trigger] cells@[x * 32 + y] == (Pixel {
                    pos: placed(self.top_left, x, y),
                    lit: buf@[x]@[y],
                }),
    {
        let mut cells: Vec<Pixel> = Vec::with_capacity(64 * 32);
        let mut x: usize = 0;
        while x < 64
            invariant
                x <= 64,
                self.top_left.x + 63 <= i32::MAX,
                self.top_left.y + 31 <= i32::MAX,
                cells@.len() == x * 32,
                forall|px: int, py: int|
                    0 <= px < x && 0 <= py < 32 ==> #[trigger] cells@[px * 32 + py] == (Pixel {
                        pos: placed(self.top_left, px, py),
                        lit: buf@[px]@[py],
                    }),
            decreases 64 - x,
        {
            let mut y: usize = 0;
            while y < 32
                invariant
                    x < 64,
                    y <= 32,
                    self.top_left.x + 63 <= i32::MAX,
                    self.top_left.y + 31 <= i32::MAX,
                    cells@.len() == x * 32 + y,
                    forall|px: int, py: int|
                        0 <= px < x && 0 <= py < 32 ==> #[trigger] cells@[px * 32 + py] == (Pixel {
                            pos: placed(self.top_left, px, py),
                            lit: buf@[px]@[py],
                        }),
                    forall|py: int|
                        0 <= py < y ==> #[trigger] cells@[x * 32 + py] == (Pixel {
                            pos: placed(self.top_left, x as int, py),
                            lit: buf@[x as int]@[py],
                        }),
                decreases 32 - y,
            {
                let pos = self.draw_point(Vec2 { x: x as i32, y: y as i32 });
                cells.push(Pixel { pos, lit: buf[x][y] });
                y += 1;
            }
            x += 1;
        }
        cells
    }
}

} // verus!
