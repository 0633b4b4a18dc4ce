//! The 64x32 monochrome frame buffer and XOR sprite drawing.

use vstd::prelude::*;

verus! {

/// Width of the screen in pixels.
pub const SCREEN_WIDTH: usize = 64;

/// Height of the screen in pixels.
pub const SCREEN_HEIGHT: usize = 32;

/// What a draw did to one pixel.
#[derive(Debug, Clone, Copy, PartialEq, Eq)]
pub enum PixelState {
    /// The pixel was unlit and is now lit.
    Drawn,
    /// The pixel was lit and is now unlit.
    Erased,
}

/// One changed pixel, reported to the renderer.
#[derive(Debug, Clone, Copy, PartialEq, Eq)]
pub struct DrawMessage {
    /// Column (`0..64`) and row (`0..32`) of the pixel.
    pub pos: (u8, u8),
    /// What happened to it.
    pub state: PixelState,
}

/// Whether bit `k` of a sprite is set. Bits are numbered row by row, each
/// row from its most significant bit.
pub open spec fn sprite_bit(bytes: Seq<u8>, k: int) -> bool {
    bytes[k / 8] & (0x80u8 >> ((k % 8) as u8)) != 0
}

/// Column on which bit `k` of a sprite drawn from column `x` lands.
pub open spec fn target_x(x: u8, k: int) -> int {
    (x % 64 + k % 8) % 64
}

/// Row on which bit `k` of a sprite drawn from row `y` lands.
pub open spec fn target_y(y: u8, k: int) -> int {
    (y % 32 + k / 8) % 32
}

/// Position in the frame buffer of column `x`, row `y`.
pub open spec fn pixel_index(x: int, y: int) -> int {
    y * 64 + x
}

/// Position in the frame buffer on which bit `k` of a sprite lands.
pub open spec fn target(x: u8, y: u8, k: int) -> int {
    pixel_index(target_x(x, k), target_y(y, k))
}

/// The frame buffer after the first `k` bits of a sprite have been drawn
/// from `(x, y)`: every set bit toggles the pixel it lands on.
pub open spec fn paint(screen: Seq<bool>, x: u8, y: u8, bytes: Seq<u8>, k: nat) -> Seq<bool>
    decreases k,
{
    if k == 0 {
        screen
    } else {
        let before = paint(screen, x, y, bytes, (k - 1) as nat);
        let t = target(x, y, k - 1);
        if sprite_bit(bytes, k - 1) {
            before.update(t, !before[t])
        } else {
            before
        }
    }
}

/// The change reports for the first `k` bits of a sprite drawn from
/// `(x, y)`: one per set bit, in drawing order.
pub open spec fn messages(screen: Seq<bool>, x: u8, y: u8, bytes: Seq<u8>, k: nat) -> Seq<
    DrawMessage,
>
    decreases k,
{
    if k == 0 {
        Seq::empty()
    } else {
        let earlier = messages(screen, x, y, bytes, (k - 1) as nat);
        let before = paint(screen, x, y, bytes, (k - 1) as nat);
        let t = target(x, y, k - 1);
        if sprite_bit(bytes, k - 1) {
            earlier.push(
                DrawMessage {
                    pos: (target_x(x, k - 1) as u8, target_y(y, k - 1) as u8),
                    state: if before[t] {
                        PixelState::Erased
                    } else {
                        PixelState::Drawn
                    },
                },
            )
        } else {
            earlier
        }
    }
}

/// Whether any of the reports is an erasure.
pub open spec fn any_erased(msgs: Seq<DrawMessage>) -> bool {
    exists|j: int| 0 <= j < msgs.len() && (#[trigger] msgs[j]).state == PixelState::Erased
}

/// Whether an odd number of the first `k` bits of a sprite drawn from
/// `(x, y)` are set and land on position `p` of the frame buffer.
pub open spec fn flips(x: u8, y: u8, bytes: Seq<u8>, k: nat, p: int) -> bool
    decreases k,
{
    if k == 0 {
        false
    } else {
        flips(x, y, bytes, (k - 1) as nat, p) != (sprite_bit(bytes, k - 1) && target(x, y, k - 1)
            == p)
    }
}

/// Drawing keeps the size of the frame buffer, and a pixel ends up changed
/// exactly when an odd number of set bits landed on it.
pub proof fn lemma_paint_pixel(screen: Seq<bool>, x: u8, y: u8, bytes: Seq<u8>, k: nat, p: int)
    requires
        screen.len() == 2048,
        0 <= p < 2048,
    ensures
        paint(screen, x, y, bytes, k).len() == 2048,
        paint(screen, x, y, bytes, k)[p] == (screen[p] != flips(x, y, bytes, k, p)),
    decreases k,
{
    if k > 0 {
        lemma_paint_pixel(screen, x, y, bytes, (k - 1) as nat, p);
        assert(0 <= target(x, y, k - 1) < 2048);
    }
}

/// Drawing the same sprite twice at the same place leaves the screen as it
/// was.
pub proof fn lemma_draw_twice_restores(screen: Seq<bool>, x: u8, y: u8, bytes: Seq<u8>, k: nat)
    requires
        screen.len() == 2048,
    ensures
        paint(paint(screen, x, y, bytes, k), x, y, bytes, k) == screen,
{
    let once = paint(screen, x, y, bytes, k);
    let twice = paint(once, x, y, bytes, k);
    lemma_paint_pixel(screen, x, y, bytes, k, 0);
    lemma_paint_pixel(once, x, y, bytes, k, 0);
    assert forall|p: int| 0 <= p < 2048 implies twice[p] == screen[p] by {
        lemma_paint_pixel(screen, x, y, bytes, k, p);
        lemma_paint_pixel(once, x, y, bytes, k, p);
    }
    assert(twice =~= screen);
}

/// Whether one of the first `k` bits of a sprite drawn from `(x, y)` is
/// set and lands on position `p` of the frame buffer.
pub open spec fn covers(x: u8, y: u8, bytes: Seq<u8>, k: nat, p: int) -> bool {
    exists|j: int| 0 <= j < k && sprite_bit(bytes, j) && #[trigger] target(x, y, j) == p
}

/// Whether one of the first `k` bits of a sprite drawn from `(x, y)` is
/// set and lands on a lit pixel of `screen`.
pub open spec fn collides(screen: Seq<bool>, x: u8, y: u8, bytes: Seq<u8>, k: nat) -> bool {
    exists|j: int| 0 <= j < k && sprite_bit(bytes, j) && screen[#[trigger] target(x, y, j)]
}

/// Within the first 32 rows of a sprite no two bits land on the same
/// pixel.
pub proof fn lemma_targets_differ(x: u8, y: u8, j: int, k: int)
    requires
        0 <= j < k < 256,
    ensures
        target(x, y, j) != target(x, y, k),
{
    let xj = target_x(x, j);
    let xk = target_x(x, k);
    let yj = target_y(y, j);
    let yk = target_y(y, k);
    if target(x, y, j) == target(x, y, k) {
        assert(yj * 64 + xj == yk * 64 + xk);
        assert(yj == yk && xj == xk);
        assert(j / 8 == k / 8);
        assert(j % 8 == k % 8);
        assert(false);
    }
}

/// For a sprite of at most 32 rows, an odd number of hits on a pixel is
/// one hit.
pub proof fn lemma_short_flips(x: u8, y: u8, bytes: Seq<u8>, k: nat, p: int)
    requires
        k <= 256,
    ensures
        flips(x, y, bytes, k, p) == covers(x, y, bytes, k, p),
    decreases k,
{
    if k > 0 {
        let prev = (k - 1) as nat;
        lemma_short_flips(x, y, bytes, prev, p);
        if sprite_bit(bytes, k - 1) && target(x, y, k - 1) == p {
            if covers(x, y, bytes, prev, p) {
                let j = choose|j: int|
                    0 <= j < prev && sprite_bit(bytes, j) && #[trigger] target(x, y, j) == p;
                lemma_targets_differ(x, y, j, k - 1);
            }
            assert(target(x, y, k - 1) == p);
            assert(covers(x, y, bytes, k, p));
        } else {
            if covers(x, y, bytes, prev, p) {
                let j = choose|j: int|
                    0 <= j < prev && sprite_bit(bytes, j) && #[trigger] target(x, y, j) == p;
                assert(target(x, y, j) == p);
                assert(covers(x, y, bytes, k, p));
            }
            if covers(x, y, bytes, k, p) {
                let j = choose|j: int|
                    0 <= j < k && sprite_bit(bytes, j) && #[trigger] target(x, y, j) == p;
                assert(target(x, y, j) == p);
                assert(j < prev);
                assert(covers(x, y, bytes, prev, p));
            }
        }
    }
}

/// Drawing a sprite of at most 32 rows toggles exactly the pixels that one
/// of its set bits lands on, and reports an erasure exactly when one of
/// its set bits lands on a pixel that was lit.
pub proof fn lemma_short_sprite(screen: Seq<bool>, x: u8, y: u8, bytes: Seq<u8>)
    requires
        screen.len() == 2048,
        bytes.len() <= 32,
    ensures
        forall|p: int|
            0 <= p < 2048 ==> #[trigger] paint(screen, x, y, bytes, 8 * bytes.len())[p] == (
            screen[p] != covers(x, y, bytes, 8 * bytes.len(), p)),
        any_erased(messages(screen, x, y, bytes, 8 * bytes.len())) == collides(
            screen,
            x,
            y,
            bytes,
            8 * bytes.len(),
        ),
{
    let n = 8 * bytes.len();
    assert forall|p: int| 0 <= p < 2048 implies #[trigger] paint(screen, x, y, bytes, n)[p] == (
    screen[p] != covers(x, y, bytes, n, p)) by {
        lemma_paint_pixel(screen, x, y, bytes, n, p);
        lemma_short_flips(x, y, bytes, n, p);
    }
    lemma_short_collision(screen, x, y, bytes, n);
}

/// For the first 32 rows of a sprite, an erasure is reported exactly when
/// a set bit lands on a pixel that was lit before the draw.
proof fn lemma_short_collision(screen: Seq<bool>, x: u8, y: u8, bytes: Seq<u8>, k: nat)
    requires
        screen.len() == 2048,
        k <= 256,
    ensures
        any_erased(messages(screen, x, y, bytes, k)) == collides(screen, x, y, bytes, k),
    decreases k,
{
    if k == 0 {
        assert(messages(screen, x, y, bytes, 0).len() == 0);
    } else {
        let prev = (k - 1) as nat;
        let t = target(x, y, k - 1);
        lemma_short_collision(screen, x, y, bytes, prev);
        assert(0 <= t < 2048);
        lemma_paint_pixel(screen, x, y, bytes, prev, t);
        lemma_short_flips(x, y, bytes, prev, t);
        if covers(x, y, bytes, prev, t) {
            let j = choose|j: int|
                0 <= j < prev && sprite_bit(bytes, j) && #[trigger] target(x, y, j) == t;
            lemma_targets_differ(x, y, j, k - 1);
        }
        assert(paint(screen, x, y, bytes, prev)[t] == screen[t]);
        if sprite_bit(bytes, k - 1) {
            let message = DrawMessage {
                pos: (target_x(x, k - 1) as u8, target_y(y, k - 1) as u8),
                state: if screen[t] {
                    PixelState::Erased
                } else {
                    PixelState::Drawn
                },
            };
            lemma_any_erased_push(messages(screen, x, y, bytes, prev), message);
        }
        if collides(screen, x, y, bytes, prev) {
            let j = choose|j: int|
                0 <= j < prev && sprite_bit(bytes, j) && screen[#[trigger] target(x, y, j)];
            assert(screen[target(x, y, j)]);
            assert(collides(screen, x, y, bytes, k));
        }
        if sprite_bit(bytes, k - 1) && screen[t] {
            assert(screen[target(x, y, k - 1)]);
            assert(collides(screen, x, y, bytes, k));
        }
        if collides(screen, x, y, bytes, k) {
            let j = choose|j: int|
                0 <= j < k && sprite_bit(bytes, j) && screen[#[trigger] target(x, y, j)];
            if j < prev {
                assert(screen[target(x, y, j)]);
                assert(collides(screen, x, y, bytes, prev));
            }
        }
    }
}

/// What drawing one more bit does to the frame buffer and to the reports.
proof fn lemma_next_bit(screen: Seq<bool>, x: u8, y: u8, bytes: Seq<u8>, k: nat)
    ensures
        paint(screen, x, y, bytes, k + 1) == if sprite_bit(bytes, k as int) {
            paint(screen, x, y, bytes, k).update(
                target(x, y, k as int),
                !paint(screen, x, y, bytes, k)[target(x, y, k as int)],
            )
        } else {
            paint(screen, x, y, bytes, k)
        },
        messages(screen, x, y, bytes, k + 1) == if sprite_bit(bytes, k as int) {
            messages(screen, x, y, bytes, k).push(
                DrawMessage {
                    pos: (target_x(x, k as int) as u8, target_y(y, k as int) as u8),
                    state: if paint(screen, x, y, bytes, k)[target(x, y, k as int)] {
                        PixelState::Erased
                    } else {
                        PixelState::Drawn
                    },
                },
            )
        } else {
            messages(screen, x, y, bytes, k)
        },
{
    assert((k + 1 - 1) as nat == k);
}

/// Stepping a wrapped column by one is wrapping the next column.
proof fn lemma_wrap_next(start: int, col: int, x: int)
    requires
        0 <= start < 64,
        0 <= col < 8,
        x == (start + col) % 64,
    ensures
        (x + 1) % 64 == (start + col + 1) % 64,
{
}

/// A longer list of reports holds an erasure exactly when the shorter one
/// did or the new report is one.
proof fn lemma_any_erased_push(earlier: Seq<DrawMessage>, message: DrawMessage)
    ensures
        any_erased(earlier.push(message)) == (any_erased(earlier) || message.state
            == PixelState::Erased),
{
    let longer = earlier.push(message);
    if any_erased(earlier) {
        let j = choose|j: int|
            0 <= j < earlier.len() && (#[trigger] earlier[j]).state == PixelState::Erased;
        assert(longer[j].state == PixelState::Erased);
    }
    if message.state == PixelState::Erased {
        assert(longer[earlier.len() as int].state == PixelState::Erased);
    }
    if any_erased(longer) {
        let j = choose|j: int|
            0 <= j < longer.len() && (#[trigger] longer[j]).state == PixelState::Erased;
        if j < earlier.len() {
            assert(earlier[j] == longer[j]);
        }
    }
}

/// Row and column of bit `8 * row + col`.
proof fn lemma_bit_position(row: int, col: int)
    requires
        0 <= row,
        0 <= col < 8,
    ensures
        (8 * row + col) / 8 == row,
        (8 * row + col) % 8 == col,
{
}

/// The frame buffer: 2048 pixels, row after row.
pub struct Screen {
    screen_buffer: [bool; 2048],
}

impl View for Screen {
    type V = Seq<bool>;

    closed spec fn view(&self) -> Seq<bool> {
        self.screen_buffer@
    }
}

impl Screen {
    /// A screen with every pixel unlit.
    pub fn new() -> (screen: Screen)
        ensures
            screen@ == Seq::new(2048, |i: int| false),
    {
        let screen = Screen { screen_buffer: [false; 2048] };
        assert(screen@ =~= Seq::new(2048, |i: int| false));
        screen
    }

    /// The view of a screen always has 2048 pixels.
    pub proof fn lemma_len(&self)
        ensures
            self@.len() == 2048,
    {
    }

    /// Whether the pixel in column `x`, row `y` is lit.
    pub fn pixel(&self, x: u8, y: u8) -> (lit: bool)
        requires
            x < 64,
            y < 32,
        ensures
            lit == self@[pixel_index(x as int, y as int)],
    {
        self.screen_buffer[y as usize * SCREEN_WIDTH + x as usize]
    }

    /// Toggles one pixel and says which way it went.
    pub fn draw_xor(&mut self, pos: (u8, u8)) -> (state: PixelState)
        requires
            pos.0 < 64,
            pos.1 < 32,
        ensures
            final(self)@ == old(self)@.update(
                pixel_index(pos.0 as int, pos.1 as int),
                !old(self)@[pixel_index(pos.0 as int, pos.1 as int)],
            ),
            state == if old(self)@[pixel_index(pos.0 as int, pos.1 as int)] {
                PixelState::Erased
            } else {
                PixelState::Drawn
            },
    {
        let idx: usize = pos.1 as usize * SCREEN_WIDTH + pos.0 as usize;
        if self.screen_buffer[idx] {
            self.screen_buffer[idx] = false;
            PixelState::Erased
        } else {
            self.screen_buffer[idx] = true;
            PixelState::Drawn
        }
    }

    /// Draws a sprite, one byte per row, with its top-left corner at `pos`.
    ///
    /// The corner is first wrapped onto the screen; columns then wrap
    /// modulo 64 and rows modulo 32. Every set bit toggles its pixel and
    /// yields one report, in row-major order. The flag returned tells
    /// whether any pixel went from lit to unlit.
    pub fn draw(&mut self, pos: (u8, u8), bytes: &[u8]) -> (result: (Vec<DrawMessage>, bool))
        ensures
            final(self)@ == paint(old(self)@, pos.0, pos.1, bytes@, 8 * bytes@.len()),
            result.0@ == messages(old(self)@, pos.0, pos.1, bytes@, 8 * bytes@.len()),
            result.1 == any_erased(result.0@),
    {
        let mut result: Vec<DrawMessage> = Vec::new();
        let mut is_any_erased: bool = false;
        let origx: u8 = pos.0 % 64;
        let mut y: u8 = pos.1 % 32;
        let mut row: usize = 0;
        while row < bytes.len()
            invariant
                row <= bytes@.len(),
                origx == pos.0 % 64,
                y == (pos.1 % 32 + row) % 32,
                self@ == paint(old(self)@, pos.0, pos.1, bytes@, 8 * row as nat),
                result@ == messages(old(self)@, pos.0, pos.1, bytes@, 8 * row as nat),
                is_any_erased == any_erased(result@),
            decreases bytes@.len() - row,
        {
            let byte: u8 = bytes[row];
            let mut x: u8 = origx;
            let mut col: u8 = 0;
            while col < 8
                invariant
                    row < bytes@.len(),
                    col <= 8,
                    byte == bytes@[row as int],
                    origx == pos.0 % 64,
                    x == (origx + col) % 64,
                    y == (pos.1 % 32 + row) % 32,
                    self@ == paint(old(self)@, pos.0, pos.1, bytes@, (8 * row + col) as nat),
                    result@ == messages(old(self)@, pos.0, pos.1, bytes@, (8 * row + col) as nat),
                    is_any_erased == any_erased(result@),
                decreases 8 - col,
            {
                let ghost k: nat = (8 * row + col) as nat;
                let ghost earlier = result@;
                proof {
                    lemma_bit_position(row as int, col as int);
                    lemma_next_bit(old(self)@, pos.0, pos.1, bytes@, k);
                    lemma_wrap_next(origx as int, col as int, x as int);
                    assert(target_x(pos.0, k as int) == x);
                    assert(target_y(pos.1, k as int) == y);
                    assert(sprite_bit(bytes@, k as int) == (byte & (0x80u8 >> col) != 0));
                }
                if byte & (0x80u8 >> col) != 0 {
                    let state = self.draw_xor((x, y));
                    match state {
                        PixelState::Erased => {
                            is_any_erased = true;
                        },
                        PixelState::Drawn => {},
                    }
                    let message = DrawMessage { pos: (x, y), state };
                    result.push(message);
                    proof {
                        lemma_any_erased_push(earlier, message);
                    }
                }
                x = (x + 1) % 64;
                col = col + 1;
            }
            y = (y + 1) % 32;
            row = row + 1;
            assert((8 * (row - 1) + 8) as nat == 8 * row as nat);
        }
        (result, is_any_erased)
    }

    /// Turns every pixel off.
    pub fn clear(&mut self)
        ensures
            final(self)@ == Seq::new(2048, |i: int| false),
    {
        self.screen_buffer = [false; 2048];
        assert(self@ =~= Seq::new(2048, |i: int| false));
    }
}

} // verus!
