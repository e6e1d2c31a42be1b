//! The green rain on the client's terminal: before the connection, and while
//! the tunnel carries packets. Packets make it denser and faster.

use vstd::prelude::*;

use crate::protocol::frame::{next, next_sequence};
use crate::text::{chars_of, decimal, decimal_chars, number, parse_number, string_of, trim, trimmed};
use crate::transport::obfuscation::xor_step;

verus! {

pub const RESET: &'static str = "\x1b[0m";

pub const BRIGHT_GREEN: &'static str = "\x1b[92m";

pub const BOLD_GREEN: &'static str = "\x1b[1;32m";

pub const DIM_GREEN: &'static str = "\x1b[2;32m";

pub const HEAD: &'static str = "\x1b[1;97m";

pub const GREEN: &'static str = "\x1b[32m";

pub const CLEAR_LINE: &'static str = "\x1b[K";

/// Half-width katakana, digits and signs: one column each.
pub const GLYPHS: [char; 65] = [
    'ｱ', 'ｲ', 'ｳ', 'ｴ', 'ｵ', 'ｶ', 'ｷ', 'ｸ', 'ｹ', 'ｺ', 'ｻ', 'ｼ', 'ｽ', 'ｾ', 'ｿ', 'ﾀ', 'ﾁ', 'ﾂ', 'ﾃ', 'ﾄ', 'ﾅ', 'ﾆ',
    'ﾇ', 'ﾈ', 'ﾉ', 'ﾊ', 'ﾋ', 'ﾌ', 'ﾍ', 'ﾎ', 'ﾏ', 'ﾐ', 'ﾑ', 'ﾒ', 'ﾓ', 'ﾔ', 'ﾕ', 'ﾖ', 'ﾗ', 'ﾘ', 'ﾙ', 'ﾚ', 'ﾛ', 'ﾜ',
    'ﾝ', '0', '1', '2', '3', '4', '5', '6', '7', '8', '9', 'A', 'Z', ':', '.', '"', '=', '*', '+', '<', '>',
];

/// The rain before the connection: its seed, its frames, the time between
/// them, and the last one without the title.
pub const INTRO_SEED: u64 = 0x9e37_79b9_7f4a_7c15;

pub const INTRO_FRAMES: u32 = 36;

pub const INTRO_WAIT_MS: u64 = 45;

pub const INTRO_UNTITLED: u32 = 8;

/// How brightly a cell lights up when a stream's head reaches it.
pub const FULL_GLOW: u8 = 12;

/// The longest trail of a stream.
pub const MAX_TRAIL: u8 = 24;

// ---------------------------------------------------------------------------
// Chance
// ---------------------------------------------------------------------------

/// A xorshift generator.
#[derive(Debug, Clone, Copy)]
pub struct Rng(pub u64);

/// The glyph that a drawn number stands for.
pub open spec fn glyph_of(drawn: u64) -> char {
    GLYPHS@[(drawn % 65) as int]
}

/// A number below `max` and the generator's state after it; nothing is drawn
/// where `max` is zero.
pub open spec fn below_of(state: u64, max: u32) -> (u32, u64) {
    if max == 0 {
        (0, state)
    } else {
        ((xor_step(state) % (max as u64)) as u32, xor_step(state))
    }
}

impl Rng {
    pub fn next(&mut self) -> (drawn: u64)
        ensures
            drawn == xor_step(old(self).0),
            final(self).0 == drawn,
    {
        let a: u64 = self.0 ^ (self.0 << 13);
        let b: u64 = a ^ (a >> 7);
        let c: u64 = b ^ (b << 17);
        self.0 = c;
        c
    }

    pub fn glyph(&mut self) -> (c: char)
        ensures
            c == glyph_of(xor_step(old(self).0)),
            final(self).0 == xor_step(old(self).0),
    {
        let glyphs: [char; 65] = GLYPHS;
        let drawn: u64 = self.next();
        glyphs[(drawn % 65) as usize]
    }

    pub fn below(&mut self, max: u32) -> (value: u32)
        ensures
            (value, final(self).0) == below_of(old(self).0, max),
            max > 0 ==> value < max,
            max == 0 ==> value == 0,
    {
        if max == 0 {
            return 0;
        }
        let drawn: u64 = self.next();
        (drawn % max as u64) as u32
    }
}

// ---------------------------------------------------------------------------
// The rain
// ---------------------------------------------------------------------------

#[derive(Debug, Clone, Copy)]
pub struct Cell {
    pub ch: char,
    pub glow: u8,
}

/// One column: where its head is, how long it waits between two steps, how
/// far it runs on below the screen and how long it sleeps before it moves.
#[derive(Debug, Clone, Copy)]
pub struct Stream {
    pub head: i32,
    pub wait: u8,
    pub delay: u8,
    pub trail: u8,
    pub sleep: u8,
}

pub struct Rain {
    pub width: usize,
    pub height: usize,
    pub cells: Vec<Cell>,
    pub streams: Vec<Stream>,
    pub rng: Rng,
}

/// How a column starts.
pub open spec fn first_stream(column: int, height: int, dense: bool, state: u64) -> (Stream, u64) {
    let (stagger, s1) = below_of(
        state,
        if dense {
            (height + 4) as u32
        } else {
            (height * 2 + 8) as u32
        },
    );
    let (wait, s2) = below_of(s1, 3);
    let (delay, s3) = below_of(
        s2,
        if dense {
            2
        } else {
            3
        },
    );
    let (trail, s4) = below_of(s3, 14);
    let (sleep, s5) = below_of(
        s4,
        if dense {
            6
        } else {
            18
        },
    );
    (
        Stream {
            head: (-(stagger as int) - column % 7) as i32,
            wait: wait as u8,
            delay: delay as u8,
            trail: (10 + trail) as u8,
            sleep: sleep as u8,
        },
        s5,
    )
}

/// How the first `n` columns start, and the generator after them.
pub open spec fn first_streams(n: nat, height: int, dense: bool, seed: u64) -> (Seq<Stream>, u64)
    decreases n,
{
    if n == 0 {
        (Seq::empty(), seed)
    } else {
        let (before, state) = first_streams((n - 1) as nat, height, dense, seed);
        let (stream, after) = first_stream(n - 1, height, dense, state);
        (before.push(stream), after)
    }
}

/// A cell one tick later: it fades, and now and then changes its glyph.
pub open spec fn faded(cell: Cell, state: u64) -> (Cell, u64) {
    if cell.glow == 0 {
        (cell, state)
    } else if cell.glow == 1 {
        (Cell { ch: ' ', glow: 0 }, state)
    } else {
        let (chance, s1) = below_of(state, 7);
        if chance == 0 {
            (Cell { ch: glyph_of(xor_step(s1)), glow: (cell.glow - 1) as u8 }, xor_step(s1))
        } else {
            (Cell { glow: (cell.glow - 1) as u8, ..cell }, s1)
        }
    }
}

/// The first `n` cells one tick later, and the generator after them.
pub open spec fn all_faded(cells: Seq<Cell>, n: nat, state: u64) -> (Seq<Cell>, u64)
    decreases n,
{
    if n == 0 {
        (Seq::empty(), state)
    } else {
        let (before, s1) = all_faded(cells, (n - 1) as nat, state);
        let (cell, s2) = faded(cells[n - 1], s1);
        (before.push(cell), s2)
    }
}

/// A stream that has run off the screen starts again above it.
pub open spec fn restarted(stream: Stream, busy: bool, state: u64) -> (Stream, u64) {
    let (head, s1) = below_of(state, 10);
    let (sleep, s2) = below_of(
        s1,
        if busy {
            3
        } else {
            16
        },
    );
    let (delay, s3) = below_of(
        s2,
        if busy {
            2
        } else {
            3
        },
    );
    let (trail, s4) = below_of(s3, 16);
    (
        Stream {
            head: (-(head as int)) as i32,
            sleep: if busy {
                sleep as u8
            } else {
                (3 + sleep) as u8
            },
            delay: delay as u8,
            trail: (8 + trail) as u8,
            ..stream
        },
        s4,
    )
}

/// A stream one tick later, the glyph that its head leaves on the screen, and
/// the generator after it.
pub open spec fn moved(stream: Stream, busy: bool, height: int, state: u64) -> (Stream, Option<char>, u64) {
    let delay = if busy && stream.delay > 1 {
        1
    } else {
        stream.delay
    };
    if stream.sleep > 0 {
        let sleep = if busy && stream.sleep == 1 {
            0
        } else if busy {
            stream.sleep - 2
        } else {
            stream.sleep - 1
        };
        (Stream { sleep: sleep as u8, ..stream }, None, state)
    } else if stream.wait < delay {
        (Stream { wait: (stream.wait + 1) as u8, ..stream }, None, state)
    } else {
        let head = stream.head + 1;
        let stepped = Stream { wait: 0, head: head as i32, ..stream };
        if 0 <= head < height {
            (stepped, Some(glyph_of(xor_step(state))), xor_step(state))
        } else if head > height + stream.trail {
            let (stream, after) = restarted(stepped, busy, state);
            (stream, None, after)
        } else {
            (stepped, None, state)
        }
    }
}

/// The first `n` streams one tick later, the cells with what their heads left
/// there, and the generator.
pub open spec fn all_moved(
    streams: Seq<Stream>,
    cells: Seq<Cell>,
    n: nat,
    busy: bool,
    width: int,
    height: int,
    state: u64,
) -> (Seq<Stream>, Seq<Cell>, u64)
    decreases n,
{
    if n == 0 {
        (Seq::empty(), cells, state)
    } else {
        let (before, lit, s1) = all_moved(streams, cells, (n - 1) as nat, busy, width, height, state);
        let (stream, glyph, s2) = moved(streams[n - 1], busy, height, s1);
        let now = match glyph {
            Some(c) => lit.update(stream.head * width + (n - 1), Cell { ch: c, glow: FULL_GLOW }),
            None => lit,
        };
        (before.push(stream), now, s2)
    }
}

/// The colour of a cell: none, white, bright, plain or dim.
pub open spec fn style_of(glow: u8) -> u8 {
    if glow == 0 {
        0
    } else if glow == 11 || glow == 12 {
        1
    } else if 8 <= glow <= 10 {
        2
    } else if 4 <= glow <= 7 {
        3
    } else {
        4
    }
}

pub open spec fn colour_of(style: u8) -> Seq<char> {
    if style == 1 {
        HEAD@
    } else if style == 2 {
        BRIGHT_GREEN@
    } else if style == 3 {
        GREEN@
    } else if style == 4 {
        DIM_GREEN@
    } else {
        RESET@
    }
}

/// The first `n` cells as they are printed: a colour only where it changes.
pub open spec fn painted(line: Seq<Cell>, n: nat) -> Seq<char>
    decreases n,
{
    if n == 0 {
        Seq::empty()
    } else {
        let cell = line[n - 1];
        let style = style_of(cell.glow);
        let before = painted(line, (n - 1) as nat);
        let coloured = if n == 1 || style_of(line[n - 2].glow) != style {
            before + colour_of(style)
        } else {
            before
        };
        coloured.push(
            if cell.glow == 0 {
                ' '
            } else {
                cell.ch
            },
        )
    }
}

/// A row of cells as it is printed.
pub open spec fn row_text(line: Seq<Cell>) -> Seq<char> {
    painted(line, line.len()) + RESET@ + CLEAR_LINE@
}

fn colour(style: u8) -> (code: &'static str)
    ensures
        code@ == colour_of(style),
{
    if style == 1 {
        HEAD
    } else if style == 2 {
        BRIGHT_GREEN
    } else if style == 3 {
        GREEN
    } else if style == 4 {
        DIM_GREEN
    } else {
        RESET
    }
}

fn style(glow: u8) -> (style: u8)
    ensures
        style == style_of(glow),
{
    if glow == 0 {
        0
    } else if glow == 11 || glow == 12 {
        1
    } else if glow >= 8 && glow <= 10 {
        2
    } else if glow >= 4 && glow <= 7 {
        3
    } else {
        4
    }
}

impl Rain {
    /// One stream for each column, a cell for each place, and every head
    /// where another step fits its number.
    pub open spec fn wf(&self) -> bool {
        &&& 2 * self.height + 64 <= i32::MAX
        &&& self.streams@.len() == self.width
        &&& self.cells@.len() == self.width * self.height
        &&& forall|i: int|
            0 <= i < self.streams@.len() ==> stream_fits(#[trigger] self.streams@[i], self.height as int)
    }

    /// A dark screen; `dense` rain starts sooner.
    pub fn new(width: usize, height: usize, seed: u64, dense: bool) -> (rain: Self)
        requires
            2 * height + 64 <= i32::MAX,
            width * height <= usize::MAX,
        ensures
            rain.wf(),
            rain.width == width,
            rain.height == height,
            (rain.streams@, rain.rng.0) == first_streams(width as nat, height as int, dense, seed),
            forall|i: int| 0 <= i < rain.cells@.len() ==> #[trigger] rain.cells@[i] == (Cell { ch: ' ', glow: 0 }),
    {
        let mut rng = Rng(seed);
        let mut streams: Vec<Stream> = Vec::new();
        let mut column: usize = 0;
        while column < width
            invariant
                column <= width,
                2 * height + 64 <= i32::MAX,
                streams@.len() == column,
                (streams@, rng.0) == first_streams(column as nat, height as int, dense, seed),
                forall|i: int| 0 <= i < streams@.len() ==> stream_fits(#[trigger] streams@[i], height as int),
            decreases width - column,
        {
            let rows: u32 = height as u32;
            let stagger: u32 = if dense {
                rng.below(rows + 4)
            } else {
                rng.below(rows * 2 + 8)
            };
            let wait: u32 = rng.below(3);
            let delay: u32 = if dense {
                rng.below(2)
            } else {
                rng.below(3)
            };
            let trail: u32 = rng.below(14);
            let sleep: u32 = rng.below(
                if dense {
                    6
                } else {
                    18
                },
            );
            let stream = Stream {
                head: -(stagger as i32) - (column % 7) as i32,
                wait: wait as u8,
                delay: delay as u8,
                trail: 10 + trail as u8,
                sleep: sleep as u8,
            };
            streams.push(stream);
            column = column + 1;
        }
        let size: usize = width * height;
        let mut cells: Vec<Cell> = Vec::new();
        while cells.len() < size
            invariant
                cells@.len() <= size,
                forall|i: int| 0 <= i < cells@.len() ==> #[trigger] cells@[i] == (Cell { ch: ' ', glow: 0 }),
            decreases size - cells@.len(),
        {
            cells.push(Cell { ch: ' ', glow: 0 });
        }
        Rain { width, height, cells, streams, rng }
    }

    fn fade(&mut self)
        ensures
            final(self).width == old(self).width,
            final(self).height == old(self).height,
            final(self).streams@ == old(self).streams@,
            final(self).cells@.len() == old(self).cells@.len(),
            (final(self).cells@, final(self).rng.0) == all_faded(
                old(self).cells@,
                old(self).cells@.len(),
                old(self).rng.0,
            ),
    {
        let ghost start = self.cells@;
        let ghost seed = self.rng.0;
        let mut i: usize = 0;
        while i < self.cells.len()
            invariant
                i <= self.cells@.len(),
                self.cells@.len() == start.len(),
                start == old(self).cells@,
                seed == old(self).rng.0,
                self.width == old(self).width,
                self.height == old(self).height,
                self.streams@ == old(self).streams@,
                (self.cells@.take(i as int), self.rng.0) == all_faded(start, i as nat, seed),
                forall|k: int| i <= k < start.len() ==> #[trigger] self.cells@[k] == start[k],
            decreases self.cells@.len() - i,
        {
            let ghost before = self.cells@;
            let cell = self.cells[i];
            let mut now = cell;
            if cell.glow > 0 {
                now.glow = cell.glow - 1;
                if now.glow == 0 {
                    now.ch = ' ';
                } else if self.rng.below(7) == 0 {
                    now.ch = self.rng.glyph();
                }
            }
            self.cells.set(i, now);
            assert(self.cells@.take(i + 1) =~= before.take(i as int).push(now));
            i = i + 1;
        }
        assert(self.cells@.take(i as int) =~= self.cells@);
    }

    /// One frame later.
    pub fn tick(&mut self, busy: bool)
        requires
            old(self).wf(),
        ensures
            final(self).wf(),
            final(self).width == old(self).width,
            final(self).height == old(self).height,
            ({
                let (cells, state) = all_faded(old(self).cells@, old(self).cells@.len(), old(self).rng.0);
                (final(self).streams@, final(self).cells@, final(self).rng.0) == all_moved(
                    old(self).streams@,
                    cells,
                    old(self).streams@.len(),
                    busy,
                    old(self).width as int,
                    old(self).height as int,
                    state,
                )
            }),
    {
        self.fade();
        let ghost cells = self.cells@;
        let ghost state = self.rng.0;
        let ghost streams = self.streams@;
        let width: usize = self.width;
        let height: usize = self.height;
        let size: usize = self.cells.len();
        assert(size == width * height);
        let mut column: usize = 0;
        while column < self.streams.len()
            invariant
                column <= streams.len(),
                streams == old(self).streams@,
                (cells, state) == all_faded(old(self).cells@, old(self).cells@.len(), old(self).rng.0),
                width == old(self).width,
                height == old(self).height,
                self.width == width,
                self.height == height,
                streams.len() == width,
                self.streams@.len() == width,
                self.cells@.len() == width * height,
                width * height <= usize::MAX,
                2 * height + 64 <= i32::MAX,
                forall|i: int| 0 <= i < width ==> stream_fits(#[trigger] self.streams@[i], height as int),
                forall|i: int| column <= i < width ==> #[trigger] self.streams@[i] == streams[i],
                (self.streams@.take(column as int), self.cells@, self.rng.0) == all_moved(
                    streams,
                    cells,
                    column as nat,
                    busy,
                    width as int,
                    height as int,
                    state,
                ),
            decreases streams.len() - column,
        {
            let ghost before = self.streams@;
            let ghost lit = self.cells@;
            let ghost s1 = self.rng.0;
            let old_stream = self.streams[column];
            let mut stream = old_stream;
            let delay: u8 = if busy && stream.delay > 1 {
                1
            } else {
                stream.delay
            };
            let mut glyph: Option<char> = None;
            if stream.sleep > 0 {
                if busy {
                    stream.sleep = stream.sleep.saturating_sub(2);
                } else {
                    stream.sleep = stream.sleep - 1;
                }
            } else if stream.wait < delay {
                stream.wait = stream.wait + 1;
            } else {
                stream.wait = 0;
                stream.head = stream.head + 1;
                if stream.head >= 0 && (stream.head as usize) < height {
                    glyph = Some(self.rng.glyph());
                } else if stream.head > height as i32 + stream.trail as i32 {
                    stream.head = -(self.rng.below(10) as i32);
                    stream.sleep = if busy {
                        self.rng.below(3) as u8
                    } else {
                        3 + self.rng.below(16) as u8
                    };
                    stream.delay = if busy {
                        self.rng.below(2) as u8
                    } else {
                        self.rng.below(3) as u8
                    };
                    stream.trail = 8 + self.rng.below(16) as u8;
                }
            }
            assert((stream, glyph, self.rng.0) == moved(old_stream, busy, height as int, s1));
            if let Some(c) = glyph {
                proof {
                    lemma_row_fits(stream.head as int, width as int, height as int);
                }
                let index: usize = (stream.head as usize) * width + column;
                self.cells.set(index, Cell { ch: c, glow: FULL_GLOW });
            }
            self.streams.set(column, stream);
            assert(self.streams@.take(column + 1) =~= before.take(column as int).push(stream));
            column = column + 1;
        }
        assert(self.streams@.take(column as int) =~= self.streams@);
    }

    /// The cells of one row.
    pub open spec fn line(&self, row: int) -> Seq<Cell> {
        self.cells@.subrange(row * self.width, row * self.width + self.width)
    }

    /// Appends a row as it is printed.
    pub fn paint_row(&self, row: usize, out: &mut Vec<char>)
        requires
            self.wf(),
            row < self.height,
        ensures
            final(out)@ == old(out)@ + row_text(self.line(row as int)),
    {
        let ghost line = self.line(row as int);
        let ghost start = out@;
        proof {
            lemma_row_fits(row as int, self.width as int, self.height as int);
        }
        let size: usize = self.cells.len();
        assert(size == self.width * self.height);
        let from: usize = row * self.width;
        let mut last_style: u8 = 255;
        let mut i: usize = 0;
        while i < self.width
            invariant
                self.wf(),
                row < self.height,
                i <= self.width,
                from == row * self.width,
                from + self.width <= self.cells@.len(),
                self.cells@.len() == size,
                line == self.line(row as int),
                line.len() == self.width,
                start == old(out)@,
                out@ == start + painted(line, i as nat),
                last_style == (if i == 0 {
                    255
                } else {
                    style_of(line[i - 1].glow)
                }),
            decreases self.width - i,
        {
            let cell = self.cells[from + i];
            assert(cell == line[i as int]);
            let now: u8 = style(cell.glow);
            if now != last_style {
                out.extend_from_slice(&chars_of(colour(now)));
                last_style = now;
            }
            out.push(
                if cell.glow == 0 {
                    ' '
                } else {
                    cell.ch
                },
            );
            i = i + 1;
            assert(out@ =~= start + painted(line, i as nat));
        }
        out.extend_from_slice(&chars_of(RESET));
        out.extend_from_slice(&chars_of(CLEAR_LINE));
        assert(out@ =~= start + row_text(line));
    }

    /// The first `n` rows as they are printed, one line each.
    pub open spec fn rows_text(&self, n: nat) -> Seq<char>
        decreases n,
    {
        if n == 0 {
            Seq::empty()
        } else {
            (self.rows_text((n - 1) as nat) + row_text(self.line(n - 1))).push('\n')
        }
    }

    /// The whole screen as it is printed.
    pub fn frame_text(&self) -> (text: String)
        requires
            self.wf(),
        ensures
            text@ == self.rows_text(self.height as nat),
    {
        let mut out: Vec<char> = Vec::new();
        let mut row: usize = 0;
        while row < self.height
            invariant
                self.wf(),
                row <= self.height,
                out@ == self.rows_text(row as nat),
            decreases self.height - row,
        {
            self.paint_row(row, &mut out);
            out.push('\n');
            row = row + 1;
        }
        string_of(&out)
    }
}

proof fn lemma_row_fits(row: int, width: int, height: int)
    requires
        0 <= row < height,
        0 <= width,
    ensures
        0 <= row * width,
        row * width + width <= width * height,
{
    assert(row * width + width <= width * height) by (nonlinear_arith)
        requires
            0 <= row < height,
            0 <= width,
    ;
    assert(0 <= row * width) by (nonlinear_arith)
        requires
            0 <= row,
            0 <= width,
    ;
}

/// A stream's head is neither too far above the screen nor too far below it.
pub open spec fn stream_fits(stream: Stream, height: int) -> bool {
    &&& -(2 * height + 32) <= stream.head <= height + stream.trail
    &&& stream.trail <= MAX_TRAIL
}

// ---------------------------------------------------------------------------
// The terminal
// ---------------------------------------------------------------------------

pub open spec fn clamped(value: int, low: int, high: int) -> int {
    if value < low {
        low
    } else if value > high {
        high
    } else {
        value
    }
}

fn clamp(value: usize, low: usize, high: usize) -> (out: usize)
    requires
        low <= high,
    ensures
        out == clamped(value as int, low as int, high as int),
{
    if value < low {
        low
    } else if value > high {
        high
    } else {
        value
    }
}

/// The positive number that the terminal reports.
pub open spec fn reported(text: Seq<char>) -> Option<nat> {
    match number(trim(text), usize::MAX as nat) {
        Some(value) => if value > 0 {
            Some(value)
        } else {
            None
        },
        None => None,
    }
}

/// Reads what the terminal reports of its size.
pub fn read_report(text: &str) -> (value: Option<usize>)
    ensures
        match value {
            Some(value) => reported(text@) == Some(value as nat),
            None => reported(text@) is None,
        },
{
    let chars = chars_of(text);
    match parse_number(trimmed(&chars), usize::MAX as u64) {
        Some(value) => {
            if value > 0 {
                Some(value as usize)
            } else {
                None
            }
        },
        None => None,
    }
}

/// Columns and lines within reason; 60 by 24 where the terminal does not say.
pub fn terminal_size(cols: Option<usize>, lines: Option<usize>) -> (size: (usize, usize))
    ensures
        size.0 == clamped(
            match cols {
                Some(cols) => cols as int,
                None => 60,
            },
            20,
            200,
        ),
        size.1 == clamped(
            match lines {
                Some(lines) => lines as int,
                None => 24,
            },
            12,
            80,
        ),
{
    let width: usize = match cols {
        Some(cols) => cols,
        None => 60,
    };
    let height: usize = match lines {
        Some(lines) => lines,
        None => 24,
    };
    (clamp(width, 20, 200), clamp(height, 12, 80))
}

/// The rain before the connection: all but a column and a line.
pub fn intro_size(terminal: (usize, usize)) -> (size: (usize, usize))
    ensures
        size.0 == (if terminal.0 >= 21 {
            terminal.0 - 1
        } else {
            20
        }),
        size.1 == (if terminal.1 >= 13 {
            terminal.1 - 1
        } else {
            12
        }),
{
    let width: usize = if terminal.0 >= 21 {
        terminal.0 - 1
    } else {
        20
    };
    let height: usize = if terminal.1 >= 13 {
        terminal.1 - 1
    } else {
        12
    };
    (width, height)
}

/// The rain of the open tunnel: 14 lines stay free, and it is 10 to 22 high.
pub fn flow_size(terminal: (usize, usize)) -> (size: (usize, usize))
    ensures
        size.0 == (if terminal.0 >= 21 {
            terminal.0 - 1
        } else {
            20
        }),
        size.1 == clamped(terminal.1 - 14, 10, 22),
{
    let width: usize = if terminal.0 >= 21 {
        terminal.0 - 1
    } else {
        20
    };
    let height: usize = terminal.1.saturating_sub(14);
    (width, clamp(height, 10, 22))
}

/// The column where a text of this length stands in the middle.
pub open spec fn middle(width: int, len: int) -> int {
    if len < width {
        (width - len) / 2 + 1
    } else {
        1
    }
}

/// A line in the middle of a row.
pub open spec fn centered_text(width: int, row: nat, line: Seq<char>) -> Seq<char> {
    "\x1b["@ + decimal(row) + ";"@ + decimal(middle(width, line.len() as int) as nat) + "H"@ + BOLD_GREEN@ + line
        + RESET@
}

/// What prints a line in the middle of a row.
pub fn draw_centered(width: usize, row: usize, line: &str) -> (text: String)
    requires
        width < usize::MAX,
    ensures
        text@ == centered_text(width as int, row as nat, line@),
{
    let chars = chars_of(line);
    let column: usize = width.saturating_sub(chars.len()) / 2 + 1;
    let mut out = chars_of("\x1b[");
    out.extend_from_slice(&decimal_chars(row as u64));
    out.extend_from_slice(&chars_of(";"));
    out.extend_from_slice(&decimal_chars(column as u64));
    out.extend_from_slice(&chars_of("H"));
    out.extend_from_slice(&chars_of(BOLD_GREEN));
    out.extend_from_slice(&chars);
    out.extend_from_slice(&chars_of(RESET));
    assert(out@ =~= centered_text(width as int, row as nat, line@));
    string_of(&out)
}

// ---------------------------------------------------------------------------
// The rain of the open tunnel
// ---------------------------------------------------------------------------

/// The shortest time between two frames.
pub const FRAME_MS: u64 = 40;

pub const FLOW_SEED: u64 = 0xd1b5_4a32_d192_ed03;

/// The most that packets speed the rain up.
pub const MAX_ENERGY: u16 = 80;

pub struct FlowIndicator {
    pub rain: Rain,
    pub packet_count: u64,
    pub energy: u16,
    pub live: bool,
    /// When the last frame was drawn, in milliseconds.
    pub last_draw: Option<u64>,
}

/// The line above the rain.
pub open spec fn headline_text(packets: nat) -> Seq<char> {
    BRIGHT_GREEN@ + "▸ follow the white rabbit · "@ + decimal(packets) + " pkts"@ + RESET@ + CLEAR_LINE@ + "\n"@
}

/// The rain and the line above it, drawn over the last frame.
pub open spec fn redraw_text(rain: Rain, packets: nat) -> Seq<char> {
    "\x1b["@ + decimal((rain.height + 1) as nat) + "A"@ + headline_text(packets) + rain.rows_text(rain.height as nat)
}

pub fn headline(packets: u64) -> (text: String)
    ensures
        text@ == headline_text(packets as nat),
{
    let mut out = chars_of(BRIGHT_GREEN);
    out.extend_from_slice(&chars_of("▸ follow the white rabbit · "));
    out.extend_from_slice(&decimal_chars(packets));
    out.extend_from_slice(&chars_of(" pkts"));
    out.extend_from_slice(&chars_of(RESET));
    out.extend_from_slice(&chars_of(CLEAR_LINE));
    out.extend_from_slice(&chars_of("\n"));
    assert(out@ =~= headline_text(packets as nat));
    string_of(&out)
}

impl FlowIndicator {
    pub open spec fn wf(&self) -> bool {
        self.rain.wf() && self.energy <= MAX_ENERGY
    }

    /// Whether a frame is due.
    pub open spec fn due(&self, now: u64) -> bool {
        self.live && (self.last_draw matches Some(last) ==> now >= last + FRAME_MS)
    }

    pub fn new(width: usize, height: usize) -> (flow: Self)
        requires
            2 * height + 64 <= i32::MAX,
            width * height <= usize::MAX,
        ensures
            flow.wf(),
            flow.rain.width == width,
            flow.rain.height == height,
            (flow.rain.streams@, flow.rain.rng.0) == first_streams(width as nat, height as int, false, FLOW_SEED),
            forall|i: int|
                0 <= i < flow.rain.cells@.len() ==> #[trigger] flow.rain.cells@[i] == (Cell { ch: ' ', glow: 0 }),
            flow.packet_count == 0,
            flow.energy == 0,
            flow.live,
            flow.last_draw is None,
    {
        FlowIndicator {
            rain: Rain::new(width, height, FLOW_SEED, false),
            packet_count: 0,
            energy: 0,
            live: true,
            last_draw: None,
        }
    }

    /// A packet went out or came in.
    pub fn pulse(&mut self)
        requires
            old(self).wf(),
        ensures
            final(self).wf(),
            *final(self) == (FlowIndicator {
                packet_count: next(old(self).packet_count),
                energy: clamped(old(self).energy + 3, 0, MAX_ENERGY as int) as u16,
                ..*old(self)
            }),
    {
        self.packet_count = next_sequence(self.packet_count);
        let energy: u16 = self.energy + 3;
        self.energy = if energy > MAX_ENERGY {
            MAX_ENERGY
        } else {
            energy
        };
    }

    /// What to print at this time, if a frame is due.
    pub fn tick(&mut self, now: u64) -> (text: Option<String>)
        requires
            old(self).wf(),
        ensures
            final(self).wf(),
            final(self).live == old(self).live,
            final(self).packet_count == old(self).packet_count,
            if !old(self).due(now) {
                text is None && *final(self) == *old(self)
            } else {
                let (cells, state) = all_faded(
                    old(self).rain.cells@,
                    old(self).rain.cells@.len(),
                    old(self).rain.rng.0,
                );
                &&& final(self).rain.width == old(self).rain.width
                &&& final(self).rain.height == old(self).rain.height
                &&& final(self).last_draw == Some(now)
                &&& final(self).energy == (if old(self).energy > 0 {
                    old(self).energy - 1
                } else {
                    0
                })
                &&& (final(self).rain.streams@, final(self).rain.cells@, final(self).rain.rng.0) == all_moved(
                    old(self).rain.streams@,
                    cells,
                    old(self).rain.streams@.len(),
                    old(self).energy > 0,
                    old(self).rain.width as int,
                    old(self).rain.height as int,
                    state,
                )
                &&& text matches Some(text)
                &&& text@ == redraw_text(final(self).rain, old(self).packet_count as nat)
            },
    {
        if !self.live {
            return None;
        }
        if let Some(last) = self.last_draw {
            if now < last || now - last < FRAME_MS {
                return None;
            }
        }
        self.last_draw = Some(now);
        let busy: bool = self.energy > 0;
        self.rain.tick(busy);
        if self.energy > 0 {
            self.energy = self.energy - 1;
        }
        Some(self.redraw())
    }

    fn redraw(&self) -> (text: String)
        requires
            self.wf(),
        ensures
            text@ == redraw_text(self.rain, self.packet_count as nat),
    {
        let mut out = chars_of("\x1b[");
        out.extend_from_slice(&decimal_chars(self.rain.height as u64 + 1));
        out.extend_from_slice(&chars_of("A"));
        out.extend_from_slice(&chars_of(&headline(self.packet_count)));
        out.extend_from_slice(&chars_of(&self.rain.frame_text()));
        assert(out@ =~= redraw_text(self.rain, self.packet_count as nat));
        string_of(&out)
    }

    /// Ends the rain; whether it was still running.
    pub fn finish_line(&mut self) -> (was_live: bool)
        ensures
            was_live == old(self).live,
            *final(self) == (FlowIndicator { live: false, ..*old(self) }),
    {
        let was_live = self.live;
        self.live = false;
        was_live
    }
}

} // verus!
