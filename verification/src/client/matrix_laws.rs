//! How the rain falls.

use vstd::prelude::*;

use super::matrix::{
    all_faded, all_moved, draw_centered, first_stream, first_streams, flow_size, headline, intro_size, moved, painted,
    read_report, terminal_size, Cell, FlowIndicator, Rain, Rng, Stream,
};
use crate::text::{decimal, number, trim};

verus! {

/// A drawn number comes of three shifts; one below a bound is its remainder,
/// and below zero nothing is drawn.
pub proof fn law_chance(rng: &mut Rng, drawn: u64, other: &mut Rng, max: u32, value: u32)
    requires
        call_ensures(Rng::next, (rng,), drawn),
        call_ensures(Rng::below, (other, max), value),
    ensures
        ({
            let x = old(rng).0;
            let a = x ^ (x << 13);
            let b = a ^ (a >> 7);
            let c = b ^ (b << 17);
            &&& drawn == c
            &&& final(rng).0 == c
            &&& old(other).0 == x && max > 0 ==> value as int == c as int % (max as int) && final(other).0 == c
        }),
        max == 0 ==> value == 0 && final(other).0 == old(other).0,
{
}

proof fn lemma_faded_len(cells: Seq<Cell>, n: nat, state: u64)
    requires
        n <= cells.len(),
    ensures
        all_faded(cells, n, state).0.len() == n,
    decreases n,
{
    if n > 0 {
        lemma_faded_len(cells, (n - 1) as nat, state);
    }
}

proof fn lemma_faded_at(cells: Seq<Cell>, n: nat, state: u64, i: int)
    requires
        0 <= i < n <= cells.len(),
    ensures
        all_faded(cells, n, state).0.len() == n,
        ({
            let cell = all_faded(cells, n, state).0[i];
            &&& cell.glow == (if cells[i].glow == 0 {
                0
            } else {
                cells[i].glow - 1
            })
            &&& cells[i].glow == 0 ==> cell == cells[i]
            &&& cells[i].glow == 1 ==> cell.ch == ' '
        }),
    decreases n,
{
    lemma_faded_len(cells, n, state);
    lemma_faded_len(cells, (n - 1) as nat, state);
    if i < n - 1 {
        lemma_faded_at(cells, (n - 1) as nat, state, i);
        assert(all_faded(cells, n, state).0[i] == all_faded(cells, (n - 1) as nat, state).0[i]);
    }
}

/// A cell that no head has lit keeps what it had.
proof fn lemma_lit(
    streams: Seq<Stream>,
    cells: Seq<Cell>,
    n: nat,
    busy: bool,
    width: int,
    height: int,
    state: u64,
    i: int,
)
    requires
        n <= streams.len(),
        n <= width,
        0 <= height,
        2 * height + 64 <= i32::MAX,
        cells.len() == width * height,
        0 <= i < cells.len(),
        forall|k: int| 0 <= k < streams.len() ==> super::matrix::stream_fits(#[trigger] streams[k], height),
    ensures
        all_moved(streams, cells, n, busy, width, height, state).0.len() == n,
        all_moved(streams, cells, n, busy, width, height, state).1.len() == cells.len(),
        all_moved(streams, cells, n, busy, width, height, state).1[i] == cells[i] || all_moved(
            streams,
            cells,
            n,
            busy,
            width,
            height,
            state,
        ).1[i].glow == 12,
    decreases n,
{
    if n > 0 {
        lemma_lit(streams, cells, (n - 1) as nat, busy, width, height, state, i);
        let (before, lit, s1) = all_moved(streams, cells, (n - 1) as nat, busy, width, height, state);
        let (stream, glyph, s2) = moved(streams[n - 1], busy, height, s1);
        assert(super::matrix::stream_fits(streams[n - 1], height));
        if glyph is Some {
            let head = stream.head as int;
            assert(0 <= head < height);
            assert(0 <= head * width + (n - 1) < width * height) by (nonlinear_arith)
                requires
                    0 <= head < height,
                    0 <= n - 1 < width,
            ;
        }
    }
}

/// What a tick does to one stream.
pub open spec fn falls(before: Stream, after: Stream, busy: bool, height: int) -> bool {
    let delay: int = if busy && before.delay > 1 {
        1
    } else {
        before.delay as int
    };
    &&& before.sleep > 0 ==> {
        &&& after.head == before.head && after.wait == before.wait && after.trail == before.trail
        &&& after.delay == before.delay
        &&& !busy ==> after.sleep == before.sleep - 1
        &&& busy && before.sleep > 1 ==> after.sleep == before.sleep - 2
        &&& busy && before.sleep == 1 ==> after.sleep == 0
    }
    &&& before.sleep == 0 && before.wait < delay ==> after == (Stream { wait: (before.wait + 1) as u8, ..before })
    &&& before.sleep == 0 && before.wait >= delay && before.head + 1 <= height + before.trail ==> after == (Stream {
        wait: 0,
        head: (before.head + 1) as i32,
        ..before
    })
    &&& before.sleep == 0 && before.wait >= delay && before.head + 1 > height + before.trail ==> {
        &&& after.wait == 0
        &&& -9 <= after.head <= 0
        &&& 8 <= after.trail <= 23
        &&& busy ==> after.sleep < 3 && after.delay < 2
        &&& !busy ==> 3 <= after.sleep < 19 && after.delay < 3
    }
}

proof fn lemma_falls(stream: Stream, busy: bool, height: int, state: u64)
    requires
        i32::MIN <= stream.head + 1 <= i32::MAX,
        0 <= height,
    ensures
        falls(stream, moved(stream, busy, height, state).0, busy, height),
        moved(stream, busy, height, state).1 is Some <==> stream.sleep == 0 && stream.wait >= (if busy && stream.delay
            > 1 {
            1
        } else {
            stream.delay as int
        }) && 0 <= stream.head + 1 < height,
{
}

proof fn lemma_streams(
    streams: Seq<Stream>,
    cells: Seq<Cell>,
    n: nat,
    busy: bool,
    width: int,
    height: int,
    state: u64,
    k: int,
)
    requires
        0 <= k < n <= streams.len(),
        i32::MIN <= streams[k].head + 1 <= i32::MAX,
        0 <= height,
        cells.len() == width * height,
        0 <= width,
        n <= width,
    ensures
        all_moved(streams, cells, n, busy, width, height, state).0.len() == n,
        falls(streams[k], all_moved(streams, cells, n, busy, width, height, state).0[k], busy, height),
    decreases n,
{
    let (before, lit, s1) = all_moved(streams, cells, (n - 1) as nat, busy, width, height, state);
    lemma_stream_count(streams, cells, n, busy, width, height, state);
    lemma_stream_count(streams, cells, (n - 1) as nat, busy, width, height, state);
    if k < n - 1 {
        lemma_streams(streams, cells, (n - 1) as nat, busy, width, height, state, k);
        assert(all_moved(streams, cells, n, busy, width, height, state).0[k] == before[k]);
    } else {
        lemma_falls(streams[k], busy, height, s1);
        assert(all_moved(streams, cells, n, busy, width, height, state).0[k] == moved(
            streams[k],
            busy,
            height,
            s1,
        ).0);
    }
}

proof fn lemma_stream_count(
    streams: Seq<Stream>,
    cells: Seq<Cell>,
    n: nat,
    busy: bool,
    width: int,
    height: int,
    state: u64,
)
    ensures
        all_moved(streams, cells, n, busy, width, height, state).0.len() == n,
    decreases n,
{
    if n > 0 {
        lemma_stream_count(streams, cells, (n - 1) as nat, busy, width, height, state);
    }
}

/// A tick dims each cell by one, unless a head has just lit it; each stream
/// sleeps, waits or takes a step, and starts again above the screen when its
/// trail has left it. Traffic makes it sleep and wait less.
pub proof fn law_tick(rain: &mut Rain, busy: bool, i: int, k: int)
    requires
        old(rain).wf(),
        call_ensures(Rain::tick, (rain, busy), ()),
        0 <= i < old(rain).cells@.len(),
        0 <= k < old(rain).width,
    ensures
        final(rain).width == old(rain).width && final(rain).height == old(rain).height,
        final(rain).cells@.len() == old(rain).cells@.len(),
        final(rain).streams@.len() == old(rain).streams@.len(),
        ({
            let before = old(rain).cells@[i];
            let after = final(rain).cells@[i];
            after.glow == 12 || (before.glow == 0 ==> after == before) && (before.glow > 0 ==> after.glow
                == before.glow - 1) && (before.glow == 1 ==> after.ch == ' ')
        }),
        falls(old(rain).streams@[k], final(rain).streams@[k], busy, old(rain).height as int),
{
    let cells = old(rain).cells@;
    let (faded_cells, state) = all_faded(cells, cells.len(), old(rain).rng.0);
    lemma_faded_at(cells, cells.len(), old(rain).rng.0, i);
    let streams = old(rain).streams@;
    let width = old(rain).width as int;
    let height = old(rain).height as int;
    lemma_lit(streams, faded_cells, streams.len(), busy, width, height, state, i);
    assert(super::matrix::stream_fits(streams[k], height));
    lemma_streams(streams, faded_cells, streams.len(), busy, width, height, state, k);
}

proof fn lemma_first(n: nat, height: int, dense: bool, seed: u64, k: int)
    requires
        0 <= k < n,
        0 <= height,
        2 * height + 64 <= i32::MAX,
    ensures
        first_streams(n, height, dense, seed).0.len() == n,
        ({
            let s = first_streams(n, height, dense, seed).0[k];
            &&& 10 <= s.trail <= 23
            &&& s.wait < 3
            &&& dense ==> s.delay < 2 && s.sleep < 6 && -(height + 9) <= s.head <= 0
            &&& !dense ==> s.delay < 3 && s.sleep < 18 && -(2 * height + 13) <= s.head <= 0
        }),
    decreases n,
{
    let (before, state) = first_streams((n - 1) as nat, height, dense, seed);
    lemma_first_count((n - 1) as nat, height, dense, seed);
    if k < n - 1 {
        lemma_first((n - 1) as nat, height, dense, seed, k);
        assert(first_streams(n, height, dense, seed).0[k] == before[k]);
    } else {
        assert(first_streams(n, height, dense, seed).0[k] == first_stream(k, height, dense, state).0);
    }
}

proof fn lemma_first_count(n: nat, height: int, dense: bool, seed: u64)
    ensures
        first_streams(n, height, dense, seed).0.len() == n,
    decreases n,
{
    if n > 0 {
        lemma_first_count((n - 1) as nat, height, dense, seed);
    }
}

/// Rain starts on a dark screen, with all streams above it; dense rain is
/// there sooner.
pub proof fn law_new_rain(width: usize, height: usize, seed: u64, dense: bool, rain: Rain, i: int, k: int)
    requires
        2 * height + 64 <= i32::MAX,
        call_ensures(Rain::new, (width, height, seed, dense), rain),
        0 <= i < rain.cells@.len(),
        0 <= k < width,
    ensures
        rain.width == width && rain.height == height,
        rain.streams@.len() == width,
        rain.cells@.len() == width * height,
        rain.cells@[i].ch == ' ' && rain.cells@[i].glow == 0,
        ({
            let s = rain.streams@[k];
            &&& 10 <= s.trail <= 23
            &&& s.wait < 3
            &&& dense ==> s.delay < 2 && s.sleep < 6 && -(height + 9) <= s.head <= 0
            &&& !dense ==> s.delay < 3 && s.sleep < 18 && -(2 * height + 13) <= s.head <= 0
        }),
{
    lemma_first(width as nat, height as int, dense, seed, k);
}

/// Cells are printed one character each, dark ones as blanks, and a colour
/// comes before the first cell that has it: white for a head, then bright,
/// plain and dim green.
pub proof fn law_painting(line: Seq<Cell>, n: nat)
    requires
        0 < n <= line.len(),
    ensures
        ({
            let cell = line[n - 1];
            let same = n > 1 && shade(line[n - 2].glow) == shade(cell.glow);
            painted(line, n) == (painted(line, (n - 1) as nat) + (if same {
                Seq::empty()
            } else {
                shade(cell.glow)
            })).push(
                if cell.glow == 0 {
                    ' '
                } else {
                    cell.ch
                },
            )
        }),
{
    lemma_shades();
    let before = painted(line, (n - 1) as nat);
    assert(before + Seq::<char>::empty() =~= before);
}

/// The colour of a glow, as it is printed.
pub open spec fn shade(glow: u8) -> Seq<char> {
    if glow == 0 {
        "\x1b[0m"@
    } else if 11 <= glow <= 12 {
        "\x1b[1;97m"@
    } else if 8 <= glow <= 10 {
        "\x1b[92m"@
    } else if 4 <= glow <= 7 {
        "\x1b[32m"@
    } else {
        "\x1b[2;32m"@
    }
}

proof fn lemma_shades()
    ensures
        forall|a: u8, b: u8|
            #![trigger shade(a), shade(b)]
            shade(a) == shade(b) <==> super::matrix::style_of(a) == super::matrix::style_of(b),
        forall|a: u8| #[trigger] shade(a) == super::matrix::colour_of(super::matrix::style_of(a)),
{
    reveal_strlit("\x1b[0m");
    reveal_strlit("\x1b[1;97m");
    reveal_strlit("\x1b[92m");
    reveal_strlit("\x1b[32m");
    reveal_strlit("\x1b[2;32m");
    let dark = "\x1b[0m"@;
    let head = "\x1b[1;97m"@;
    let bright = "\x1b[92m"@;
    let plain = "\x1b[32m"@;
    let dim = "\x1b[2;32m"@;
    assert(dark.len() == 4 && head.len() == 7 && bright.len() == 5 && plain.len() == 5 && dim.len() == 7);
    assert(head[2] != dim[2] && bright[2] != plain[2]);
}

/// The rain is as large as the terminal, within reason.
pub proof fn law_sizes(
    cols: Option<usize>,
    rows: Option<usize>,
    size: (usize, usize),
    t: (usize, usize),
    intro: (usize, usize),
    flow: (usize, usize),
    text: &str,
    value: Option<usize>,
)
    requires
        call_ensures(terminal_size, (cols, rows), size),
        call_ensures(intro_size, (t,), intro),
        call_ensures(flow_size, (t,), flow),
        call_ensures(read_report, (text,), value),
    ensures
        20 <= size.0 <= 200 && 12 <= size.1 <= 80,
        cols is None ==> size.0 == 60,
        rows is None ==> size.1 == 24,
        cols matches Some(n) ==> (20 <= n <= 200 ==> size.0 == n) && (n < 20 ==> size.0 == 20) && (n > 200 ==> size.0
            == 200),
        rows matches Some(n) ==> (12 <= n <= 80 ==> size.1 == n) && (n < 12 ==> size.1 == 12) && (n > 80 ==> size.1
            == 80),
        t.0 >= 21 ==> intro.0 == t.0 - 1 && flow.0 == t.0 - 1,
        t.0 < 21 ==> intro.0 == 20 && flow.0 == 20,
        t.1 >= 13 ==> intro.1 == t.1 - 1,
        t.1 < 13 ==> intro.1 == 12,
        24 <= t.1 <= 36 ==> flow.1 == t.1 - 14,
        t.1 < 24 ==> flow.1 == 10,
        t.1 > 36 ==> flow.1 == 22,
        value matches Some(n) ==> n > 0 && number(trim(text@), usize::MAX as nat) == Some(n as nat),
        number(trim(text@), usize::MAX as nat) is None ==> value is None,
        number(trim(text@), usize::MAX as nat) matches Some(n) ==> (n > 0 <==> value is Some),
{
}

/// A line stands in the middle: as many columns free before it as behind it,
/// or one less.
pub proof fn law_middle(width: usize, row: usize, line: &str, text: String)
    requires
        width < usize::MAX,
        call_ensures(draw_centered, (width, row, line), text),
    ensures
        exists|column: nat|
            {
                &&& text@ == "\x1b["@ + #[trigger] decimal(row as nat) + ";"@ + #[trigger] decimal(column) + "H"@
                    + "\x1b[1;32m"@ + line@ + "\x1b[0m"@
                &&& line@.len() >= width ==> column == 1
                &&& line@.len() < width ==> 0 <= (width - line@.len() - (column - 1)) - (column - 1) <= 1
            },
{
    let column = super::matrix::middle(width as int, line@.len() as int) as nat;
    assert(text@ == "\x1b["@ + decimal(row as nat) + ";"@ + decimal(column) + "H"@ + "\x1b[1;32m"@ + line@
        + "\x1b[0m"@);
}

/// A packet counts and speeds the rain up by three, to eighty at most; each
/// frame slows it by one. Frames are forty milliseconds apart at least, and
/// none comes after the end.
pub proof fn law_flow(flow: &mut FlowIndicator, other: &mut FlowIndicator, now: u64, text: Option<String>)
    requires
        old(flow).wf(),
        call_ensures(FlowIndicator::pulse, (flow,), ()),
        old(other).wf(),
        call_ensures(FlowIndicator::tick, (other, now), text),
    ensures
        old(flow).packet_count < u64::MAX ==> final(flow).packet_count == old(flow).packet_count + 1,
        old(flow).energy <= 77 ==> final(flow).energy == old(flow).energy + 3,
        old(flow).energy > 77 ==> final(flow).energy == 80,
        final(flow).live == old(flow).live && final(flow).last_draw == old(flow).last_draw,
        !old(other).live ==> text is None && *final(other) == *old(other),
        old(other).live && old(other).last_draw is None ==> text is Some,
        old(other).live && old(other).last_draw is Some ==> (text is Some <==> now >= old(other).last_draw->0 + 40),
        text is Some ==> final(other).last_draw == Some(now),
        text is Some && old(other).energy > 0 ==> final(other).energy == old(other).energy - 1,
        text is Some && old(other).energy == 0 ==> final(other).energy == 0,
        final(other).packet_count == old(other).packet_count,
{
}

/// The end is told once.
pub proof fn law_flow_ends(flow: &mut FlowIndicator, was: bool, packets: u64, line: String)
    requires
        call_ensures(FlowIndicator::finish_line, (flow,), was),
        call_ensures(headline, (packets,), line),
    ensures
        was == old(flow).live,
        !final(flow).live,
        final(flow).packet_count == old(flow).packet_count,
        line@ == "\x1b[92m"@ + "▸ follow the white rabbit · "@ + decimal(packets as nat) + " pkts"@ + "\x1b[0m"@
            + "\x1b[K"@ + "\n"@,
{
}

} // verus!
