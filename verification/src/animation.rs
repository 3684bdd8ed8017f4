use vstd::prelude::*;
use crate::render::palette::palette_symbols;

verus! {

/// Width of every animation frame, in cells.
pub const FRAME_WIDTH: usize = 64;

/// Height of every animation frame, in cells.
pub const FRAME_HEIGHT: usize = 64;

/// One cell of an animation frame: a byte that names what is drawn there
/// (background, star, rainbow colour, part of the cat).
#[derive(Clone, Copy, Debug, PartialEq, Eq, Structural)]
pub struct FrameSymbol {
    byte: u8,
}

impl View for FrameSymbol {
    type V = u8;

    closed spec fn view(&self) -> u8 {
        self.byte
    }
}

impl FrameSymbol {
    pub fn new(byte: u8) -> (r: Self)
        ensures
            r@ == byte,
    {
        FrameSymbol { byte }
    }

    pub fn as_byte(self) -> (r: u8)
        ensures
            r == self@,
    {
        self.byte
    }
}

/// Cells in one frame.
pub open spec fn frame_cells() -> nat {
    (FRAME_WIDTH * FRAME_HEIGHT) as nat
}

/// The frames of the animation, each `FRAME_HEIGHT` rows of `FRAME_WIDTH`
/// symbols stored row by row.
pub struct Animation {
    frames: Vec<Vec<u8>>,
}

/// A byte that names one of the fourteen frame symbols, the ones every
/// palette draws.
pub open spec fn is_frame_symbol(byte: u8) -> bool {
    palette_symbols().contains(byte)
}

/// Every cell of `cells` holds a frame symbol.
pub open spec fn all_frame_symbols(cells: Seq<u8>) -> bool {
    forall|j: int| 0 <= j < cells.len() ==> is_frame_symbol(#[trigger] cells[j])
}

/// At least one frame; each of `FRAME_WIDTH * FRAME_HEIGHT` cells, every
/// cell a frame symbol.
pub open spec fn frames_well_formed(frames: Seq<Seq<u8>>) -> bool {
    &&& frames.len() > 0
    &&& forall|i: int| 0 <= i < frames.len() ==> (#[trigger] frames[i]).len() == frame_cells() && all_frame_symbols(frames[i])
}

/// Whether `byte` is a frame symbol.
pub fn is_frame_symbol_byte(byte: u8) -> (r: bool)
    ensures
        r == is_frame_symbol(byte),
{
    let symbols: [u8; 14] = [0x2c, 0x2e, 0x27, 0x40, 0x24, 0x2d, 0x3e, 0x26, 0x2b, 0x23, 0x3d, 0x3b, 0x2a, 0x25];
    assert(symbols@ =~= palette_symbols());
    let mut k: usize = 0;
    while k < 14
        invariant
            k <= 14,
            symbols@ == palette_symbols(),
            forall|m: int| 0 <= m < k ==> symbols@[m] != byte,
        decreases 14 - k,
    {
        if symbols[k] == byte {
            assert(palette_symbols()[k as int] == byte);
            return true;
        }
        k = k + 1;
    }
    false
}

/// Whether every cell of `cells` is a frame symbol.
pub fn all_frame_symbols_in(cells: &[u8]) -> (r: bool)
    ensures
        r == all_frame_symbols(cells@),
{
    let n = cells.len();
    let mut j: usize = 0;
    while j < n
        invariant
            n == cells@.len(),
            j <= n,
            forall|m: int| 0 <= m < j ==> is_frame_symbol(#[trigger] cells@[m]),
        decreases n - j,
    {
        if !is_frame_symbol_byte(cells[j]) {
            return false;
        }
        j = j + 1;
    }
    true
}

impl Animation {
    /// The frames, row by row.
    pub closed spec fn frames(self) -> Seq<Seq<u8>> {
        self.frames@.map_values(|f: Vec<u8>| f@)
    }

    pub closed spec fn wf(self) -> bool {
        frames_well_formed(self.frames())
    }

    /// An animation of the given frames; none unless there is at least one
    /// frame, every frame has exactly `FRAME_WIDTH * FRAME_HEIGHT` cells and
    /// every cell is a frame symbol.
    pub fn from_frames(frames: Vec<Vec<u8>>) -> (r: Option<Animation>)
        ensures
            r is Some <==> frames_well_formed(frames@.map_values(|f: Vec<u8>| f@)),
            r matches Some(a) ==> a.wf() && a.frames() == frames@.map_values(|f: Vec<u8>| f@),
    {
        let ghost view = frames@.map_values(|f: Vec<u8>| f@);
        let n = frames.len();
        if n == 0 {
            return None;
        }
        let mut i: usize = 0;
        while i < n
            invariant
                n == frames@.len(),
                view == frames@.map_values(|f: Vec<u8>| f@),
                i <= n,
                forall|k: int| 0 <= k < i ==> (#[trigger] view[k]).len() == frame_cells() && all_frame_symbols(view[k]),
            decreases n - i,
        {
            if frames[i].len() != FRAME_WIDTH * FRAME_HEIGHT {
                assert(view[i as int].len() != frame_cells());
                return None;
            }
            if !all_frame_symbols_in(frames[i].as_slice()) {
                assert(!all_frame_symbols(view[i as int]));
                return None;
            }
            i = i + 1;
        }
        Some(Animation { frames })
    }

    /// Groups `lines` into frames of `FRAME_HEIGHT` consecutive lines; none
    /// unless the lines fill whole frames and every line has `FRAME_WIDTH`
    /// cells, each a frame symbol.
    pub fn from_lines(lines: &[Vec<u8>]) -> (r: Option<Animation>)
        ensures
            r is Some <==> lines_well_formed(lines@.map_values(|l: Vec<u8>| l@)),
            r matches Some(a) ==> a.wf() && a.frames() == frames_of_lines(lines@.map_values(|l: Vec<u8>| l@)),
    {
        let ghost view = lines@.map_values(|l: Vec<u8>| l@);
        let n = lines.len();
        if n == 0 || n % FRAME_HEIGHT != 0 {
            return None;
        }
        let mut frames: Vec<Vec<u8>> = Vec::new();
        let mut current: Vec<u8> = Vec::new();
        let mut i: usize = 0;
        while i < n
            invariant
                n == lines@.len(),
                n > 0,
                n % 64 == 0,
                view == lines@.map_values(|l: Vec<u8>| l@),
                i <= n,
                forall|k: int| 0 <= k < i ==> (#[trigger] view[k]).len() == 64 && all_frame_symbols(view[k]),
                frames@.len() == i / 64,
                current@ == frame_of_lines(view, (i / 64) as int, (i % 64) as int),
                forall|f: int| 0 <= f < frames@.len() ==> (#[trigger] frames@[f])@ == frame_of_lines(view, f, 64),
            decreases n - i,
        {
            if lines[i].len() != FRAME_WIDTH {
                proof {
                    assert(view[i as int].len() != 64);
                }
                return None;
            }
            if !all_frame_symbols_in(lines[i].as_slice()) {
                assert(!all_frame_symbols(view[i as int]));
                return None;
            }
            current.extend_from_slice(lines[i].as_slice());
            proof {
                assert(current@ =~= frame_of_lines(view, (i / 64) as int, (i % 64) as int) + view[i as int]);
                assert(i == (i / 64) * 64 + (i % 64));
                assert(frame_of_lines(view, (i / 64) as int, (i % 64) + 1) =~= frame_of_lines(view, (i / 64) as int, (i % 64) as int) + view[(i / 64) * 64 + i % 64]);
            }
            i = i + 1;
            if i % FRAME_HEIGHT == 0 {
                frames.push(current);
                current = Vec::new();
                proof {
                    assert(frame_of_lines(view, (i / 64) as int, 0) =~= Seq::<u8>::empty());
                }
            }
        }
        proof {
            assert forall|f: int| 0 <= f < frames@.len() implies (#[trigger] frames@[f])@.len() == frame_cells()
                && all_frame_symbols(frames@[f]@) by {
                lemma_frame_of_lines_len(view, f, 64);
                lemma_frame_of_lines_symbols(view, f, 64);
            }
            assert(frames@.map_values(|v: Vec<u8>| v@) =~= frames_of_lines(view));
        }
        Animation::from_frames(frames)
    }

    /// Reads an animation from text: its non-empty lines, split at each
    /// newline, grouped into frames as `from_lines` groups them.
    pub fn from_bytes(bytes: &[u8]) -> (r: Option<Animation>)
        ensures
            r is Some <==> lines_well_formed(text_lines(bytes@)),
            r matches Some(a) ==> a.wf() && a.frames() == frames_of_lines(text_lines(bytes@)),
    {
        let lines = text_lines_of(bytes);
        Animation::from_lines(lines.as_slice())
    }

    pub fn frame_count(&self) -> (r: usize)
        ensures
            r == self.frames().len(),
    {
        self.frames.len()
    }

    /// The symbol at column `x`, row `y` of frame `frame_index`.
    pub fn symbol(&self, frame_index: usize, x: usize, y: usize) -> (r: FrameSymbol)
        requires
            self.wf(),
            frame_index < self.frames().len(),
            x < FRAME_WIDTH,
            y < FRAME_HEIGHT,
        ensures
            r@ == self.frames()[frame_index as int][y * 64 + x],
    {
        assert(self.frames()[frame_index as int].len() == frame_cells());
        assert(y * 64 + x < 4096) by (nonlinear_arith)
            requires x < 64, y < 64;
        FrameSymbol::new(self.frames[frame_index][y * FRAME_WIDTH + x])
    }
}

/// The pieces of `bytes` between newlines, in order; a text without
/// newlines is one piece, and a newline at either end leaves an empty one.
pub open spec fn split_lines(bytes: Seq<u8>) -> Seq<Seq<u8>>
    decreases bytes.len(),
{
    if bytes.len() == 0 {
        seq![Seq::empty()]
    } else {
        let pieces = split_lines(bytes.drop_last());
        if bytes.last() == 0x0a {
            pieces.push(Seq::empty())
        } else {
            pieces.update(pieces.len() - 1, pieces.last().push(bytes.last()))
        }
    }
}

/// The pieces of `lines` that are not empty, in order.
pub open spec fn keep_nonempty(lines: Seq<Seq<u8>>) -> Seq<Seq<u8>> {
    lines.filter(|l: Seq<u8>| l.len() > 0)
}

/// The non-empty lines of a text, in order.
pub open spec fn text_lines(bytes: Seq<u8>) -> Seq<Seq<u8>> {
    keep_nonempty(split_lines(bytes))
}

proof fn lemma_keep_push(lines: Seq<Seq<u8>>, line: Seq<u8>)
    ensures
        keep_nonempty(lines.push(line)) == if line.len() > 0 {
            keep_nonempty(lines).push(line)
        } else {
            keep_nonempty(lines)
        },
{
    reveal(Seq::filter);
    assert(lines.push(line).drop_last() =~= lines);
}

/// The non-empty lines of `bytes`, split at each newline.
pub fn text_lines_of(bytes: &[u8]) -> (r: Vec<Vec<u8>>)
    ensures
        r@.map_values(|l: Vec<u8>| l@) == text_lines(bytes@),
{
    let n = bytes.len();
    let mut lines: Vec<Vec<u8>> = Vec::new();
    let mut current: Vec<u8> = Vec::new();
    let mut i: usize = 0;
    proof {
        assert(bytes@.take(0) =~= Seq::<u8>::empty());
        reveal(Seq::filter);
        assert(lines@.map_values(|l: Vec<u8>| l@) =~= keep_nonempty(split_lines(bytes@.take(0)).drop_last()));
    }
    while i < n
        invariant
            n == bytes@.len(),
            i <= n,
            split_lines(bytes@.take(i as int)).len() >= 1,
            lines@.map_values(|l: Vec<u8>| l@) == keep_nonempty(split_lines(bytes@.take(i as int)).drop_last()),
            current@ == split_lines(bytes@.take(i as int)).last(),
        decreases n - i,
    {
        let ghost before = split_lines(bytes@.take(i as int));
        let ghost after = split_lines(bytes@.take(i + 1));
        assert(bytes@.take(i + 1).drop_last() =~= bytes@.take(i as int));
        assert(bytes@.take(i + 1).last() == bytes@[i as int]);
        let b = bytes[i];
        if b == 0x0a {
            proof {
                assert(after == before.push(Seq::<u8>::empty()));
                assert(after.drop_last() =~= before);
                assert(before =~= before.drop_last().push(before.last()));
                lemma_keep_push(before.drop_last(), before.last());
            }
            if current.len() > 0 {
                let line = current;
                lines.push(line);
            }
            current = Vec::new();
            proof {
                assert(lines@.map_values(|l: Vec<u8>| l@) =~= keep_nonempty(after.drop_last()));
            }
        } else {
            proof {
                assert(after.drop_last() =~= before.drop_last());
            }
            current.push(b);
        }
        i = i + 1;
    }
    proof {
        let all = split_lines(bytes@.take(n as int));
        assert(bytes@.take(n as int) =~= bytes@);
        assert(all =~= all.drop_last().push(all.last()));
        lemma_keep_push(all.drop_last(), all.last());
    }
    if current.len() > 0 {
        lines.push(current);
    }
    proof {
        assert(lines@.map_values(|l: Vec<u8>| l@) =~= text_lines(bytes@));
    }
    lines
}

/// The first `count` lines of frame `frame`, joined.
pub open spec fn frame_of_lines(lines: Seq<Seq<u8>>, frame: int, count: int) -> Seq<u8>
    decreases count,
{
    if count <= 0 {
        Seq::empty()
    } else {
        frame_of_lines(lines, frame, count - 1) + lines[frame * 64 + count - 1]
    }
}

/// Lines that fill whole frames, each `FRAME_WIDTH` cells long, every cell
/// a frame symbol.
pub open spec fn lines_well_formed(lines: Seq<Seq<u8>>) -> bool {
    &&& lines.len() > 0
    &&& lines.len() % 64 == 0
    &&& forall|i: int| 0 <= i < lines.len() ==> (#[trigger] lines[i]).len() == 64 && all_frame_symbols(lines[i])
}

proof fn lemma_frame_of_lines_symbols(lines: Seq<Seq<u8>>, frame: int, count: int)
    requires
        0 <= frame,
        0 <= count <= 64,
        (frame + 1) * 64 <= lines.len(),
        forall|i: int| 0 <= i < lines.len() ==> all_frame_symbols(#[trigger] lines[i]),
    ensures
        all_frame_symbols(frame_of_lines(lines, frame, count)),
    decreases count,
{
    if count > 0 {
        lemma_frame_of_lines_symbols(lines, frame, count - 1);
        assert(0 <= frame * 64 + count - 1 < lines.len()) by (nonlinear_arith)
            requires 0 <= frame, 0 < count <= 64, (frame + 1) * 64 <= lines.len();
        let head = frame_of_lines(lines, frame, count - 1);
        let line = lines[frame * 64 + count - 1];
        assert(all_frame_symbols(line));
        let whole = head + line;
        assert forall|j: int| 0 <= j < whole.len() implies is_frame_symbol(#[trigger] whole[j]) by {
            if j < head.len() {
                assert(whole[j] == head[j]);
            } else {
                assert(whole[j] == line[j - head.len()]);
            }
        }
    }
}

/// Every `FRAME_HEIGHT` consecutive lines joined into one frame.
pub open spec fn frames_of_lines(lines: Seq<Seq<u8>>) -> Seq<Seq<u8>> {
    Seq::new(lines.len() / 64, |f: int| frame_of_lines(lines, f, 64))
}

proof fn lemma_frame_of_lines_len(lines: Seq<Seq<u8>>, frame: int, count: int)
    requires
        0 <= frame,
        0 <= count <= 64,
        (frame + 1) * 64 <= lines.len(),
        forall|i: int| 0 <= i < lines.len() ==> (#[trigger] lines[i]).len() == 64,
    ensures
        frame_of_lines(lines, frame, count).len() == count * 64,
    decreases count,
{
    if count > 0 {
        lemma_frame_of_lines_len(lines, frame, count - 1);
        assert(0 <= frame * 64 + count - 1 < lines.len()) by (nonlinear_arith)
            requires 0 <= frame, 0 < count <= 64, (frame + 1) * 64 <= lines.len();
    }
}

} // verus!
