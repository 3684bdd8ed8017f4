use vstd::prelude::*;
use vstd::string::StringSliceAdditionalSpecFns;

verus! {

/// The bytes of a string literal, as it is written to the terminal.
pub open spec fn text(s: &str) -> Seq<u8> {
    s.spec_bytes()
}

/// `pattern` written `count` times in a row.
pub open spec fn repeat_bytes(pattern: Seq<u8>, count: nat) -> Seq<u8>
    decreases count,
{
    if count == 0 {
        Seq::empty()
    } else {
        repeat_bytes(pattern, (count - 1) as nat) + pattern
    }
}

/// The line terminator of a terminal (`\n`) or of a telnet session (`\r\0\n`).
pub open spec fn newline_bytes(telnet: bool) -> Seq<u8> {
    if telnet {
        seq![0x0du8, 0x00u8, 0x0au8]
    } else {
        seq![0x0au8]
    }
}

/// The escape sequence that starts a frame: cursor home when the screen is
/// cleared between frames, restore of the saved cursor otherwise.
pub open spec fn frame_prefix_bytes(clear_screen: bool) -> Seq<u8> {
    if clear_screen {
        text("\x1b[H")
    } else {
        text("\x1b[u")
    }
}

/// An append-only byte buffer that a frame, or the intro screen, is built in
/// before it is written out in one piece.
pub struct FrameBuffer {
    bytes: Vec<u8>,
}

impl View for FrameBuffer {
    type V = Seq<u8>;

    closed spec fn view(&self) -> Seq<u8> {
        self.bytes@
    }
}

pub proof fn lemma_repeat_len(pattern: Seq<u8>, count: nat)
    ensures
        repeat_bytes(pattern, count).len() == count * pattern.len(),
    decreases count,
{
    if count > 0 {
        lemma_repeat_len(pattern, (count - 1) as nat);
        assert((count - 1) * pattern.len() + pattern.len() == count * pattern.len())
            by (nonlinear_arith);
    } else {
        assert(count * pattern.len() == 0) by (nonlinear_arith)
            requires count == 0;
    }
}

impl FrameBuffer {
    /// An empty buffer with room for `capacity` bytes.
    pub fn with_capacity(capacity: usize) -> (r: Self)
        ensures
            r@ == Seq::<u8>::empty(),
    {
        FrameBuffer { bytes: Vec::with_capacity(capacity) }
    }

    /// Forgets the contents, keeping the allocation.
    pub fn clear(&mut self)
        ensures
            final(self)@ == Seq::<u8>::empty(),
    {
        self.bytes.clear();
    }

    pub fn len(&self) -> (r: usize)
        ensures
            r == self@.len(),
    {
        self.bytes.len()
    }

    pub fn as_bytes(&self) -> (r: &[u8])
        ensures
            r@ == self@,
    {
        self.bytes.as_slice()
    }

    pub fn into_bytes(self) -> (r: Vec<u8>)
        ensures
            r@ == self@,
    {
        self.bytes
    }

    pub fn push_byte(&mut self, byte: u8)
        ensures
            final(self)@ == old(self)@.push(byte),
    {
        self.bytes.push(byte);
    }

    pub fn push_bytes(&mut self, bytes: &[u8])
        ensures
            final(self)@ == old(self)@ + bytes@,
    {
        self.bytes.extend_from_slice(bytes);
        assert(self.bytes@ =~= old(self)@ + bytes@);
    }

    /// Appends `pattern` repeated `count` times; a pattern of one repeated
    /// byte becomes a single fill.
    pub fn push_repeated(&mut self, pattern: &[u8], count: usize)
        requires
            old(self)@.len() + count * pattern@.len() <= usize::MAX,
        ensures
            final(self)@ == old(self)@ + repeat_bytes(pattern@, count as nat),
    {
        if count == 0 || pattern.len() == 0 {
            proof {
                lemma_repeat_len(pattern@, count as nat);
                assert(repeat_bytes(pattern@, count as nat) =~= Seq::<u8>::empty());
            }
            assert(self@ =~= old(self)@ + repeat_bytes(pattern@, count as nat));
            return;
        }
        let mut i: usize = 0;
        while i < count
            invariant
                0 <= i <= count,
                old(self)@.len() + count * pattern@.len() <= usize::MAX,
                self@ == old(self)@ + repeat_bytes(pattern@, i as nat),
            decreases count - i,
        {
            proof {
                lemma_repeat_len(pattern@, i as nat);
                assert(i * pattern@.len() <= count * pattern@.len()) by (nonlinear_arith)
                    requires i < count;
            }
            self.push_bytes(pattern);
            i = i + 1;
            assert(self@ =~= old(self)@ + repeat_bytes(pattern@, i as nat));
        }
    }

    /// Appends `count` line terminators of the session kind.
    pub fn push_newlines(&mut self, telnet: bool, count: usize)
        ensures
            final(self)@ == old(self)@ + repeat_bytes(newline_bytes(telnet), count as nat),
    {
        let mut i: usize = 0;
        while i < count
            invariant
                0 <= i <= count,
                self@ == old(self)@ + repeat_bytes(newline_bytes(telnet), i as nat),
            decreases count - i,
        {
            if telnet {
                self.push_byte(0x0d);
                self.push_byte(0x00);
                self.push_byte(0x0a);
            } else {
                self.push_byte(0x0a);
            }
            i = i + 1;
            assert(self@ =~= old(self)@ + repeat_bytes(newline_bytes(telnet), i as nat));
        }
    }

    /// Appends the escape sequence that starts a frame.
    pub fn push_frame_prefix(&mut self, clear_screen: bool)
        ensures
            final(self)@ == old(self)@ + frame_prefix_bytes(clear_screen),
    {
        if clear_screen {
            self.push_bytes("\x1b[H".as_bytes());
        } else {
            self.push_bytes("\x1b[u".as_bytes());
        }
    }

    /// Appends `count` spaces; a negative count appends nothing.
    pub fn push_spaces(&mut self, count: i32)
        ensures
            final(self)@ == old(self)@ + repeat_bytes(seq![0x20u8], if count > 0 { count as nat } else { 0 }),
    {
        let n: i32 = if count > 0 { count } else { 0 };
        let mut i: i32 = 0;
        while i < n
            invariant
                0 <= i <= n,
                n == (if count > 0 { count } else { 0 }),
                self@ == old(self)@ + repeat_bytes(seq![0x20u8], i as nat),
            decreases n - i,
        {
            self.push_byte(0x20);
            i = i + 1;
            assert(self@ =~= old(self)@ + repeat_bytes(seq![0x20u8], i as nat));
        }
    }
}

} // verus!
