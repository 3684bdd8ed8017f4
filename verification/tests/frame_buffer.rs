use nyancat::render::frame_buffer::FrameBuffer;

#[test]
fn push_repeated_matches_naive_repetition() {
    let mut fast = FrameBuffer::with_capacity(64);
    let mut naive = FrameBuffer::with_capacity(64);

    for (pattern, count) in [
        (&b"  "[..], 5usize),
        (&b"\xdb\xdb"[..], 3),
        (&b"\xe2\x96\x88\xe2\x96\x88"[..], 4),
        (&b"  "[..], 0),
        (&b""[..], 7),
    ] {
        fast.clear();
        naive.clear();
        fast.push_repeated(pattern, count);
        for _ in 0..count {
            naive.push_bytes(pattern);
        }
        assert_eq!(
            fast.as_bytes(),
            naive.as_bytes(),
            "pattern {pattern:?} x{count}"
        );
    }
}

#[test]
fn frame_buffer_frame_buffer_uses_terminal_newlines() {
    let mut buffer = FrameBuffer::with_capacity(16);

    buffer.push_newlines(false, 2);

    assert_eq!(buffer.as_bytes(), b"\n\n");
}

#[test]
fn frame_buffer_frame_buffer_uses_telnet_newlines() {
    let mut buffer = FrameBuffer::with_capacity(16);

    buffer.push_newlines(true, 2);

    assert_eq!(buffer.as_bytes(), b"\r\0\n\r\0\n");
}

#[test]
fn frame_buffer_frame_buffer_prefix_tracks_clear_screen_mode() {
    let mut buffer = FrameBuffer::with_capacity(8);

    buffer.push_frame_prefix(true);
    assert_eq!(buffer.as_bytes(), b"\x1b[H");

    buffer.clear();
    buffer.push_frame_prefix(false);
    assert_eq!(buffer.as_bytes(), b"\x1b[u");
}
