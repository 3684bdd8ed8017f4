use nyancat::cli::FrameLimit;
use nyancat::render::render_loop::RenderLoop;

const FRAME_COUNT: usize = 12;

fn frame_count() -> usize {
    FRAME_COUNT
}

#[test]
fn render_loop_advances_frame_indices() {
    let mut render_loop = RenderLoop::new(frame_count());

    assert_eq!(render_loop.frame_index(), 0);
    assert!(!render_loop.finish_frame(None));
    assert_eq!(render_loop.frame_index(), 1);
}

#[test]
fn render_loop_wraps_frame_indices() {
    let mut render_loop = RenderLoop::new(frame_count());

    for _ in 0..frame_count() {
        assert!(!render_loop.finish_frame(None));
    }

    assert_eq!(render_loop.frame_index(), 0);
}

#[test]
fn render_loop_reports_frame_limit_before_advancing() {
    let mut render_loop = RenderLoop::new(frame_count());

    assert!(render_loop.finish_frame(FrameLimit::new(1)));
    assert_eq!(render_loop.frame_index(), 0);
}
