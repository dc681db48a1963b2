use engine::game_loop::{GameLoop, MAX_UPDATES_PER_FRAME};

const MS: u64 = 1_000_000;

/// Runs frames against a simulated clock in which each update takes
/// `t_update` and each render `t_render`; returns the sleeps requested and
/// the updates run in each frame.
fn simulate(t_step: u64, t_update: u64, t_render: u64, frames: usize) -> (Vec<u64>, Vec<u64>) {
    let mut game_loop = GameLoop::new(t_step);
    let mut now = 0u64;
    let mut sleeps = Vec::new();
    let mut loops = Vec::new();
    for _ in 0..frames {
        let t0 = now;
        let updates = game_loop.updates_to_run();
        now += updates * t_update;
        now += t_render;
        loops.push(updates);
        if let Some(s) = game_loop.end_frame(now - t0) {
            sleeps.push(s);
            now += s;
        }
    }
    (sleeps, loops)
}

#[test]
fn test_gameloop_fast() {
    let (sleeps, loops) = simulate(20 * MS, 0, 0, 4);
    // since processing time was 0 ms, every sleep call should be t_step
    assert_eq!(sleeps, vec![20 * MS; 4]);
    // since processing time was 0 ms, every loop should only contain one update
    assert_eq!(loops, vec![1; 4]);
}

#[test]
fn test_gameloop_slow() {
    let (sleeps, loops) = simulate(20 * MS, 10 * MS, 20 * MS, 6);
    assert_eq!(sleeps, Vec::<u64>::new());
    // with 10 ms updating time and 20 ms rendering time, 2 updates per loop
    assert_eq!(loops[2..6], vec![2; 4]);
}

#[test]
fn test_gameloop_superslow() {
    let (sleeps, loops) = simulate(20 * MS, 20 * MS, 20 * MS, 6);
    assert_eq!(sleeps, Vec::<u64>::new());
    // the number of updates per loop is capped
    assert_eq!(loops[3..6], vec![MAX_UPDATES_PER_FRAME; 3]);
}

#[test]
fn gameloop_lag_accounting() {
    let mut gl = GameLoop::new(20);
    assert_eq!(gl.updates_needed(), 1);
    // a 5 ns frame leaves 15 ns to sleep; the lag is then paid off
    assert_eq!(gl.end_frame(5), Some(15));
    assert_eq!(gl.updates_needed(), 1);
    // a 130 ns frame: 130 - 20 = 110 ns of lag, five steps and a bit
    assert_eq!(gl.end_frame(130), None);
    assert_eq!(gl.updates_needed(), 6);
    assert_eq!(gl.updates_to_run(), 4);
    // all six steps count as done, even though only four ran
    assert_eq!(gl.end_frame(0), None);
    assert_eq!(gl.updates_needed(), 1);
    // a frame that saturates the clock does not overflow
    assert_eq!(gl.end_frame(u64::MAX), None);
    assert!(gl.updates_needed() >= 1);
}
