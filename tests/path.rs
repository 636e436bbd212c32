use raytrace::path::{advance, resolve, start, Outcome, Step, Terminal};

#[test]
fn zero_depth_is_black_without_tracing() {
    assert_eq!(start(0), Step::Finish(Terminal::Black));
    assert_eq!(resolve(0, &vec![]), Some((Terminal::Black, 0)));
    assert_eq!(resolve(0, &vec![Outcome::Missed]), Some((Terminal::Black, 0)));
}

#[test]
fn positive_depth_traces() {
    assert_eq!(start(50), Step::Trace(50));
}

#[test]
fn miss_ends_on_sky() {
    assert_eq!(advance(3, Outcome::Missed), Step::Finish(Terminal::Sky));
    assert_eq!(resolve(50, &vec![Outcome::Missed]), Some((Terminal::Sky, 1)));
}

#[test]
fn absorption_ends_on_black() {
    assert_eq!(advance(3, Outcome::Absorbed), Step::Finish(Terminal::Black));
}

#[test]
fn scatter_spends_one_bounce() {
    assert_eq!(advance(3, Outcome::Scattered), Step::Trace(2));
    assert_eq!(advance(1, Outcome::Scattered), Step::Finish(Terminal::Black));
}

#[test]
fn depth_one_scatter_is_black() {
    let outcomes = vec![Outcome::Scattered, Outcome::Missed];
    assert_eq!(resolve(1, &outcomes), Some((Terminal::Black, 1)));
    assert_eq!(resolve(2, &outcomes), Some((Terminal::Sky, 2)));
}

#[test]
fn undecided_path_is_none() {
    assert_eq!(resolve(5, &vec![Outcome::Scattered, Outcome::Scattered]), None);
}

#[test]
fn no_bounce_left_is_black() {
    assert_eq!(advance(0, Outcome::Missed), Step::Finish(Terminal::Black));
}

#[test]
fn sky_after_scatters_counts_every_bounce() {
    let outcomes = vec![Outcome::Scattered, Outcome::Scattered, Outcome::Missed, Outcome::Absorbed];
    assert_eq!(resolve(5, &outcomes), Some((Terminal::Sky, 3)));
}
