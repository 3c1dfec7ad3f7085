use snake::direction::Direction;
use snake::driver::{tick_due, Action, Driver, Event, Keys, Phase, INITIAL_SEGMENTS, TICK_MILLIS};
use snake::grid::Cell;

fn held(up: bool, down: bool, left: bool, right: bool) -> Keys {
    Keys { up, down, left, right }
}

fn frame(elapsed_millis: u32, keys: Keys) -> Event {
    Event::Frame { elapsed_millis, keys }
}

#[test]
fn opposite_headings() {
    assert_eq!(Direction::Left.opposite(), Direction::Right);
    assert_eq!(Direction::Right.opposite(), Direction::Left);
    assert_eq!(Direction::Up.opposite(), Direction::Down);
    assert_eq!(Direction::Down.opposite(), Direction::Up);
    assert_eq!(Direction::Straight.opposite(), Direction::Straight);
}

#[test]
fn a_heading_takes_up_all_but_its_reverse_and_no_request() {
    let four = [Direction::Left, Direction::Right, Direction::Up, Direction::Down];
    for current in four {
        for requested in four {
            assert_eq!(current.accepts(requested), requested != current.opposite());
        }
        assert!(!current.accepts(Direction::Straight));
    }
    assert!(Direction::Right.accepts(Direction::Up));
    assert!(Direction::Right.accepts(Direction::Right));
    assert!(!Direction::Right.accepts(Direction::Left));
}

#[test]
fn turned_keeps_the_heading_where_the_request_is_not_taken_up() {
    assert_eq!(Direction::Right.turned(Direction::Left), Direction::Right);
    assert_eq!(Direction::Right.turned(Direction::Straight), Direction::Right);
    assert_eq!(Direction::Right.turned(Direction::Up), Direction::Up);
    assert_eq!(Direction::Right.turned(Direction::Down), Direction::Down);
    assert_eq!(Direction::Right.turned(Direction::Right), Direction::Right);
    assert_eq!(Direction::Up.turned(Direction::Down), Direction::Up);
}

#[test]
fn keys_are_read_in_the_order_up_down_left_right() {
    assert_eq!(held(false, false, false, false).direction(), Direction::Straight);
    assert_eq!(held(true, false, false, false).direction(), Direction::Up);
    assert_eq!(held(false, true, false, false).direction(), Direction::Down);
    assert_eq!(held(false, false, true, false).direction(), Direction::Left);
    assert_eq!(held(false, false, false, true).direction(), Direction::Right);
    assert_eq!(held(true, true, true, true).direction(), Direction::Up);
    assert_eq!(held(false, true, true, true).direction(), Direction::Down);
    assert_eq!(held(false, false, true, true).direction(), Direction::Left);
    assert_eq!(held(true, false, false, true).direction(), Direction::Up);
}

#[test]
fn a_tick_is_due_from_the_interval_on() {
    assert_eq!(TICK_MILLIS, 300);
    assert!(!tick_due(0));
    assert!(!tick_due(299));
    assert!(tick_due(300));
    assert!(tick_due(301));
    assert!(tick_due(u32::MAX));
}

#[test]
fn a_new_driver_runs_with_no_points() {
    let driver = Driver::new();
    assert_eq!(driver.phase(), Phase::Running);
    assert_eq!(driver.score(), 0);
    assert_eq!(driver.game().head(), Cell { x: 5, y: 5 });
    assert_eq!(driver.game().segments().len(), INITIAL_SEGMENTS);
    assert_eq!(INITIAL_SEGMENTS, 2);
}

#[test]
fn a_frame_before_the_tick_only_draws() {
    let mut driver = Driver::new();
    let food = driver.game().food();
    let action = driver.advance(frame(299, held(true, false, false, false)));
    assert_eq!(action, Action::Draw { restart_timer: false });
    assert_eq!(driver.phase(), Phase::Running);
    assert_eq!(driver.score(), 0);
    assert_eq!(driver.game().head(), Cell { x: 5, y: 5 });
    assert_eq!(driver.game().current_direction(), Direction::Right);
    assert_eq!(driver.game().food(), food);
}

#[test]
fn a_frame_with_the_tick_due_plays_it() {
    let mut driver = Driver::new();
    let food = driver.game().food();
    let action = driver.advance(frame(300, held(false, false, false, false)));
    assert_eq!(action, Action::Draw { restart_timer: true });
    assert_eq!(driver.phase(), Phase::Running);
    assert_eq!(driver.game().head(), Cell { x: 6, y: 5 });
    let grew = food == Cell { x: 6, y: 5 };
    assert_eq!(driver.score(), if grew { 1 } else { 0 });
    assert_eq!(driver.game().segments().len(), if grew { 3 } else { 2 });
}

#[test]
fn the_keys_of_the_frame_steer_the_snake() {
    let mut driver = Driver::new();
    driver.advance(frame(450, held(false, true, true, false)));
    assert_eq!(driver.game().head(), Cell { x: 5, y: 6 });
    assert_eq!(driver.game().current_direction(), Direction::Down);
    driver.advance(frame(300, held(true, false, false, false)));
    assert_eq!(driver.game().head(), Cell { x: 5, y: 7 });
    assert_eq!(driver.game().current_direction(), Direction::Down);
}

#[test]
fn close_stops_the_driver_without_a_score() {
    let mut driver = Driver::new();
    assert_eq!(driver.advance(Event::Close), Action::Quit);
    assert_eq!(driver.phase(), Phase::Terminated);
    assert_eq!(driver.score(), 0);
    assert_eq!(driver.game().head(), Cell { x: 5, y: 5 });
}

#[test]
fn a_stopped_driver_stays_stopped() {
    let mut driver = Driver::new();
    driver.advance(Event::Close);
    assert_eq!(driver.advance(frame(1000, held(false, false, false, true))), Action::Quit);
    assert_eq!(driver.advance(Event::Close), Action::Quit);
    assert_eq!(driver.phase(), Phase::Terminated);
    assert_eq!(driver.game().head(), Cell { x: 5, y: 5 });
    assert_eq!(driver.score(), 0);
}

#[test]
fn the_game_is_over_at_the_wall_and_the_score_is_handed_out() {
    for _ in 0..100 {
        let mut driver = Driver::new();
        for tick in 1..15 {
            let action = driver.advance(frame(300, held(false, false, false, false)));
            assert_eq!(action, Action::Draw { restart_timer: true });
            assert_eq!(driver.game().head(), Cell { x: 5 + tick, y: 5 });
            assert_eq!(driver.score() + INITIAL_SEGMENTS, driver.game().segments().len());
        }
        let score = driver.score();
        let action = driver.advance(frame(300, held(false, false, false, false)));
        assert_eq!(action, Action::GameOver { score });
        assert_eq!(driver.phase(), Phase::Terminated);
        assert_eq!(driver.game().head(), Cell { x: 20, y: 5 });
        assert_eq!(driver.score(), score);
        assert_eq!(driver.advance(frame(300, held(true, false, false, false))), Action::Quit);
        assert_eq!(driver.game().head(), Cell { x: 20, y: 5 });
    }
}

#[test]
fn the_score_counts_the_food_eaten() {
    let mut eaten_once = false;
    for _ in 0..3000 {
        let mut driver = Driver::new();
        let food = driver.game().food();
        let action = driver.advance(frame(300, held(false, false, false, false)));
        assert_eq!(action, Action::Draw { restart_timer: true });
        if food == (Cell { x: 6, y: 5 }) {
            eaten_once = true;
            assert_eq!(driver.score(), 1);
            assert_eq!(driver.game().segments().len(), 3);
            assert_ne!(driver.game().food(), food);
        } else {
            assert_eq!(driver.score(), 0);
            assert_eq!(driver.game().food(), food);
        }
    }
    assert!(eaten_once);
}

#[test]
fn a_new_driver_is_ready_for_every_event() {
    let driver = Driver::new();
    assert!(driver.ready_for(Event::Close));
    assert!(driver.ready_for(frame(0, held(false, false, false, false))));
    assert!(driver.ready_for(frame(300, held(false, false, false, false))));
    assert!(driver.ready_for(frame(300, held(true, true, true, true))));
}

#[test]
fn a_stopped_driver_is_ready_for_every_event() {
    let mut driver = Driver::new();
    driver.advance(Event::Close);
    assert!(driver.ready_for(Event::Close));
    assert!(driver.ready_for(frame(300, held(false, false, false, true))));
}
