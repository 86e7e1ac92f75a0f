use atomic_disc_drive::fibonacci::fib;
use atomic_disc_drive::report::prepare_msg;
use atomic_disc_drive::timer::Timer;

#[test]
fn prepare_msg_formats_name_and_round() {
    assert_eq!(prepare_msg("Ping", 0), "In Ping: received 0\n");
    assert_eq!(prepare_msg("Pong", 4), "In Pong: received 4\n");
    assert_eq!(prepare_msg("Pong", 10), "In Pong: received 10\n");
    assert_eq!(prepare_msg("", 4294967295), "In : received 4294967295\n");
    assert_eq!(prepare_msg("x", 1203), "In x: received 1203\n");
}

#[test]
fn timer_fires_once_on_second_tick() {
    let mut timer = Timer::new();
    assert!(!timer.first_tick_received);
    assert!(!timer.handle_tick());
    assert!(timer.first_tick_received);
    assert!(timer.handle_tick());
    assert!(!timer.handle_tick());
    assert!(!timer.handle_tick());
}

#[test]
fn fib_ends() {
    fib(10);
}

#[test]
fn fib_values() {
    assert_eq!(fib(0), Some(0));
    assert_eq!(fib(1), Some(1));
    assert_eq!(fib(10), Some(55));
    assert_eq!(fib(93), Some(12200160415121876738));
    assert_eq!(fib(94), None);
    assert_eq!(fib(1000), None);
}
