use atomic_disc_drive::backlog::Backlog;
use atomic_disc_drive::command::{
    ClientCommandHeader, ClientRegisterCommand, ClientRegisterCommandContent,
};
use atomic_disc_drive::config::{parse_configuration, Configuration};
use atomic_disc_drive::handlers::{count_to_five_step, Counter, PingPong, SleepyCounter, ROUNDS};

fn text(lines: &[&str], end: &str) -> Vec<u8> {
    let mut out = Vec::new();
    for line in lines {
        out.extend_from_slice(line.as_bytes());
        out.extend_from_slice(end.as_bytes());
    }
    out
}

fn keys() -> (String, String) {
    ("s".repeat(64), "c".repeat(32))
}

#[test]
fn configuration_is_read_line_by_line() {
    let (system, client) = keys();
    let lines = [&system[..], &client[..], "2097152", "localhost", "21626", "10.0.0.2", "+80"];
    let expected = Configuration {
        hmac_system_key: vec![b's'; 64],
        hmac_client_key: vec![b'c'; 32],
        tcp_locations: vec![(b"localhost".to_vec(), 21626), (b"10.0.0.2".to_vec(), 80)],
        self_rank: 2,
        n_sectors: 2097152,
    };
    assert_eq!(parse_configuration(&text(&lines, "\n"), 2), Some(expected.clone()));
    assert_eq!(parse_configuration(&text(&lines, "\r\n"), 2), Some(expected.clone()));
    let mut open_end = text(&lines, "\n");
    open_end.pop();
    assert_eq!(parse_configuration(&open_end, 2), Some(expected));
}

#[test]
fn configuration_without_processes_and_number_limits() {
    let (system, client) = keys();
    let parsed = parse_configuration(&text(&[&system, &client, "18446744073709551615"], "\n"), 7)
        .unwrap();
    assert_eq!(parsed.n_sectors, u64::MAX);
    assert_eq!(parsed.self_rank, 7);
    assert!(parsed.tcp_locations.is_empty());
    let parsed =
        parse_configuration(&text(&[&system, &client, "007", "", "65535"], "\n"), 1).unwrap();
    assert_eq!(parsed.n_sectors, 7);
    assert_eq!(parsed.tcp_locations, vec![(Vec::new(), 65535)]);
}

#[test]
fn what_is_no_configuration_is_refused() {
    let (system, client) = keys();
    let bad: Vec<Vec<&str>> = vec![
        vec![],
        vec![&system],
        vec![&system, &client],
        vec![&system[1..], &client, "1"],
        vec![&system, &client[1..], "1"],
        vec![&system, &client, ""],
        vec![&system, &client, "+"],
        vec![&system, &client, "-1"],
        vec![&system, &client, "1 "],
        vec![&system, &client, "12a"],
        vec![&system, &client, "18446744073709551616"],
        vec![&system, &client, "99999999999999999999999"],
        vec![&system, &client, "1", "host"],
        vec![&system, &client, "1", "host", "65536"],
        vec![&system, &client, "1", "host", "port"],
        vec![&system, &client, "1", "host", "1", "other"],
        vec![&system, &client, "1", "host", ""],
    ];
    for lines in bad {
        assert_eq!(parse_configuration(&text(&lines, "\n"), 1), None, "{:?}", lines);
    }
    assert_eq!(parse_configuration(b"", 1), None);
    assert_eq!(parse_configuration(b"\n\n\n", 1), None);
    let mut lone_cr = text(&[&system, &client, "1"], "\n");
    lone_cr.pop();
    lone_cr.push(b'\r');
    assert_eq!(parse_configuration(&lone_cr, 1), None);
}

#[test]
fn ping_pong_plays_its_rounds() {
    let mut ping = PingPong::new(true);
    let pong = PingPong::new(false);
    assert!(ping.on_init());
    assert!(!pong.on_init());
    for round in 0..ROUNDS {
        let (line, again) = ping.on_ball("Ping");
        assert_eq!(line, format!("In Ping: received {}\n", round));
        assert_eq!(again, round + 1 < 5);
    }
    assert_eq!(ping.received_msgs, 5);
    assert!(ping.first);
}

#[test]
fn counters_count() {
    assert_eq!(count_to_five_step(1), Some(2));
    assert_eq!(count_to_five_step(4), Some(5));
    assert_eq!(count_to_five_step(5), None);
    assert_eq!(count_to_five_step(6), Some(7));
    assert_eq!(count_to_five_step(254), Some(255));
    let mut counter = Counter::new();
    assert_eq!(counter.counter_tick(), 0);
    assert_eq!(counter.counter_tick(), 1);
    assert_eq!(counter.num, 2);
    let mut sleepy = SleepyCounter::new(50);
    assert_eq!(sleepy.counter_tick(), 0);
    assert_eq!(sleepy.counter_tick(), 1);
    assert_eq!((sleepy.num, sleepy.sleep_in_millis), (2, 50));
}

fn read_request(request_identifier: u64, sector_idx: u64) -> ClientRegisterCommand {
    ClientRegisterCommand {
        header: ClientCommandHeader { request_identifier, sector_idx },
        content: ClientRegisterCommandContent::Read,
    }
}

#[test]
fn waiting_requests_run_in_order_of_arrival_per_sector() {
    let mut backlog = Backlog::new();
    assert_eq!(backlog.take_next(1), None);
    backlog.push(read_request(10, 1), 100);
    backlog.push(read_request(20, 2), 200);
    backlog.push(read_request(11, 1), 101);
    backlog.push(read_request(21, 2), 201);
    assert_eq!(backlog.take_next(3), None);
    let next = backlog.take_next(2).unwrap();
    assert_eq!((next.request.header.request_identifier, next.client), (20, 200));
    let next = backlog.take_next(1).unwrap();
    assert_eq!((next.request.header.request_identifier, next.client), (10, 100));
    let next = backlog.take_next(1).unwrap();
    assert_eq!((next.request.header.request_identifier, next.client), (11, 101));
    assert_eq!(backlog.take_next(1), None);
    assert_eq!(backlog.waiting.len(), 1);
    assert_eq!(backlog.take_next(2).unwrap().client, 201);
    assert!(backlog.waiting.is_empty());
}
