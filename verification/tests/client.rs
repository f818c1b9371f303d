use trdelnik::client::client::{
    data_chunks, localnet_health_checks, LocalnetPoll, PollAction, PrintableTransaction,
    PROGRAM_DATA_CHUNK_SIZE,
};
use trdelnik::client::validator::{
    ledger_path, program_path, random_faucet_port, random_ledger_path, random_rpc_port, rpc_ports,
    validator_log_name, PortSearch, N_TRIES_FIND_RPC_PORT,
};

#[test]
fn program_data_is_cut_into_chunks() {
    let data: Vec<u8> = (0..2000u32).map(|i| (i % 251) as u8).collect();
    let chunks = data_chunks(&data, PROGRAM_DATA_CHUNK_SIZE);
    assert_eq!(chunks.len(), 3);
    assert_eq!(
        chunks.iter().map(|c| (c.offset, c.bytes.len())).collect::<Vec<_>>(),
        vec![(0, 900), (900, 900), (1800, 200)]
    );
    let joined: Vec<u8> = chunks.iter().flat_map(|c| c.bytes.clone()).collect();
    assert_eq!(joined, data);
}

#[test]
fn program_data_edge_cases() {
    assert!(data_chunks(&vec![], 900).is_empty());
    let exact = vec![7u8; 1800];
    let chunks = data_chunks(&exact, 900);
    assert_eq!(chunks.len(), 2);
    assert_eq!(chunks[1].offset, 900);
    let small = data_chunks(&vec![1, 2, 3], 2);
    assert_eq!(small[1].bytes, vec![3]);
}

#[test]
fn localnet_is_polled_for_fifteen_seconds() {
    assert_eq!(localnet_health_checks(true, 15_000), 30);
    assert_eq!(localnet_health_checks(false, 15_000), 1);
    assert_eq!(localnet_health_checks(true, 499), 0);
}

/// Runs a poll whose health checks are answered by `answers`, one per check;
/// returns the result, the number of checks made and the waits.
fn run_poll(retry: bool, timeout: u64, answers: &[bool]) -> (bool, usize, Vec<u64>) {
    let mut poll = LocalnetPoll::new(retry, timeout);
    let mut checks = 0;
    let mut waits = vec![];
    let mut action = poll.next_action();
    loop {
        action = match action {
            PollAction::CheckHealth => {
                checks += 1;
                poll.after_check(answers[checks - 1])
            }
            PollAction::Wait(millis) => {
                waits.push(millis);
                poll.next_action()
            }
            PollAction::Done(running) => return (running, checks, waits),
        };
    }
}

#[test]
fn a_poll_that_is_never_answered_waits_fifteen_seconds() {
    let (running, checks, waits) = run_poll(true, 15_000, &[false; 30]);
    assert!(!running);
    assert_eq!(checks, 30);
    assert_eq!(waits, vec![500; 30]);
}

#[test]
fn a_poll_stops_at_the_first_answer() {
    let (running, checks, waits) = run_poll(true, 15_000, &[false, false, true]);
    assert!(running);
    assert_eq!(checks, 3);
    assert_eq!(waits, vec![500, 500]);
}

#[test]
fn a_poll_without_retry_checks_once() {
    assert_eq!(run_poll(false, 15_000, &[false]), (false, 1, vec![]));
    assert_eq!(run_poll(false, 15_000, &[true]), (true, 1, vec![]));
    assert_eq!(run_poll(true, 499, &[]), (false, 0, vec![]));
}

struct Recorded(std::cell::RefCell<Vec<String>>);

impl PrintableTransaction for Recorded {
    fn print_named(&self, name: &str) {
        self.0.borrow_mut().push(name.to_string());
    }
}

#[test]
fn printing_without_a_name_uses_the_empty_name() {
    let t = Recorded(std::cell::RefCell::new(vec![]));
    t.print();
    t.print_named("deploy");
    assert_eq!(*t.0.borrow(), vec!["".to_string(), "deploy".to_string()]);
}

#[test]
fn validator_paths() {
    assert_eq!(program_path("turnstile"), "../target/deploy/turnstile.so");
    assert_eq!(ledger_path(0), "../target/tmp/test-ledger-0/");
    assert_eq!(ledger_path(255), "../target/tmp/test-ledger-255/");
    assert_eq!(validator_log_name(1700000000123), "validator-1700000000123.log");
    let random = random_ledger_path();
    assert!(random.starts_with("../target/tmp/test-ledger-") && random.ends_with('/'));
}

#[test]
fn validator_ports() {
    assert_eq!(N_TRIES_FIND_RPC_PORT, 10);
    for _ in 0..200 {
        let port = random_rpc_port();
        assert!((10000..19999).contains(&port));
        assert_eq!(rpc_ports(port), (port, port + 1));
        let faucet = random_faucet_port();
        assert!((30000..65535).contains(&faucet));
    }
}

#[test]
fn a_port_search_draws_ten_candidates() {
    let mut search = PortSearch::new();
    let mut drawn = 0;
    while let Some((rpc, websocket)) = search.next_rpc_ports() {
        assert!((10000..19999).contains(&rpc));
        assert_eq!(websocket, rpc + 1);
        drawn += 1;
    }
    assert_eq!(drawn, 10);
    assert_eq!(search.next_rpc_ports(), None);

    let mut search = PortSearch::new();
    let mut drawn = 0;
    while let Some(port) = search.next_faucet_port() {
        assert!((30000..65535).contains(&port));
        drawn += 1;
    }
    assert_eq!(drawn, 10);
}
