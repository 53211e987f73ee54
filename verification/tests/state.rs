use probe_zmq::probe::config::ProbeConfig;
use probe_zmq::probe::state::AppState;
use probe_zmq::probe::state::Probe;
use probe_zmq::probe::state::MESSAGE_BUFFER_SIZE;
use probe_zmq::probe::state::RING_BUFFER_SIZE;

fn probe_with_filter(name: &str, filter: &str) -> Probe {
    Probe::from(ProbeConfig {
        name: name.to_string(),
        filter: Some(filter.to_string()),
        address: String::new(),
    })
}

#[test]
fn test_appstate_probes_for_tab() {
    // Create some test probe configs
    let configs = vec![
        ProbeConfig {
            name: "probe1".to_string(),
            filter: Some(".*".to_string()),
            address: "localhost:1234".to_string(),
        },
        ProbeConfig {
            name: "probe2".to_string(),
            filter: Some(".*".to_string()),
            address: "localhost:1234".to_string(),
        },
        ProbeConfig {
            name: "probe3".to_string(),
            filter: Some(".*".to_string()),
            address: "localhost:1234".to_string(),
        },
        ProbeConfig {
            name: "probe4".to_string(),
            filter: Some(".*".to_string()),
            address: "localhost:1234".to_string(),
        },
        ProbeConfig {
            name: "probe5".to_string(),
            filter: Some(".*".to_string()),
            address: "localhost:1234".to_string(),
        },
    ];

    let app_state = AppState::from_probes(&configs);

    // Test first tab with 2 probes per tab
    let first_tab = app_state.probes_for_tab(0, 2);
    assert_eq!(first_tab.len(), 2);
    assert_eq!(first_tab[0].name, "probe1");
    assert_eq!(first_tab[1].name, "probe2");

    // Test second tab with 2 probes per tab
    let second_tab = app_state.probes_for_tab(1, 2);
    assert_eq!(second_tab.len(), 2);
    assert_eq!(second_tab[0].name, "probe3");
    assert_eq!(second_tab[1].name, "probe4");

    // Test third tab with 2 probes per tab (partial)
    let third_tab = app_state.probes_for_tab(2, 2);
    assert_eq!(third_tab.len(), 1);
    assert_eq!(third_tab[0].name, "probe5");
}

#[test]
fn test_probe_process_message_with_filter() {
    let mut probe = probe_with_filter("test_probe", "error");

    // Message that matches filter
    probe.process_message("This is an error message");
    assert_eq!(probe.count, 1);
    assert_eq!(probe.ring_buffer, 1);
    assert_eq!(probe.messages.len(), 1);

    // Message that doesn't match filter
    probe.process_message("This is a regular message");
    assert_eq!(probe.count, 1); // should not increase
    assert_eq!(probe.ring_buffer, 1); // should not increase
    assert_eq!(probe.messages.len(), 1); // should not increase
}

#[test]
fn test_probe_process_message_without_filter() {
    let mut probe = probe_with_filter("test_probe", "");

    // Empty filter should accept all messages but not increase counters
    probe.process_message("This is a regular message");
    assert_eq!(probe.count, 0); // should not increase with empty filter
    assert_eq!(probe.ring_buffer, 0); // should not increase with empty filter
    assert_eq!(probe.messages.len(), 1); // should still store the message
}

#[test]
fn test_update_message_buffer_capacity() {
    let mut probe = probe_with_filter("test_probe", ".*");

    // Add more than the capacity (MESSAGE_BUFFER_SIZE) messages
    for i in 0..MESSAGE_BUFFER_SIZE + 5 {
        probe.update_message_buffer(&format!("Message {i}"));
    }

    // Should only keep the most recent MESSAGE_BUFFER_SIZE messages
    assert_eq!(probe.messages.len(), MESSAGE_BUFFER_SIZE);
    // The newest message should be at the front
    assert_eq!(probe.messages.front().unwrap(), "Message 64");
    // The oldest kept message should be at the back
    assert_eq!(probe.messages.back().unwrap(), "Message 5");
}

#[test]
fn test_update_state_ring_buffer() {
    let mut probe = probe_with_filter("test_probe", ".*");
    probe.ring_buffer = 42; // Set some value to be transferred to ring

    probe.update_state();
    assert_eq!(probe.ring_buffer, 0); // Should be reset
    assert_eq!(probe.ring.len(), 1);
    assert_eq!(probe.ring.front().unwrap(), &42);

    // Add a few more updates
    probe.ring_buffer = 7;
    probe.update_state();
    probe.ring_buffer = 13;
    probe.update_state();

    assert_eq!(probe.ring.len(), 3);
    let histogram = probe.histogram();
    assert_eq!(histogram, vec![13, 7, 42]);
}

#[test]
fn test_probe_histogram_empty() {
    let probe = probe_with_filter("test", ".*");

    let hist = probe.histogram();
    assert_eq!(hist.len(), 0);
}

#[test]
fn fresh_probe_starts_empty() {
    let probe = probe_with_filter("p", "a+b");
    assert_eq!(probe.name, "p");
    assert_eq!(probe.filter, "a+b");
    assert_eq!(probe.count, 0);
    assert_eq!(probe.ring_buffer, 0);
    assert_eq!(probe.ring.len(), 0);
    assert_eq!(probe.messages.len(), 0);
    assert!(probe.matcher.is_some());
    assert!(probe.ready());
}

#[test]
fn probe_without_pattern_has_empty_pattern_text() {
    let probe = Probe::from(ProbeConfig {
        name: "p".to_string(),
        filter: None,
        address: "tcp://127.0.0.1:5556".to_string(),
    });
    assert_eq!(probe.filter, "");
    assert!(probe.matcher.is_none());
    assert!(probe.ready());
}

#[test]
fn probe_without_pattern_logs_and_never_counts() {
    let mut probe = Probe::from(ProbeConfig {
        name: "p".to_string(),
        filter: None,
        address: String::new(),
    });
    for body in ["", "error", "anything at all", "\n"] {
        probe.process_message(body);
    }
    assert_eq!(probe.count, 0);
    assert_eq!(probe.ring_buffer, 0);
    assert_eq!(probe.messages.len(), 4);
    assert_eq!(probe.messages.front().unwrap(), "\n");
    assert_eq!(probe.messages.back().unwrap(), "");
}

#[test]
fn probe_with_pattern_counts_each_match_once() {
    let mut probe = probe_with_filter("p", "^[0-9]+ ok$");
    probe.process_message("17 ok");
    probe.process_message("17 failed");
    probe.process_message("x 17 ok");
    probe.process_message("0 ok");
    assert_eq!(probe.count, 2);
    assert_eq!(probe.ring_buffer, 2);
    assert_eq!(probe.messages.len(), 2);
    assert_eq!(probe.messages.front().unwrap(), "0 ok");
    assert_eq!(probe.messages.back().unwrap(), "17 ok");
    assert_eq!(probe.ring.len(), 0);
}

#[test]
fn pattern_that_does_not_compile_leaves_no_matcher() {
    let probe = probe_with_filter("p", "foo(bar");
    assert_eq!(probe.filter, "foo(bar");
    assert!(probe.matcher.is_none());
    assert!(!probe.ready());
}

#[test]
fn full_counters_are_not_ready() {
    let mut probe = probe_with_filter("p", "x");
    probe.count = u32::MAX;
    assert!(!probe.ready());
    probe.count = 0;
    probe.ring_buffer = u64::MAX;
    assert!(!probe.ready());
    probe.ring_buffer = u64::MAX - 1;
    assert!(probe.ready());
    probe.filter = String::new();
    probe.count = u32::MAX;
    probe.ring_buffer = u64::MAX;
    assert!(probe.ready());
}

#[test]
fn apply_match_follows_the_answer() {
    let mut probe = probe_with_filter("p", "x");
    probe.apply_match("one", true);
    assert_eq!((probe.count, probe.ring_buffer, probe.messages.len()), (1, 1, 1));
    probe.apply_match("two", false);
    assert_eq!((probe.count, probe.ring_buffer, probe.messages.len()), (1, 1, 1));
    assert_eq!(probe.messages.front().unwrap(), "one");

    let mut silent = probe_with_filter("q", "");
    silent.apply_match("one", true);
    silent.apply_match("two", false);
    assert_eq!((silent.count, silent.ring_buffer, silent.messages.len()), (0, 0, 2));
    assert_eq!(silent.messages.front().unwrap(), "two");
}

#[test]
fn message_log_holds_sixty() {
    let mut probe = probe_with_filter("p", "");
    for i in 0..60 {
        probe.process_message(&format!("m{i}"));
    }
    assert_eq!(probe.messages.len(), 60);
    assert_eq!(probe.messages.back().unwrap(), "m0");
    probe.process_message("m60");
    assert_eq!(probe.messages.len(), 60);
    assert_eq!(probe.messages.front().unwrap(), "m60");
    assert_eq!(probe.messages.back().unwrap(), "m1");
    assert_eq!(probe.messages.get(1), "m59");
}

#[test]
fn history_holds_one_hundred_and_eighty() {
    let mut probe = probe_with_filter("p", "x");
    for i in 0..RING_BUFFER_SIZE {
        probe.ring_buffer = i as u64;
        probe.update_state();
        assert_eq!(probe.ring.len(), i + 1);
    }
    assert_eq!(probe.ring.len(), 180);
    assert_eq!(probe.ring.back().unwrap(), &0);
    probe.ring_buffer = 1000;
    probe.update_state();
    assert_eq!(probe.ring.len(), 180);
    assert_eq!(probe.ring.front().unwrap(), &1000);
    assert_eq!(probe.ring.back().unwrap(), &1);
    let histogram = probe.histogram();
    assert_eq!(histogram.len(), 180);
    assert_eq!(histogram[0], 1000);
    assert_eq!(histogram[1], 179);
    assert_eq!(histogram[179], 1);
}

#[test]
fn tick_moves_the_interval_count_into_the_history() {
    let mut probe = probe_with_filter("p", "a");
    probe.process_message("a");
    probe.process_message("aa");
    probe.process_message("b");
    assert_eq!(probe.histogram(), Vec::<u64>::new());
    probe.update_state();
    assert_eq!(probe.histogram(), vec![2]);
    assert_eq!(probe.ring_buffer, 0);
    assert_eq!(probe.count, 2);
    probe.update_state();
    assert_eq!(probe.histogram(), vec![0, 2]);
    assert_eq!(probe.messages.len(), 2);
}

#[test]
fn messages_are_joined_newest_first() {
    let mut probe = probe_with_filter("p", "");
    assert_eq!(probe.clone().messages(), "");
    probe.process_message("first");
    assert_eq!(probe.clone().messages(), "first");
    probe.process_message("second");
    probe.process_message("third");
    assert_eq!(probe.messages(), "third\nsecond\nfirst");
}

#[test]
fn clone_copies_everything() {
    let mut probe = probe_with_filter("p", "a");
    probe.process_message("a1");
    probe.update_state();
    probe.process_message("a2");
    let copy = probe.clone();
    assert_eq!(copy.name, "p");
    assert_eq!(copy.filter, "a");
    assert_eq!(copy.count, 2);
    assert_eq!(copy.ring_buffer, 1);
    assert_eq!(copy.histogram(), vec![1]);
    assert_eq!(copy.matcher.as_ref().unwrap().as_str(), "a");
    assert_eq!(copy.messages(), "a2\na1");
    // the first probe is untouched by what happens to a copy
    let mut other = probe.clone();
    other.process_message("a3");
    assert_eq!(probe.count, 2);
    assert_eq!(other.count, 3);
}

#[test]
fn from_probes_keeps_the_order() {
    let configs = vec![
        ProbeConfig { name: "b".to_string(), filter: None, address: String::new() },
        ProbeConfig { name: "a".to_string(), filter: Some("x".to_string()), address: String::new() },
    ];
    let state = AppState::from_probes(&configs);
    assert!(!state.detail_view);
    assert_eq!(state.probes.len(), 2);
    assert_eq!(state.probes[0].name, "b");
    assert_eq!(state.probes[0].filter, "");
    assert_eq!(state.probes[1].name, "a");
    assert_eq!(state.probes[1].filter, "x");
    let none = AppState::from_probes(&[]);
    assert_eq!(none.probes.len(), 0);
}

#[test]
fn probes_for_tab_at_the_edges() {
    let configs: Vec<ProbeConfig> = (0..4)
        .map(|i| ProbeConfig { name: format!("{i}"), filter: None, address: String::new() })
        .collect();
    let state = AppState::from_probes(&configs);
    // a page that starts exactly at the end of the list is empty
    assert_eq!(state.probes_for_tab(2, 2).len(), 0);
    assert_eq!(state.probes_for_tab(1, 4).len(), 0);
    // a page size of zero gives empty pages
    assert_eq!(state.probes_for_tab(3, 0).len(), 0);
    // one page larger than the list
    let all = state.probes_for_tab(0, usize::MAX);
    assert_eq!(all.len(), 4);
    assert_eq!(all[3].name, "3");
    let tail = state.probes_for_tab(1, 3);
    assert_eq!(tail.len(), 1);
    assert_eq!(tail[0].name, "3");
}

#[test]
fn full_counters_still_take_a_message_that_does_not_match() {
    let mut probe = probe_with_filter("p", "x");
    probe.count = u32::MAX;
    probe.ring_buffer = u64::MAX;
    probe.process_message("no match here");
    assert_eq!(probe.count, u32::MAX);
    assert_eq!(probe.ring_buffer, u64::MAX);
    assert_eq!(probe.messages.len(), 0);
    probe.update_state();
    assert_eq!(probe.histogram(), vec![u64::MAX]);
    assert_eq!(probe.ring_buffer, 0);
}

#[test]
fn can_process_depends_on_the_message() {
    let mut probe = probe_with_filter("p", "x");
    assert!(probe.can_process("x"));
    assert!(probe.can_process("y"));
    probe.count = u32::MAX;
    assert!(!probe.can_process("a match: x"));
    assert!(probe.can_process("none"));
    probe.count = 5;
    probe.ring_buffer = u64::MAX;
    assert!(!probe.can_process("x"));
    assert!(probe.can_process(""));
    // without a pattern nothing is counted, so there is always room
    let mut silent = probe_with_filter("q", "");
    silent.count = u32::MAX;
    silent.ring_buffer = u64::MAX;
    assert!(silent.can_process("x"));
    // a pattern that did not compile cannot be asked
    let broken = probe_with_filter("r", "(");
    assert!(!broken.can_process("x"));
    assert!(!broken.can_process(""));
}
