use pixi_conda::coordinator::{Coordinator, Ticket};
use std::cell::Cell;

#[test]
fn first_request_runs_and_later_ones_wait_then_read() {
    let mut coordinator: Coordinator<u32> = Coordinator::new();
    assert_eq!(coordinator.begin("tools"), Ticket::Run);
    assert_eq!(coordinator.begin("tools"), Ticket::Wait);
    assert_eq!(coordinator.begin("tools"), Ticket::Wait);
    assert_eq!(coordinator.get("tools"), None);
    assert!(coordinator.finish("tools", 7));
    assert_eq!(coordinator.begin("tools"), Ticket::Ready(&7));
    assert_eq!(coordinator.begin("tools"), Ticket::Ready(&7));
    assert_eq!(coordinator.get("tools"), Some(&7));
}

#[test]
fn exactly_one_of_many_requests_runs() {
    let mut coordinator: Coordinator<u32> = Coordinator::new();
    let mut runs = 0;
    for round in 0..10 {
        if coordinator.begin("tools") == Ticket::Run {
            runs += 1;
        }
        if round == 4 {
            coordinator.finish("tools", 1);
        }
    }
    assert_eq!(runs, 1);
}

#[test]
fn environments_do_not_share_cells() {
    let mut coordinator: Coordinator<&'static str> = Coordinator::new();
    assert_eq!(coordinator.begin("a"), Ticket::Run);
    assert_eq!(coordinator.begin("b"), Ticket::Run);
    assert!(coordinator.finish("b", "result of b"));
    assert_eq!(coordinator.begin("a"), Ticket::Wait);
    assert_eq!(coordinator.begin("b"), Ticket::Ready(&"result of b"));
    assert!(coordinator.finish("a", "result of a"));
    assert_eq!(coordinator.get("a"), Some(&"result of a"));
    assert_eq!(coordinator.get("b"), Some(&"result of b"));
    assert_eq!(coordinator.get("c"), None);
}

#[test]
fn a_resolved_cell_keeps_its_result() {
    let mut coordinator: Coordinator<u32> = Coordinator::new();
    coordinator.begin("tools");
    assert!(coordinator.finish("tools", 1));
    assert!(!coordinator.finish("tools", 2));
    assert_eq!(coordinator.get("tools"), Some(&1));
}

#[test]
fn a_report_without_a_request_is_dropped() {
    let mut coordinator: Coordinator<u32> = Coordinator::new();
    assert!(!coordinator.finish("tools", 1));
    assert_eq!(coordinator.get("tools"), None);
    assert_eq!(coordinator.begin("tools"), Ticket::Run);
}

#[test]
fn get_or_run_runs_once_and_hands_out_the_same_result() {
    let mut coordinator: Coordinator<u32> = Coordinator::new();
    let calls = Cell::new(0u32);
    for _ in 0..5 {
        let result = coordinator.get_or_run("tools", || {
            calls.set(calls.get() + 1);
            40 + calls.get()
        });
        assert_eq!(result, Some(&41));
    }
    assert_eq!(calls.get(), 1);
    assert_eq!(coordinator.begin("tools"), Ticket::Ready(&41));
}

#[test]
fn get_or_run_stores_a_failure_like_any_result() {
    let mut coordinator: Coordinator<Result<u32, String>> = Coordinator::new();
    let first = coordinator.get_or_run("tools", || Err("solver broke".to_string())).cloned();
    let second = coordinator.get_or_run("tools", || Ok(1)).cloned();
    assert_eq!(first, Some(Err("solver broke".to_string())));
    assert_eq!(second, first);
}

#[test]
fn get_or_run_does_not_run_while_another_run_is_in_flight() {
    let mut coordinator: Coordinator<u32> = Coordinator::new();
    assert_eq!(coordinator.begin("tools"), Ticket::Run);
    let calls = Cell::new(0u32);
    let result = coordinator.get_or_run("tools", || {
        calls.set(1);
        5
    });
    assert_eq!(result, None);
    assert_eq!(calls.get(), 0);
}
