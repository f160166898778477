use lambda_test_format::collector::Collector;
use lambda_test_format::dispatch::{dispatch_plan, task_message, ContextRun, Mode, SERIES_LABEL};

/// Runs every context of a plan to its end, feeding a collector, and returns
/// what the collector handed back to be logged.
fn collect(mode: Mode, threads: u64, tasks: u64) -> (Vec<String>, bool) {
    let plan = dispatch_plan(mode, threads);
    let mut collector = Collector::new();
    let mut logged = Vec::new();
    for label in plan.labels {
        let mut run = ContextRun::new(label, tasks);
        while let Some(m) = run.next_message() {
            if let Some(line) = collector.receive(Some(m)) {
                logged.push(line);
            }
        }
    }
    assert!(!collector.is_terminated());
    assert_eq!(collector.receive(None), None);
    (logged, collector.is_terminated())
}

#[test]
fn series_plan_runs_one_context_in_place() {
    let plan = dispatch_plan(Mode::Series, 5);
    assert!(!plan.spawn);
    assert_eq!(plan.labels, vec![SERIES_LABEL]);
    assert_eq!(SERIES_LABEL, 1);
}

#[test]
fn parallel_plan_spawns_labelled_contexts() {
    let plan = dispatch_plan(Mode::Parallel, 4);
    assert!(plan.spawn);
    assert_eq!(plan.labels, vec![1, 2, 3, 4]);
}

#[test]
fn parallel_plan_with_no_threads_is_empty() {
    let plan = dispatch_plan(Mode::Parallel, 0);
    assert!(plan.spawn);
    assert!(plan.labels.is_empty());
}

#[test]
fn task_message_embeds_the_label() {
    assert_eq!(task_message(1), "thread number: 1");
    assert_eq!(task_message(0), "thread number: 0");
    assert_eq!(task_message(42), "thread number: 42");
    assert_eq!(task_message(u64::MAX), format!("thread number: {}", u64::MAX));
}

#[test]
fn context_run_sends_its_tasks_then_ends() {
    let mut run = ContextRun::new(7, 2);
    assert_eq!(run.next_message(), Some("thread number: 7".to_string()));
    assert_eq!(run.remaining, 1);
    assert_eq!(run.next_message(), Some("thread number: 7".to_string()));
    assert_eq!(run.next_message(), None);
    assert_eq!(run.next_message(), None);
    assert_eq!(run.label, 7);
    assert_eq!(run.remaining, 0);
}

#[test]
fn series_three_tasks_logs_three_series_messages() {
    let (logged, terminated) = collect(Mode::Series, 9, 3);
    assert!(terminated);
    assert_eq!(logged.len(), 3);
    assert!(logged.iter().all(|m| m == "thread number: 1"));
}

#[test]
fn parallel_two_threads_two_tasks_logs_four_messages() {
    let (logged, terminated) = collect(Mode::Parallel, 2, 2);
    assert!(terminated);
    assert_eq!(logged.len(), 4);
    assert_eq!(logged.iter().filter(|m| *m == "thread number: 1").count(), 2);
    assert_eq!(logged.iter().filter(|m| *m == "thread number: 2").count(), 2);
}

#[test]
fn parallel_counts_each_label_tasks_times() {
    let (logged, _) = collect(Mode::Parallel, 5, 3);
    assert_eq!(logged.len(), 15);
    for label in 1..=5u64 {
        let text = format!("thread number: {}", label);
        assert_eq!(logged.iter().filter(|m| **m == text).count(), 3);
    }
}

#[test]
fn zero_tasks_or_threads_send_nothing_and_terminate() {
    let (logged, terminated) = collect(Mode::Series, 1, 0);
    assert!(logged.is_empty());
    assert!(terminated);
    let (logged, terminated) = collect(Mode::Parallel, 0, 4);
    assert!(logged.is_empty());
    assert!(terminated);
    let (logged, terminated) = collect(Mode::Parallel, 3, 0);
    assert!(logged.is_empty());
    assert!(terminated);
}
