use pretty_logging::{ConsumerStep, OutputChannel, Pipeline, QueueEntry};

fn entry(channel: OutputChannel, line: &str) -> QueueEntry {
    QueueEntry { channel, line: line.to_string() }
}

fn written(step: ConsumerStep) -> (OutputChannel, String) {
    match step {
        ConsumerStep::Write(command) => (command.channel, command.text),
        other => panic!("expected a write, got {other:?}"),
    }
}

#[test]
fn new_pipeline_is_empty_and_waits() {
    let mut pipeline = Pipeline::new();
    assert_eq!(pipeline.pending_len(), 0);
    assert!(matches!(pipeline.next_step(), ConsumerStep::Wait));
    assert!(matches!(pipeline.next_step(), ConsumerStep::Wait));
}

#[test]
fn written_line_ends_with_a_terminator() {
    let mut pipeline = Pipeline::new();
    assert!(pipeline.enqueue(entry(OutputChannel::Standard, "hello")));
    assert_eq!(written(pipeline.next_step()), (OutputChannel::Standard, "hello\n".to_string()));
}

#[test]
fn empty_line_is_written_as_a_terminator() {
    let mut pipeline = Pipeline::new();
    assert!(pipeline.enqueue(entry(OutputChannel::Error, "")));
    assert_eq!(written(pipeline.next_step()), (OutputChannel::Error, "\n".to_string()));
}

#[test]
fn entries_leave_in_arrival_order() {
    let mut pipeline = Pipeline::new();
    for index in 0..100 {
        assert!(pipeline.enqueue(entry(OutputChannel::Standard, &format!("line {index}"))));
    }
    assert_eq!(pipeline.pending_len(), 100);
    for index in 0..100 {
        assert_eq!(
            written(pipeline.next_step()),
            (OutputChannel::Standard, format!("line {index}\n"))
        );
    }
    assert!(matches!(pipeline.next_step(), ConsumerStep::Wait));
}

#[test]
fn arrival_order_holds_across_streams() {
    let mut pipeline = Pipeline::new();
    pipeline.enqueue(entry(OutputChannel::Standard, "a"));
    pipeline.enqueue(entry(OutputChannel::Error, "b"));
    pipeline.enqueue(entry(OutputChannel::Standard, "c"));
    pipeline.enqueue(entry(OutputChannel::Error, "d"));
    assert_eq!(written(pipeline.next_step()), (OutputChannel::Standard, "a\n".to_string()));
    assert_eq!(written(pipeline.next_step()), (OutputChannel::Error, "b\n".to_string()));
    assert_eq!(written(pipeline.next_step()), (OutputChannel::Standard, "c\n".to_string()));
    assert_eq!(written(pipeline.next_step()), (OutputChannel::Error, "d\n".to_string()));
}

#[test]
fn two_producers_keep_their_own_order() {
    let mut pipeline = Pipeline::new();
    let arrivals = [
        "first-0", "second-0", "second-1", "first-1", "first-2", "second-2", "second-3", "first-3",
    ];
    for line in arrivals {
        pipeline.enqueue(entry(OutputChannel::Standard, line));
    }
    let mut writes = Vec::new();
    while let ConsumerStep::Write(command) = pipeline.next_step() {
        writes.push(command.text.trim_end().to_string());
    }
    assert_eq!(writes, arrivals);
    let of_first: Vec<&String> = writes.iter().filter(|w| w.starts_with("first")).collect();
    assert_eq!(of_first, ["first-0", "first-1", "first-2", "first-3"]);
    let of_second: Vec<&String> = writes.iter().filter(|w| w.starts_with("second")).collect();
    assert_eq!(of_second, ["second-0", "second-1", "second-2", "second-3"]);
}

#[test]
fn enqueues_and_writes_can_alternate() {
    let mut pipeline = Pipeline::new();
    pipeline.enqueue(entry(OutputChannel::Standard, "1"));
    pipeline.enqueue(entry(OutputChannel::Standard, "2"));
    assert_eq!(written(pipeline.next_step()).1, "1\n");
    pipeline.enqueue(entry(OutputChannel::Error, "3"));
    assert_eq!(pipeline.pending_len(), 2);
    assert_eq!(written(pipeline.next_step()).1, "2\n");
    assert_eq!(written(pipeline.next_step()), (OutputChannel::Error, "3\n".to_string()));
    assert!(matches!(pipeline.next_step(), ConsumerStep::Wait));
    pipeline.enqueue(entry(OutputChannel::Standard, "4"));
    assert_eq!(written(pipeline.next_step()).1, "4\n");
}

#[test]
fn equal_entries_are_each_written_once() {
    let mut pipeline = Pipeline::new();
    pipeline.enqueue(entry(OutputChannel::Standard, "same"));
    pipeline.enqueue(entry(OutputChannel::Standard, "same"));
    assert_eq!(written(pipeline.next_step()).1, "same\n");
    assert_eq!(written(pipeline.next_step()).1, "same\n");
    assert!(matches!(pipeline.next_step(), ConsumerStep::Wait));
}

#[test]
fn closed_pipeline_stops_once_drained() {
    let mut pipeline = Pipeline::new();
    pipeline.enqueue(entry(OutputChannel::Standard, "last words"));
    pipeline.close();
    assert_eq!(written(pipeline.next_step()).1, "last words\n");
    assert!(matches!(pipeline.next_step(), ConsumerStep::Stop));
    assert!(matches!(pipeline.next_step(), ConsumerStep::Stop));
}

#[test]
fn closed_pipeline_takes_nothing() {
    let mut pipeline = Pipeline::new();
    pipeline.close();
    assert!(!pipeline.enqueue(entry(OutputChannel::Error, "too late")));
    assert_eq!(pipeline.pending_len(), 0);
    assert!(matches!(pipeline.next_step(), ConsumerStep::Stop));
}

#[test]
fn closing_twice_changes_nothing() {
    let mut pipeline = Pipeline::new();
    pipeline.enqueue(entry(OutputChannel::Standard, "x"));
    pipeline.close();
    pipeline.close();
    assert_eq!(pipeline.pending_len(), 1);
    assert_eq!(written(pipeline.next_step()).1, "x\n");
}

#[test]
fn four_producers_taking_turns_keep_their_own_order() {
    let mut pipeline = Pipeline::new();
    let mut sent = [0usize; 4];
    let mut turn = 1usize;
    while sent.iter().sum::<usize>() < 200 {
        turn = (turn * 7 + 3) % 11;
        let producer = turn % 4;
        if sent[producer] < 50 {
            let line = format!("{producer}:{}", sent[producer]);
            assert!(pipeline.enqueue(entry(OutputChannel::Standard, &line)));
            sent[producer] += 1;
        }
    }
    let mut next_of = [0usize; 4];
    let mut total = 0;
    while let ConsumerStep::Write(command) = pipeline.next_step() {
        let (producer, index) = command.text.trim_end().split_once(':').unwrap();
        let producer: usize = producer.parse().unwrap();
        let index: usize = index.parse().unwrap();
        assert_eq!(index, next_of[producer]);
        next_of[producer] += 1;
        total += 1;
    }
    assert_eq!(total, 200);
    assert_eq!(next_of, [50, 50, 50, 50]);
}
