use event_producer::producer::{ProductionAction, ProductionState, QUEUE_REPORT_INTERVAL};

#[test]
fn empty_message_stops_production() {
    let mut state = ProductionState::new();
    assert_eq!(state.on_message(&vec![]), ProductionAction::Stop);
    assert_eq!(state.counter, 0);
}

#[test]
fn messages_are_produced_and_counted() {
    let mut state = ProductionState::new();
    assert_eq!(state.on_message(&vec![1, 2, 3]), ProductionAction::Produce { report_queue: false });
    assert_eq!(state.on_message(&vec![4]), ProductionAction::Produce { report_queue: false });
    assert_eq!(state.counter, 2);
    assert_eq!(state.on_message(&vec![]), ProductionAction::Stop);
    assert_eq!(state.counter, 2);
}

#[test]
fn queue_is_reported_every_interval() {
    assert_eq!(QUEUE_REPORT_INTERVAL, 200);
    let mut state = ProductionState::new();
    let mut reports = Vec::new();
    for i in 1..=1000u64 {
        match state.on_message(&vec![0u8; 8]) {
            ProductionAction::Produce { report_queue: true } => reports.push(i),
            ProductionAction::Produce { report_queue: false } => {}
            ProductionAction::Stop => panic!("stopped on a non-empty message"),
        }
    }
    assert_eq!(reports, vec![200, 400, 600, 800, 1000]);
    assert_eq!(state.counter, 1000);
}

#[test]
fn generated_run_is_fully_produced() {
    let mut state = ProductionState::new();
    let mut produced = 0;
    for _ in 0..450 {
        if let ProductionAction::Produce { .. } = state.on_message(&vec![7u8; 16]) {
            produced += 1;
        }
    }
    assert_eq!(state.on_message(&vec![]), ProductionAction::Stop);
    assert_eq!(produced, 450);
    assert_eq!(state.counter, 450);
}

#[test]
fn nothing_is_produced_after_the_marker() {
    let messages: Vec<Vec<u8>> = vec![vec![1], vec![], vec![1]];
    let mut state = ProductionState::new();
    let mut actions = Vec::new();
    for msg in &messages {
        let action = state.on_message(msg);
        actions.push(action);
        if action == ProductionAction::Stop {
            break;
        }
    }
    assert_eq!(
        actions,
        vec![ProductionAction::Produce { report_queue: false }, ProductionAction::Stop]
    );
    assert_eq!(state.counter, 1);
}
