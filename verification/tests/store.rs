use alloy::primitives::B256;
use telos::store::{event_row, EventRow, Stage, Store};

const STAGES: [Stage; 5] =
    [Stage::Observed, Stage::Quoted, Stage::Simulated, Stage::Decided, Stage::Settled];

#[test]
fn stage_names() {
    let names: Vec<&str> = STAGES.iter().map(|s| s.as_str()).collect();
    assert_eq!(names, ["observed", "quoted", "simulated", "decided", "settled"]);
}

#[test]
fn rows_name_the_intent_in_hex() {
    let row = event_row(&[0xab; 32], Stage::Quoted, "{}".to_string(), Some(17));
    assert_eq!(row.intent_id, format!("{:#x}", B256::from([0xab; 32])));
    assert_eq!(row.stage, "quoted");
    assert_eq!(row.payload_json, "{}");
    assert_eq!(row.created_at, 17);
}

#[test]
fn times_fit_the_column() {
    for (now, expected) in [
        (None, 0),
        (Some(0), 0),
        (Some(i64::MAX as u64), i64::MAX),
        (Some(i64::MAX as u64 + 1), i64::MIN),
        (Some(u64::MAX), -1),
    ] {
        let row = event_row(&[0; 32], Stage::Observed, String::new(), now);
        assert_eq!(row.created_at, expected);
        assert_eq!(row.created_at, now.map(|n| n as i64).unwrap_or(0));
    }
}

#[test]
fn pending_counts_observed_intents_without_settlement() {
    let mut store = Store::new();
    assert_eq!(store.count_pending(), 0);
    let mut record = |id: u8, stage: Stage| {
        store.record_event(&[id; 32], stage, "null".to_string(), Some(1));
        store.count_pending()
    };
    assert_eq!(record(1, Stage::Observed), 1);
    assert_eq!(record(1, Stage::Observed), 1);
    assert_eq!(record(2, Stage::Observed), 2);
    assert_eq!(record(1, Stage::Quoted), 2);
    assert_eq!(record(1, Stage::Simulated), 2);
    assert_eq!(record(1, Stage::Decided), 2);
    assert_eq!(record(1, Stage::Settled), 1);
    assert_eq!(record(1, Stage::Observed), 1);
    // A settlement that was never observed is not in flight either.
    assert_eq!(record(3, Stage::Settled), 1);
    assert_eq!(record(3, Stage::Observed), 1);
    // A quote alone is no observation.
    assert_eq!(record(4, Stage::Quoted), 1);
    assert_eq!(record(2, Stage::Settled), 0);
}

#[test]
fn rows_that_were_read_count_the_same() {
    let row = |id: &str, stage: &str| EventRow {
        intent_id: id.to_string(),
        stage: stage.to_string(),
        payload_json: "null".to_string(),
        created_at: 0,
    };
    let store = Store::from_rows(vec![
        row("a", "observed"),
        row("b", "observed"),
        row("b", "settled"),
        row("c", "Observed"),
        row("d", "observed"),
        row("d", "observed"),
    ]);
    assert_eq!(store.count_pending(), 2);
}
