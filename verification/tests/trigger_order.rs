use sorcery_engine::canonical::IdentityHash;
use sorcery_engine::contract::Seat;
use sorcery_engine::trigger_order::{GameError, TriggerBatch, TriggerOrderStage, TriggerSource};

fn source(controller: Seat, number: u8) -> TriggerSource {
    let digest = format!("sha256:{number:02x}{:0>62}", "");
    TriggerSource {
        controller,
        instance_id: IdentityHash::parse(&digest).unwrap(),
    }
}

#[test]
fn active_then_non_active_priority() {
    let active_first = source(Seat::North, 1);
    let active_second = source(Seat::North, 2);
    let non_active_first = source(Seat::South, 3);
    let non_active_second = source(Seat::South, 4);
    let mut batch = TriggerBatch::new(
        vec![
            active_first.clone(),
            non_active_first.clone(),
            active_second.clone(),
            non_active_second.clone(),
        ],
        Seat::North,
    )
    .unwrap();

    assert_eq!(
        batch.pending_order().unwrap(),
        &[active_first, active_second]
    );
    let chosen = batch.pending_order().unwrap()[0].instance_id.clone();
    batch.commit(&chosen).unwrap();
    assert_eq!(batch.stage, TriggerOrderStage::NonActiveOrder);
    assert_eq!(
        batch.pending_order().unwrap(),
        &[non_active_first, non_active_second]
    );
}

#[test]
fn caller_chosen_order_is_first_to_resolve_within_side() {
    let first = source(Seat::North, 1);
    let second = source(Seat::North, 2);
    let third = source(Seat::North, 3);
    let non_active = source(Seat::South, 4);
    let mut batch = TriggerBatch::new(
        vec![
            first.clone(),
            second.clone(),
            third.clone(),
            non_active.clone(),
        ],
        Seat::North,
    )
    .unwrap();

    batch.commit(&second.instance_id).unwrap();
    batch.commit(&first.instance_id).unwrap();
    assert_eq!(batch.stage, TriggerOrderStage::Resolve);
    assert_eq!(batch.resolving, vec![non_active, second, first, third]);
}

#[test]
fn invalid_or_duplicate_selection_is_rejected() {
    let first = source(Seat::North, 1);
    let second = source(Seat::North, 2);
    let third = source(Seat::North, 3);
    let mut batch = TriggerBatch::new(vec![first.clone(), second, third], Seat::North).unwrap();

    let unknown = source(Seat::South, 9);
    assert!(matches!(
        batch.commit(&unknown.instance_id),
        Err(GameError::IllegalAction)
    ));
    batch.commit(&first.instance_id).unwrap();
    assert!(matches!(
        batch.commit(&first.instance_id),
        Err(GameError::IllegalAction)
    ));
}

#[test]
fn a_single_source_batch_needs_no_ordering() {
    let only = source(Seat::South, 7);
    let batch = TriggerBatch::new(vec![only.clone()], Seat::North).unwrap();
    assert_eq!(batch.stage, TriggerOrderStage::Resolve);
    assert!(batch.pending_order().is_none());
    assert_eq!(batch.resolving, vec![only]);
}

#[test]
fn an_empty_batch_is_refused() {
    assert!(TriggerBatch::new(Vec::new(), Seat::North).is_none());
}
