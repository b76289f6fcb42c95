use property_registry::{Error, Event, EventLog, Property, Registry};

const ALICE: u64 = 100;
const BOB: u64 = 200;
const MALLORY: u64 = 300;

fn payload(id: u64, tag: u8) -> Property {
    Property::new(id, vec![tag], vec![tag, tag], vec![tag, tag, tag])
}

fn owned_ids(reg: &Registry, owner: u64) -> Vec<u64> {
    let mut out = Vec::new();
    let n = reg.owned_count(owner);
    let mut p: u64 = 0;
    while p < n {
        out.push(reg.record_at_owned_position(owner, p).unwrap());
        p += 1;
    }
    out
}

fn snapshot(reg: &Registry, ids: &[u64], owners: &[u64]) -> Vec<Vec<u64>> {
    let mut s = vec![vec![reg.total_count()]];
    for id in ids {
        s.push(vec![reg.get_owner(*id).unwrap_or(u64::MAX)]);
    }
    for o in owners {
        s.push(owned_ids(reg, *o));
    }
    let mut g = Vec::new();
    for p in 0..reg.total_count() {
        g.push(reg.record_at_global_position(p).unwrap());
    }
    s.push(g);
    s
}

#[test]
fn mint_records_owner_and_counts() {
    let mut reg = Registry::new();
    let mut log = EventLog::new();
    assert_eq!(reg.mint(&mut log, ALICE, 1, payload(1, 7)), Ok(()));
    assert_eq!(reg.get_owner(1), Some(ALICE));
    assert_eq!(reg.total_count(), 1);
    assert_eq!(reg.owned_count(ALICE), 1);
    assert_eq!(log.len(), 1);
    assert_eq!(log.event_at(0), Some(Event::Created(ALICE, 1)));
    assert_eq!(reg.get_record(1), Some(&payload(1, 7)));
}

#[test]
fn transfer_by_owner_moves_record() {
    let mut reg = Registry::new();
    let mut log = EventLog::new();
    reg.mint(&mut log, ALICE, 1, payload(1, 7)).unwrap();
    assert_eq!(reg.transfer(&mut log, ALICE, BOB, 1), Ok(()));
    assert_eq!(reg.get_owner(1), Some(BOB));
    assert_eq!(reg.owned_count(ALICE), 0);
    assert_eq!(reg.owned_count(BOB), 1);
    assert_eq!(reg.total_count(), 1);
    assert_eq!(log.len(), 2);
    assert_eq!(log.event_at(1), Some(Event::Transferred(ALICE, BOB, 1)));
    assert_eq!(reg.record_at_owned_position(BOB, 0), Some(1));
    assert_eq!(reg.record_at_owned_position(ALICE, 0), None);
}

#[test]
fn transfer_by_non_owner_is_unauthorized() {
    let mut reg = Registry::new();
    let mut log = EventLog::new();
    reg.mint(&mut log, ALICE, 1, payload(1, 7)).unwrap();
    let before = snapshot(&reg, &[1], &[ALICE, BOB, MALLORY]);
    assert_eq!(reg.transfer(&mut log, MALLORY, BOB, 1), Err(Error::Unauthorized));
    assert_eq!(snapshot(&reg, &[1], &[ALICE, BOB, MALLORY]), before);
    assert_eq!(reg.get_record(1), Some(&payload(1, 7)));
    assert_eq!(log.len(), 1);
}

#[test]
fn second_mint_of_same_id_fails() {
    let mut reg = Registry::new();
    let mut log = EventLog::new();
    assert_eq!(reg.mint(&mut log, ALICE, 1, payload(1, 7)), Ok(()));
    assert_eq!(reg.mint(&mut log, ALICE, 1, payload(1, 9)), Err(Error::AlreadyExists));
    assert_eq!(reg.get_record(1), Some(&payload(1, 7)));
    assert_eq!(reg.total_count(), 1);
    assert_eq!(reg.owned_count(ALICE), 1);
    assert_eq!(log.len(), 1);
}

#[test]
fn second_mint_by_another_caller_fails() {
    let mut reg = Registry::new();
    let mut log = EventLog::new();
    reg.mint(&mut log, ALICE, 1, payload(1, 7)).unwrap();
    assert_eq!(reg.mint(&mut log, BOB, 1, payload(1, 9)), Err(Error::AlreadyExists));
    assert_eq!(reg.get_owner(1), Some(ALICE));
    assert_eq!(reg.owned_count(BOB), 0);
}

#[test]
fn transfer_of_unknown_id_is_not_found() {
    let mut reg = Registry::new();
    let mut log = EventLog::new();
    assert_eq!(reg.transfer(&mut log, ALICE, BOB, 42), Err(Error::NotFound));
    reg.mint(&mut log, ALICE, 1, payload(1, 7)).unwrap();
    assert_eq!(reg.transfer(&mut log, ALICE, BOB, 42), Err(Error::NotFound));
    assert_eq!(log.len(), 1);
}

#[test]
fn removing_first_of_three_moves_last_into_its_slot() {
    let mut reg = Registry::new();
    let mut log = EventLog::new();
    for id in [10u64, 11, 12] {
        reg.mint(&mut log, ALICE, id, payload(id, 1)).unwrap();
    }
    assert_eq!(owned_ids(&reg, ALICE), vec![10, 11, 12]);
    reg.transfer(&mut log, ALICE, BOB, 10).unwrap();
    assert_eq!(owned_ids(&reg, ALICE), vec![12, 11]);
    assert_eq!(reg.owned_count(ALICE), 2);
    assert_eq!(reg.record_at_owned_position(ALICE, 2), None);
    assert_eq!(owned_ids(&reg, BOB), vec![10]);
    // the reverse index follows the move: 12 now leaves from position 0
    reg.transfer(&mut log, ALICE, BOB, 12).unwrap();
    assert_eq!(owned_ids(&reg, ALICE), vec![11]);
    assert_eq!(owned_ids(&reg, BOB), vec![10, 12]);
}

#[test]
fn removing_last_of_three_keeps_order() {
    let mut reg = Registry::new();
    let mut log = EventLog::new();
    for id in [10u64, 11, 12] {
        reg.mint(&mut log, ALICE, id, payload(id, 1)).unwrap();
    }
    reg.transfer(&mut log, ALICE, BOB, 12).unwrap();
    assert_eq!(owned_ids(&reg, ALICE), vec![10, 11]);
    assert_eq!(reg.record_at_owned_position(ALICE, 2), None);
    reg.transfer(&mut log, ALICE, BOB, 11).unwrap();
    assert_eq!(owned_ids(&reg, ALICE), vec![10]);
}

#[test]
fn removing_middle_of_three() {
    let mut reg = Registry::new();
    let mut log = EventLog::new();
    for id in [10u64, 11, 12] {
        reg.mint(&mut log, ALICE, id, payload(id, 1)).unwrap();
    }
    reg.transfer(&mut log, ALICE, BOB, 11).unwrap();
    assert_eq!(owned_ids(&reg, ALICE), vec![10, 12]);
    reg.transfer(&mut log, ALICE, BOB, 12).unwrap();
    assert_eq!(owned_ids(&reg, ALICE), vec![10]);
}

#[test]
fn global_enumeration_is_append_only() {
    let mut reg = Registry::new();
    let mut log = EventLog::new();
    for id in [5u64, 3, 9] {
        reg.mint(&mut log, ALICE, id, payload(id, 1)).unwrap();
    }
    reg.transfer(&mut log, ALICE, BOB, 5).unwrap();
    reg.transfer(&mut log, BOB, MALLORY, 5).unwrap();
    assert_eq!(reg.total_count(), 3);
    assert_eq!(reg.record_at_global_position(0), Some(5));
    assert_eq!(reg.record_at_global_position(1), Some(3));
    assert_eq!(reg.record_at_global_position(2), Some(9));
    assert_eq!(reg.record_at_global_position(3), None);
    assert_eq!(reg.record_at_global_position(u64::MAX), None);
}

#[test]
fn transfer_to_self_moves_record_to_the_end() {
    let mut reg = Registry::new();
    let mut log = EventLog::new();
    for id in [10u64, 11, 12] {
        reg.mint(&mut log, ALICE, id, payload(id, 1)).unwrap();
    }
    assert_eq!(reg.transfer(&mut log, ALICE, ALICE, 10), Ok(()));
    assert_eq!(owned_ids(&reg, ALICE), vec![12, 11, 10]);
    assert_eq!(reg.owned_count(ALICE), 3);
    assert_eq!(log.event_at(3), Some(Event::Transferred(ALICE, ALICE, 10)));
}

#[test]
fn empty_registry_lookups() {
    let reg = Registry::new();
    assert_eq!(reg.total_count(), 0);
    assert_eq!(reg.owned_count(ALICE), 0);
    assert_eq!(reg.get_owner(0), None);
    assert_eq!(reg.get_record(0), None);
    assert_eq!(reg.record_at_global_position(0), None);
    assert_eq!(reg.record_at_owned_position(ALICE, 0), None);
}

#[test]
fn lookups_do_not_change_state() {
    let mut reg = Registry::new();
    let mut log = EventLog::new();
    reg.mint(&mut log, ALICE, 1, payload(1, 7)).unwrap();
    reg.mint(&mut log, BOB, 2, payload(2, 8)).unwrap();
    let before = snapshot(&reg, &[1, 2], &[ALICE, BOB]);
    for _ in 0..3 {
        let _ = reg.get_record(1);
        let _ = reg.get_owner(2);
        let _ = reg.get_owner(99);
    }
    assert_eq!(snapshot(&reg, &[1, 2], &[ALICE, BOB]), before);
}

#[test]
fn events_record_every_success_in_order() {
    let mut reg = Registry::new();
    let mut log = EventLog::new();
    reg.mint(&mut log, ALICE, 1, payload(1, 7)).unwrap();
    let _ = reg.mint(&mut log, ALICE, 1, payload(1, 7));
    reg.mint(&mut log, BOB, 2, payload(2, 7)).unwrap();
    let _ = reg.transfer(&mut log, ALICE, BOB, 2);
    reg.transfer(&mut log, BOB, ALICE, 2).unwrap();
    assert_eq!(log.len(), 3);
    assert_eq!(log.event_at(0), Some(Event::Created(ALICE, 1)));
    assert_eq!(log.event_at(1), Some(Event::Created(BOB, 2)));
    assert_eq!(log.event_at(2), Some(Event::Transferred(BOB, ALICE, 2)));
    assert_eq!(log.event_at(3), None);
}
