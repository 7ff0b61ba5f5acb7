use daikoku::cell::{DaikokuThreadData, Slot};

#[test]
fn empty_cell_holds_nothing() {
    let c: DaikokuThreadData<u32> = DaikokuThreadData::empty();
    assert!(!c.is_set());
    assert_eq!(c.get(|v| v.copied()), None);
    assert_eq!(c.try_read(|v| v.copied()), Some(None));
}

#[test]
fn set_and_clear_are_seen_through_every_handle() {
    let c: DaikokuThreadData<String> = DaikokuThreadData::empty();
    let other = c.clone();
    other.set("wallet".to_string());
    assert!(c.is_set());
    assert_eq!(c.get(|v| v.cloned()), Some("wallet".to_string()));
    c.clear();
    assert!(!other.is_set());
}

#[test]
fn try_read_does_not_wait_for_a_holder() {
    let c: DaikokuThreadData<u32> = DaikokuThreadData::empty();
    c.set(7);
    let other = c.clone();
    let inner = c.get(|v| {
        assert_eq!(v, Some(&7));
        other.try_read(|w| w.copied())
    });
    assert_eq!(inner, None);
    assert_eq!(c.try_read(|w| w.copied()), Some(Some(7)));
}

#[test]
fn only_one_claim_on_an_empty_cell_is_granted() {
    let c: DaikokuThreadData<u32> = DaikokuThreadData::empty();
    let granted = (0..10).filter(|_| c.clone().begin_refresh(false)).count();
    assert_eq!(granted, 1);
    assert!(!c.begin_refresh(true));
    c.finish_refresh(Some(3));
    assert_eq!(c.get(|v| v.copied()), Some(3));
    assert!(!c.begin_refresh(false));
    assert!(c.begin_refresh(true));
}

#[test]
fn failed_fetch_keeps_the_held_value() {
    let c: DaikokuThreadData<u32> = DaikokuThreadData::empty();
    c.set(5);
    assert!(c.begin_refresh(true));
    c.finish_refresh(None);
    assert_eq!(c.get(|v| v.copied()), Some(5));
    assert!(c.begin_refresh(true));
}

#[test]
fn slot_transitions() {
    let mut s: Slot<u8> = Slot::empty();
    assert!(!s.is_set());
    assert!(s.claim(false));
    assert!(s.pending);
    assert!(!s.claim(false));
    s.finish(Some(1));
    assert_eq!(s.value, Some(1));
    assert!(!s.pending);
    s.set(2);
    assert_eq!(s.value, Some(2));
    s.clear();
    assert_eq!(s.value, None);
}

#[test]
fn claims_under_a_forced_reload_wait_for_the_fetch_in_flight() {
    let c: DaikokuThreadData<u32> = DaikokuThreadData::empty();
    c.set(1);
    assert!(c.begin_refresh(true));
    assert!(!c.begin_refresh(true));
    assert!(!c.clone().begin_refresh(false));
    c.finish_refresh(Some(2));
    assert_eq!(c.try_read(|v| v.copied()), Some(Some(2)));
}
