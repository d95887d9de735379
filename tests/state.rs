use savings_vault::contract_state::ContractState;
use savings_vault::paging::{follow_page, next_page_request};

fn rec(k: &[u8], v: &[u8]) -> (Vec<u8>, Vec<u8>) {
    (k.to_vec(), v.to_vec())
}

#[test]
fn later_record_replaces_earlier() {
    let s = ContractState::new(vec![rec(b"b", b"1"), rec(b"a", b"2"), rec(b"b", b"3")]);
    assert_eq!(s.get(b"b"), Some(b"3".to_vec()));
    assert_eq!(s.get(b"a"), Some(b"2".to_vec()));
    assert_eq!(s.get(b"c"), None);
}

#[test]
fn range_is_ascending_and_half_open() {
    let s = ContractState::new(vec![
        rec(b"ab", b"1"),
        rec(b"a", b"2"),
        rec(b"b", b"3"),
        rec(b"", b"4"),
        rec(b"ba", b"5"),
    ]);
    let all = s.range(None, None);
    let keys: Vec<Vec<u8>> = all.iter().map(|(k, _)| k.clone()).collect();
    assert_eq!(keys, vec![b"".to_vec(), b"a".to_vec(), b"ab".to_vec(), b"b".to_vec(), b"ba".to_vec()]);
    let part = s.range(Some(b"a"), Some(b"b"));
    assert_eq!(part, vec![rec(b"a", b"2"), rec(b"ab", b"1")]);
    let tail = s.range(Some(b"aa"), None);
    assert_eq!(tail.len(), 3);
    assert_eq!(tail[0], rec(b"ab", b"1"));
}

#[test]
fn empty_state_has_nothing() {
    let s = ContractState::empty();
    assert_eq!(s.get(b""), None);
    assert!(s.range(None, None).is_empty());
}

#[test]
fn paging_stops_on_missing_or_empty_key() {
    assert_eq!(follow_page(&None), None);
    assert_eq!(follow_page(&Some(vec![])), None);
    let next = follow_page(&Some(vec![1, 2])).unwrap();
    assert_eq!(next, next_page_request(vec![1, 2]));
    assert_eq!(next.key, vec![1, 2]);
    assert_eq!((next.offset, next.limit, next.count_total, next.reverse), (0, 0, false, false));
}
