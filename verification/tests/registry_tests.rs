use cargo_e::registry::{get_process_results_in_place, take_process_results, ProcessTable};

#[test]
fn register_get_take() {
    let mut t: ProcessTable<String> = ProcessTable::new();
    assert_eq!(t.register(10, "a".to_string()), 10);
    t.register(20, "b".to_string());
    let mut ids = t.list();
    ids.sort();
    assert_eq!(ids, vec![10, 20]);
    assert_eq!(get_process_results_in_place(&t, 20), Some(&"b".to_string()));
    assert_eq!(get_process_results_in_place(&t, 30), None);
    t.register(10, "c".to_string());
    assert_eq!(t.len(), 2);
    assert_eq!(t.get(10), Some(&"c".to_string()));
    assert_eq!(take_process_results(&mut t, 10), Some("c".to_string()));
    assert_eq!(t.list(), vec![20]);
    assert_eq!(t.take(10), None);
}
