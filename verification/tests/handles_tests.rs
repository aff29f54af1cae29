use electrico::handles::Handles;

#[test]
fn handles_are_kept_replaced_and_forgotten() {
    let mut h: Handles<u32> = Handles::new();
    assert_eq!(h.count(), 0);
    h.start("cp1".to_string(), 1);
    h.start("cp2".to_string(), 2);
    h.start("cp1".to_string(), 3);
    assert_eq!(h.count(), 2);
    assert_eq!(h.get(&"cp1".to_string()), Some(&3));
    assert!(h.stop(&"cp1".to_string()));
    assert!(!h.stop(&"cp1".to_string()));
    assert_eq!(h.get(&"cp1".to_string()), None);
    assert_eq!(h.get(&"cp2".to_string()), Some(&2));
}

#[test]
fn a_final_write_forgets_the_connection() {
    let mut h: Handles<&str> = Handles::new();
    h.start("c".to_string(), "conn");
    h.after_write(&"c".to_string(), false);
    assert_eq!(h.get(&"c".to_string()), Some(&"conn"));
    h.after_write(&"c".to_string(), true);
    assert_eq!(h.get(&"c".to_string()), None);
    h.start("a".to_string(), "x");
    h.start("b".to_string(), "y");
    h.clear();
    assert_eq!(h.count(), 0);
}
