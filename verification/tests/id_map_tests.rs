use server_client::IdMap;

#[test]
fn ids_count_up_from_zero() {
    let mut m: IdMap<&str> = IdMap::new();
    assert_eq!(m.add("a"), 0);
    assert_eq!(m.add("b"), 1);
    assert_eq!(m.add("c"), 2);
    assert_eq!(*m.index(0), "a");
    assert_eq!(*m.index(1), "b");
    assert_eq!(*m.index(2), "c");
}

#[test]
fn removed_ids_are_not_handed_out_again() {
    let mut m: IdMap<u32> = IdMap::new();
    let a = m.add(10);
    let b = m.add(20);
    assert_eq!(m.remove(a), Some(10));
    let c = m.add(30);
    assert_eq!(c, 2);
    assert_ne!(c, a);
    assert_ne!(c, b);
    assert!(!m.contains(a));
    assert!(m.contains(b));
    assert!(m.contains(c));
}

#[test]
fn remove_of_missing_id_is_none() {
    let mut m: IdMap<u32> = IdMap::new();
    assert_eq!(m.remove(0), None);
    let a = m.add(1);
    assert_eq!(m.remove(a), Some(1));
    assert_eq!(m.remove(a), None);
    assert_eq!(m.add(2), 1);
}

#[test]
fn remove_undoes_add() {
    let mut m: IdMap<u32> = IdMap::new();
    let a = m.add(5);
    let b = m.add(6);
    assert_eq!(m.remove(b), Some(6));
    assert!(m.contains(a));
    assert!(!m.contains(b));
    assert_eq!(*m.index(a), 5);
}

#[test]
fn index_mut_writes_in_place() {
    let mut m: IdMap<u32> = IdMap::new();
    let a = m.add(5);
    let b = m.add(6);
    *m.index_mut(a) += 10;
    assert_eq!(*m.index(a), 15);
    assert_eq!(*m.index(b), 6);
    assert_eq!(m.add(7), 2);
}

#[test]
fn fresh_map_can_add() {
    let m: IdMap<u8> = IdMap::new();
    assert!(m.can_add());
    assert!(!m.contains(0));
}

#[test]
fn clone_keeps_ids_and_next_id() {
    let mut m: IdMap<String> = IdMap::new();
    let a = m.add("x".to_string());
    let b = m.add("y".to_string());
    m.remove(a);
    let mut c = m.clone();
    assert!(!c.contains(a));
    assert_eq!(c.index(b), "y");
    assert_eq!(c.add("z".to_string()), 2);
    assert_eq!(m.add("w".to_string()), 2);
}
