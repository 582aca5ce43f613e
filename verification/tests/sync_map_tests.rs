use mco::SyncHashMapImpl;

#[test]
fn sync_hash_map_test_empty() {
    let m: SyncHashMapImpl<i32, i32> = SyncHashMapImpl::new();
    assert_eq!(0, m.len());
}

#[test]
fn sync_hash_map_test_insert() {
    let mut m = SyncHashMapImpl::<i32, i32>::new();
    let insert = m.insert(1, 2);
    assert_eq!(insert.is_none(), true);
}

#[test]
fn sync_hash_map_test_insert2() {
    let mut m = SyncHashMapImpl::<i32, i32>::new();
    let insert = m.insert(1, 2);
    assert_eq!(insert.is_none(), true);
    let insert = m.insert(1, 2);
    assert_eq!(insert.is_none(), false);
}

#[test]
fn sync_hash_map_test_insert3() {
    let mut m = SyncHashMapImpl::<i32, i32>::new();
    for _ in 0..100000 {
        m.remove(&1);
        let _insert = m.insert(1, 2);
        m.remove(&1);
        let _insert = m.insert(1, 2);
    }
}

#[test]
fn sync_hash_map_test_insert4() {
    let mut m = SyncHashMapImpl::<i32, i32>::new();
    for _ in 0..8 {
        for i in 0..10000 {
            m.remove(&i);
            let _insert = m.insert(i, i);
        }
        for i in 0..10000 {
            m.remove(&i);
            let _insert = m.insert(i, i);
        }
    }
}

#[test]
fn sync_hash_map_test_get() {
    let mut m = SyncHashMapImpl::<i32, i32>::new();
    let _insert = m.insert(1, 2);
    let g = m.get(&1).unwrap();
    assert_eq!(2, *g);
}

#[derive(Clone, Debug, Eq, PartialEq, Hash)]
pub struct A {
    inner: i32,
}

impl Drop for A {
    fn drop(&mut self) {
        println!("droped");
    }
}

#[test]
fn sync_hash_map_test_remove() {
    let a = A { inner: 0 };
    let mut m = SyncHashMapImpl::<i32, A>::new();
    let _insert = m.insert(1, a);
    let g = m.get(&1).unwrap().clone();
    let rm = m.remove(&1).unwrap();
    println!("rm:{:?}", rm);
    drop(rm);
    assert_eq!(true, m.is_empty());
    assert_eq!(None, m.get(&1));
    assert_eq!(A { inner: 0 }, g);
}

#[test]
fn sync_hash_map_test_remove2() {
    let mut m = SyncHashMapImpl::<i32, String>::new();
    for i in 0..1000000 {
        m.insert(i, String::from("safdfasdfasdfasdfasdfasdfsadf"));
    }
    println!("start clean");
    m.clear();
    m.shrink_to_fit();
    println!("done,now you can see mem usage");
    for i in 0..1000000 {
        m.insert(i, String::from("safdfasdfasdfasdfasdfasdfsadf"));
    }
    println!("start clean");
    m.clear();
    m.shrink_to_fit();
    println!("done,now you can see mem usage");
}

#[test]
fn sync_hash_map_test_iter() {
    let mut m = SyncHashMapImpl::<i32, i32>::new();
    let _insert = m.insert(1, 2);
    for (k, v) in m.iter() {
        assert_eq!(*k, 1);
        assert_eq!(*v, 2);
    }
}

#[test]
fn sync_hash_map_test_iter_mut() {
    let mut m = SyncHashMapImpl::<i32, i32>::new();
    let _insert = m.insert(1, 2);
    for (k, v) in m.iter_mut() {
        assert_eq!(*k, 1);
        assert_eq!(*v, 2);
    }
}

#[test]
fn sync_hash_map_test_smoke2() {
    let mut m = SyncHashMapImpl::<i32, i32>::new();
    for i in 0..10000 {
        let _insert = m.insert(i, i);
        let g = m.get(&i).unwrap();
        assert_eq!(i, *g);
        println!("done{}", i);
        let _g = m.remove(&i);
    }
}

#[test]
fn sync_hash_map_test_smoke3() {
    let mut m = SyncHashMapImpl::<i32, i32>::new();
    for _ in 0..10000 {
        let i = 1;
        let _insert = m.insert(i, i);
        let g = m.get(&i).unwrap();
        assert_eq!(i, *g);
        println!("done{}", i);
        let _g = m.remove(&i);
    }
}
