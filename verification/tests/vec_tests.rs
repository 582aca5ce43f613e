use mco::SyncVec;

#[test]
fn mod_test_empty() {
    let m: SyncVec<i32> = SyncVec::new();
    assert_eq!(0, m.len());
}

#[test]
fn test_push() {
    let mut m = SyncVec::<i32>::new();
    let insert = m.push(1);
    assert_eq!(insert.is_none(), true);
}

#[test]
fn test_push2() {
    let mut m = SyncVec::<String>::new();
    m.push("1".to_string());
    m.push("2".to_string());
    m.push("3".to_string());

    assert_eq!(&"1".to_string(), m.get(0).unwrap());
    assert_eq!(&"2".to_string(), m.get(1).unwrap());
    assert_eq!(&"3".to_string(), m.get(2).unwrap());
}

#[test]
fn mod_test_insert3() {
    let mut m = SyncVec::<i32>::new();
    for _ in 0..100000 {
        m.pop();
        let _insert = m.push(2);
        m.pop();
        let _insert = m.push(2);
    }
}

#[test]
fn mod_test_insert4() {
    let mut m = SyncVec::<i32>::new();
    for _ in 0..8 {
        for i in 0..10000 {
            m.pop();
            let _insert = m.push(i);
        }
        for i in 0..10000 {
            m.pop();
            let _insert = m.push(i);
        }
    }
}

#[test]
fn mod_test_get() {
    let mut m = SyncVec::<i32>::new();
    let _insert = m.push(2);
    let g = m.get(0).unwrap();
    assert_eq!(&2, g);
}

#[derive(Clone, Debug, Eq, PartialEq, Hash)]
pub struct A {
    inner: i32,
}

impl Drop for A {
    fn drop(&mut self) {
        println!("droped");
    }
}

#[test]
fn mod_test_remove() {
    let a = A { inner: 0 };
    let mut m = SyncVec::<A>::new();
    let _insert = m.push(a);
    let g = m.get(0).unwrap().clone();
    let rm = m.remove(0).unwrap();
    println!("rm:{:?}", rm);
    drop(rm);
    assert_eq!(true, m.is_empty());
    assert_eq!(None, m.get(0));
    assert_eq!(A { inner: 0 }, g);
}

#[test]
fn mod_test_remove2() {
    let mut m = SyncVec::<String>::new();
    for _i in 0..1000000 {
        m.push(String::from("safdfasdfasdfasdfasdfasdfsadf"));
    }
    println!("start clean");
    m.clear();
    m.shrink_to_fit();
    println!("done,now you can see mem usage");
    for _i in 0..1000000 {
        m.push(String::from("safdfasdfasdfasdfasdfasdfsadf"));
    }
    println!("start clean");
    m.clear();
    m.shrink_to_fit();
    println!("done,now you can see mem usage");
}

#[test]
fn mod_test_iter() {
    let mut m = SyncVec::<i32>::new();
    let _insert = m.push(2);
    for v in m.iter() {
        assert_eq!(*v, 2);
    }
}

#[test]
fn mod_test_iter_mut() {
    let mut m = SyncVec::<i32>::new();
    let _insert = m.push(2);
    for v in m.iter_mut() {
        assert_eq!(*v, 2);
    }
}
