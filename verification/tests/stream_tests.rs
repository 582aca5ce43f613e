use mco::{channel, ChanStream, Error};

#[test]
fn test_foreach() {
    let (s, r) = channel::<Option<Result<i32, Error>>>();
    let _ = s.send(Some(Ok(1)));
    let _ = s.send(None);
    let mut c = ChanStream { recv: r, send: s };
    while let Some(item) = c.next() {
        println!("{:?}", item);
    }
}

#[test]
fn test_map() {
    let (s, r) = channel::<Option<Result<i32, Error>>>();
    let _ = s.send(Some(Ok(1)));
    let _ = s.send(None);
    let mut c = ChanStream { recv: r, send: s };
    let mut data: Vec<Option<i32>> = Vec::new();
    while let Some(v) = c.next() {
        data.push(match v {
            Ok(v) => Some(v),
            Err(_) => None,
        });
    }
    println!("{:?}", data);
}

#[test]
fn stream_builder_appends_error_and_end() {
    let mut c = ChanStream::<i32, String>::new(|s| {
        let _ = s.send(Some(Ok(5)));
        Err("boom".to_string())
    });
    assert_eq!(c.next(), Some(Ok(5)));
    assert_eq!(c.next(), Some(Err("boom".to_string())));
    assert_eq!(c.next(), None);
}
