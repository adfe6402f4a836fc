use async_ch::{bounded, unbounded};

#[test]
fn create() {
    (0..10).for_each(|_| {
        let _ = unbounded::<i32>();
    });
}

#[test]
fn lib_create() {
    (0..10).for_each(|_| {
        let _ = bounded::<i32>(1);
    });
}

#[test]
fn oneshot() {
    (0..10).for_each(|_| {
        let (s, r) = unbounded::<i32>();
        s.send(0).unwrap();
        r.recv().unwrap();
    });
}

#[test]
fn lib_oneshot() {
    (0..10).for_each(|_| {
        let (s, r) = bounded::<i32>(1);
        s.send(0).unwrap();
        r.recv().unwrap();
    });
}

#[test]
fn inout() {
    let (s, r) = unbounded::<i32>();
    (0..10).for_each(|_| {
        s.send(0).unwrap();
        r.recv().unwrap();
    });
}
