use async_ch::bounded;

#[test]
fn create_zero() {
    (0..10).for_each(|_| {
        let _ = bounded::<i32>(0);
    });
}
