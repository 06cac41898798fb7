use manatui::fx::{Fx, FxList};

#[test]
fn fx_new_keeps_the_effect() {
    let fx = Fx::new(tachyonfx::fx::sleep(100));
    assert!(!fx.0.done());
}

#[test]
fn fx_advance_runs_the_timer() {
    let mut fx = Fx::new(tachyonfx::fx::sleep(100));
    fx.advance(tachyonfx::Duration::from_millis(50));
    assert!(!fx.0.done());
    fx.advance(tachyonfx::Duration::from_millis(60));
    assert!(fx.0.done());
}

#[test]
fn fx_list_advances_each_effect() {
    let mut list = FxList::new(vec![
        Fx::new(tachyonfx::fx::sleep(100)),
        Fx::new(tachyonfx::fx::sleep(300)),
    ]);
    list.advance(tachyonfx::Duration::from_millis(200));
    assert_eq!(list.0.len(), 2);
    assert!(list.0[0].0.done());
    assert!(!list.0[1].0.done());
}

#[test]
fn fx_default_is_an_empty_sequence() {
    let fx = Fx::default();
    let _ = fx.0.done();
}
