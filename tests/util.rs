use tinymist::util::{try_, try_or, try_or_default, TwoStage};

#[test]
fn try_helpers() {
    let v = vec![1u32, 2, 3];
    assert_eq!(try_(|| Some(*v.get(1)? + 1)), Some(3));
    assert_eq!(try_(|| Some(*v.get(5)?)), None);
    assert_eq!(try_or(|| v.get(7).copied(), 9), 9);
    assert_eq!(try_or(|| v.get(0).copied(), 9), 1);
    assert_eq!(try_or_default(|| v.get(7).copied()), 0);
    assert_eq!(try_or_default(|| Some(String::from("x"))), "x");
}

#[test]
fn two_stage_inited() {
    let t: TwoStage<(), u32> = TwoStage::Inited(4);
    assert_eq!(*t.inited(), 4);
}
