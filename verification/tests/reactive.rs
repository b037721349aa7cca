use generational_box::use_callback;
use generational_box::use_effect;
use generational_box::MemoSource;
use generational_box::SignalSource;
use generational_box::Source;
use generational_box::TrackedSource;
use generational_box::UntrackedSource;

#[test]
fn tracked_source_roundtrip() {
    let mut source = TrackedSource { value: 41 };
    assert_eq!(*source.read(), 41);
    source.tracked_read();

    *source.write() += 1;
    source.tracked_write();
    assert_eq!(*source.read(), 42);

    source.set(7);
    assert_eq!(*source.read(), 7);
}

#[test]
fn untracked_source_roundtrip() {
    let mut source = UntrackedSource { value: String::from("quiet") };
    assert_eq!(source.read().as_str(), "quiet");

    source.write().push_str(" still");
    assert_eq!(source.read().as_str(), "quiet still");

    source.set(String::from("replaced"));
    assert_eq!(source.read().as_str(), "replaced");
}

#[test]
fn memo_source_computes_lazily() {
    let mut memo = MemoSource { computed: false, value: 10 };
    assert!(!memo.computed);

    memo.compute_chain();
    assert!(memo.computed);
    assert_eq!(*memo.read(), 10);

    memo.set(11);
    assert_eq!(*memo.read(), 11);
}

#[test]
fn callbacks_stay_callable() {
    let mut doubler = use_callback(|| 2 * 21);
    assert_eq!(doubler.call(), 42);
    assert_eq!(doubler.call(), 42);

    let mut effect = use_effect(|| {
        println!("effect ran");
    });
    effect.call();
}
