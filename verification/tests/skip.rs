use rxrust::observable::{from_iter, Observable};
use rxrust::observer::CollectObserver;
use rxrust::ops::skip::Skip;
use rxrust::shared::SharedObservable;

fn range_vec(n: i32) -> Vec<i32> {
    let mut v: Vec<i32> = Vec::new();
    let mut i: i32 = 0;
    while i < n {
        v.push(i);
        i += 1;
    }
    v
}

#[test]
fn base_function() {
    let out = from_iter(range_vec(100)).skip(5).subscribe(CollectObserver::<i32, ()>::new());

    assert_eq!(out.observer.items.len(), 95);
    assert_eq!(out.observer.completed, true);
}

#[test]
fn base_empty_function() {
    let out = from_iter(range_vec(100)).skip(101).subscribe(CollectObserver::<i32, ()>::new());

    assert_eq!(out.observer.items.len(), 0);
    assert_eq!(out.observer.completed, true);
}

#[test]
fn skip_support_fork() {
    let skip5 = from_iter(range_vec(100)).skip(5);
    let f1 = skip5.clone();
    let f2 = skip5;

    let out1 = f1.skip(5).subscribe(CollectObserver::<i32, ()>::new());
    let out2 = f2.skip(5).subscribe(CollectObserver::<i32, ()>::new());

    assert_eq!(out1.observer.items.len(), 90);
    assert_eq!(out2.observer.items.len(), 90);
}

#[test]
fn into_shared() {
    from_iter(range_vec(100)).skip(5).skip(5).to_shared().subscribe(
        CollectObserver::<i32, ()>::new(),
    );
}
