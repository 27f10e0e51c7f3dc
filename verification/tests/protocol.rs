use rxrust::observable::{from_iter, throw, Observable};
use rxrust::observer::{CollectObserver, Observer};
use rxrust::ops::skip::Skip;
use rxrust::shared::SharedObservable;
use rxrust::subscriber::Subscriber;
use rxrust::subscription::{LocalSubscription, SubscriptionLike};

fn range_vec(n: i32) -> Vec<i32> {
    let mut v: Vec<i32> = Vec::new();
    let mut i: i32 = 0;
    while i < n {
        v.push(i);
        i += 1;
    }
    v
}

#[test]
fn skip_forwards_tail_in_order() {
    let out = from_iter(range_vec(10)).skip(5).subscribe(CollectObserver::<i32, ()>::new());

    assert_eq!(out.observer.items, vec![5, 6, 7, 8, 9]);
    assert_eq!(out.observer.completed, true);
    assert_eq!(out.observer.error, None);
}

#[test]
fn skip_zero_forwards_everything() {
    let out = from_iter(range_vec(10)).skip(0).subscribe(CollectObserver::<i32, ()>::new());

    assert_eq!(out.observer.items, vec![0, 1, 2, 3, 4, 5, 6, 7, 8, 9]);
    assert_eq!(out.observer.completed, true);
}

#[test]
fn skip_exactly_source_length() {
    let out = from_iter(range_vec(10)).skip(10).subscribe(CollectObserver::<i32, ()>::new());

    assert_eq!(out.observer.items.len(), 0);
    assert_eq!(out.observer.completed, true);
}

#[test]
fn empty_source_completes() {
    let out = from_iter(range_vec(0)).skip(5).subscribe(CollectObserver::<i32, ()>::new());

    assert_eq!(out.observer.items.len(), 0);
    assert_eq!(out.observer.completed, true);
    assert_eq!(out.observer.error, None);
}

#[test]
fn skip_forwards_upstream_error_verbatim() {
    let out = throw::<i32, u32>(42).skip(3).subscribe(CollectObserver::<i32, u32>::new());

    assert_eq!(out.observer.items.len(), 0);
    assert_eq!(out.observer.completed, false);
    assert_eq!(out.observer.error, Some(42));
}

#[test]
fn at_most_one_terminal_event() {
    let out = from_iter(range_vec(20)).skip(5).subscribe(CollectObserver::<i32, ()>::new());

    // The one terminal event is completion; no error ever joins it.
    assert_eq!(out.observer.completed, true);
    assert_eq!(out.observer.error, None);
}

#[test]
fn unsubscribe_is_idempotent() {
    let mut subscription = LocalSubscription::new();
    assert!(!subscription.is_closed());
    subscription.unsubscribe();
    assert!(subscription.is_closed());
    subscription.unsubscribe();
    assert!(subscription.is_closed());
}

#[test]
fn subscriber_unsubscribe_is_idempotent() {
    let mut out = from_iter(range_vec(10)).skip(2).subscribe(CollectObserver::<i32, ()>::new());
    out.unsubscribe();
    assert!(out.is_closed());
    out.unsubscribe();
    assert!(out.is_closed());
    assert_eq!(out.observer.items.len(), 8);
}

#[test]
fn cancelled_subscriber_receives_nothing() {
    let mut subscriber = Subscriber::local(CollectObserver::<i32, ()>::new());
    subscriber.unsubscribe();
    let out = from_iter(range_vec(10)).skip(2).actual_subscribe(subscriber);

    assert_eq!(out.observer.items.len(), 0);
    assert_eq!(out.observer.completed, false);
    assert_eq!(out.observer.error, None);
}

#[test]
fn shared_preserves_forwarding() {
    let out = from_iter(range_vec(100)).skip(5).skip(5).to_shared().subscribe(
        CollectObserver::<i32, ()>::new(),
    );

    assert_eq!(out.observer.items.len(), 90);
    assert_eq!(out.observer.completed, true);
    assert_eq!(out.observer.error, None);
}

#[test]
fn shared_error_source_preserves_error() {
    let out = throw::<i32, u32>(7).skip(1).to_shared().subscribe(
        CollectObserver::<i32, u32>::new(),
    );

    assert_eq!(out.observer.items.len(), 0);
    assert_eq!(out.observer.completed, false);
    assert_eq!(out.observer.error, Some(7));
}

#[test]
fn collect_observer_ignores_events_after_terminal() {
    let mut observer = CollectObserver::<i32, ()>::new();
    observer.next(1);
    observer.complete();
    observer.next(2);
    observer.complete();
    observer.error(());

    assert_eq!(observer.items, vec![1]);
    assert_eq!(observer.completed, true);
    assert_eq!(observer.error, None);
    assert!(observer.is_terminated());
}

#[test]
fn unsubscribe_cancels_children() {
    let mut parent = LocalSubscription::new();
    parent.add_child(LocalSubscription::new());
    parent.add_child(LocalSubscription::new());
    assert_eq!(parent.children.len(), 2);
    parent.unsubscribe();
    assert!(parent.is_closed());
    assert_eq!(parent.children.len(), 0);
}

#[test]
fn add_child_to_closed_handle_releases_it() {
    let mut parent = LocalSubscription::new();
    parent.unsubscribe();
    parent.add_child(LocalSubscription::new());
    assert!(parent.is_closed());
    assert_eq!(parent.children.len(), 0);
}

#[test]
fn throw_delivers_its_error() {
    let out = throw::<i32, u32>(9).subscribe(CollectObserver::<i32, u32>::new());

    assert_eq!(out.observer.items.len(), 0);
    assert_eq!(out.observer.completed, false);
    assert_eq!(out.observer.error, Some(9));
}
