use cotim::runtime::ArcWake;
use std::sync::atomic::{AtomicUsize, Ordering};
use std::sync::Arc;

struct Counter(AtomicUsize);

impl ArcWake for Counter {
    fn wake_by_ref(arc_self: &Arc<Self>) {
        arc_self.0.fetch_add(1, Ordering::SeqCst);
    }
}

#[test]
fn wake_goes_through_wake_by_ref() {
    let task = Arc::new(Counter(AtomicUsize::new(0)));
    ArcWake::wake_by_ref(&task);
    task.clone().wake();
    assert_eq!(task.0.load(Ordering::SeqCst), 2);
}
