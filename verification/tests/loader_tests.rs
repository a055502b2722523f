use save_manager::loader::{first_run_step, CachedEntry, FirstRunStep, LoaderState, LoaderStore, Loading};

#[test]
fn loader_lifecycle() {
    let mut l: LoaderStore<i32, String> = LoaderStore::new();
    assert_eq!(l.state(), LoaderState::Pending);
    assert_eq!(l.outcome(), Err(Loading::Pending));
    assert!(!l.is_error());
    l.settle(Ok(5));
    assert_eq!(l.outcome(), Ok(()));
    assert_eq!(*l.read(), 5);
    l.restart();
    l.settle(Err("boom".to_string()));
    assert_eq!(l.outcome(), Err(Loading::Failed));
    assert!(l.is_error());
    assert_eq!(l.failure(), "boom");
    assert_eq!(l.value, Some(5));
    l.restart();
    l.settle(Ok(6));
    assert_eq!(l.state(), LoaderState::Ready);
    assert!(!l.is_error());
    assert_eq!(l.error, Some("boom".to_string()));
}

#[test]
fn first_run_steps() {
    assert!(matches!(first_run_step::<i32, String>(CachedEntry::Resolved(Ok(1))), FirstRunStep::Settle(Ok(1))));
    assert!(matches!(first_run_step::<i32, String>(CachedEntry::DataPending), FirstRunStep::WaitForServer));
    assert!(matches!(first_run_step::<i32, String>(CachedEntry::Unavailable), FirstRunStep::RunLoad));
    assert!(matches!(first_run_step::<i32, String>(CachedEntry::NotFirstRun), FirstRunStep::RunLoad));
}

#[test]
fn mapped_load_holds_the_mapped_value() {
    let mut l: LoaderStore<usize, String> = LoaderStore::new();
    l.settle_mapped(Ok::<&str, String>("three"), |s: &str| s.len());
    assert_eq!(l.state(), LoaderState::Ready);
    assert_eq!(*l.read(), 5);
    l.restart();
    l.settle_mapped(Err::<&str, String>("offline".to_string()), |s: &str| s.len());
    assert_eq!(l.state(), LoaderState::Failed);
    assert!(l.is_error());
    assert_eq!(l.value, Some(5));
    assert_eq!(l.failure(), "offline");
}

#[test]
fn restart_keeps_showing_the_value() {
    let mut l: LoaderStore<i32, String> = LoaderStore::new();
    assert!(l.loading());
    l.settle(Ok(7));
    assert!(!l.loading());
    l.restart();
    assert!(l.loading());
    assert_eq!(l.state(), LoaderState::Ready);
    assert!(l.outcome().is_ok());
    assert_eq!(*l.read(), 7);
    l.cancel();
    assert!(!l.loading());
    assert_eq!(*l.read(), 7);
    l.restart();
    l.settle(Err("down".to_string()));
    assert_eq!(l.outcome(), Err(Loading::Failed));
    assert!(!l.loading());
    l.restart();
    assert_eq!(l.outcome(), Err(Loading::Failed));
    l.settle(Ok(8));
    assert_eq!(*l.read(), 8);
    assert_eq!(l.error, Some("down".to_string()));
    assert!(!l.is_error());
}

#[test]
fn outcome_of_a_cancelled_run_is_dropped() {
    let mut l: LoaderStore<i32, String> = LoaderStore::new();
    l.cancel();
    l.settle(Ok(1));
    assert_eq!(l.outcome(), Err(Loading::Pending));
    assert_eq!(l.value, None);
    l.restart();
    l.settle(Ok(2));
    assert_eq!(*l.read(), 2);
    l.restart();
    l.cancel();
    l.settle(Err("late".to_string()));
    assert_eq!(*l.read(), 2);
    assert_eq!(l.error, None);
    l.settle_mapped(Ok::<&str, String>("ignored"), |s: &str| s.len() as i32);
    assert_eq!(*l.read(), 2);
}
