use std::cell::RefCell;
use std::rc::Rc;

use callback_registry::CallbackManager;
use callback_registry::Handle;

#[test]
fn test_callbacks() {
    let mut manager = CallbackManager::default();

    // slice to check side-effects
    let counts = Rc::new(RefCell::new([0; 3]));

    // create callback for each count entry
    let _handles: Vec<Handle> = counts
        .borrow()
        .iter()
        .enumerate()
        .map(|(idx, _)| {
            let counts = Rc::clone(&counts);
            manager.add(move |args: (usize,)| RefCell::borrow_mut(&counts)[idx] += args.0)
        })
        .collect();

    manager.run_all((42,));
    assert_eq!(counts.borrow().as_slice(), &[42, 42, 42]);
}

#[test]
fn test_handle_dropping() {
    let mut manager = CallbackManager::default();

    // slice to check side-effects
    let counts = Rc::new(RefCell::new([0; 3]));

    // create callback for each count entry
    let mut handles: Vec<Handle> = counts
        .borrow()
        .iter()
        .enumerate()
        .map(|(idx, _)| {
            let counts = Rc::clone(&counts);
            manager.add(move |args: (usize,)| RefCell::borrow_mut(&counts)[idx] += args.0)
        })
        .collect();

    // remove last callback
    handles.pop();

    manager.run_all((42,));
    assert_eq!(counts.borrow().as_slice(), &[42, 42, 0]);
}

#[test]
fn test_every_callback_runs_each_pass() {
    let mut manager = CallbackManager::default();
    let counts = Rc::new(RefCell::new([0; 3]));

    let mut handles: Vec<Handle> = Vec::new();
    for idx in 0..3usize {
        let counts = Rc::clone(&counts);
        handles.push(manager.add(move |args: (usize,)| RefCell::borrow_mut(&counts)[idx] += args.0));
    }

    // each retained callback runs exactly once per pass
    manager.run_all((42,));
    assert_eq!(counts.borrow().as_slice(), &[42, 42, 42]);
    manager.run_all((42,));
    assert_eq!(counts.borrow().as_slice(), &[84, 84, 84]);
    assert_eq!(manager.len(), 3);
}

#[test]
fn test_prune_removes_exactly_one() {
    let mut manager = CallbackManager::default();
    let counts = Rc::new(RefCell::new([0; 3]));

    let mut handles: Vec<Handle> = Vec::new();
    for idx in 0..3usize {
        let counts = Rc::clone(&counts);
        handles.push(manager.add(move |args: (usize,)| RefCell::borrow_mut(&counts)[idx] += args.0));
    }
    assert_eq!(manager.len(), 3);

    let dropped = handles.remove(1);
    drop(dropped);

    manager.run_all((42,));
    assert_eq!(manager.len(), 2);
    assert_eq!(counts.borrow().as_slice(), &[42, 0, 42]);

    // the pruned callback never comes back
    manager.run_all((42,));
    assert_eq!(manager.len(), 2);
    assert_eq!(counts.borrow().as_slice(), &[84, 0, 84]);
}

#[test]
fn test_pruned_entries_keep_order() {
    let mut manager = CallbackManager::default();
    let log = Rc::new(RefCell::new(Vec::new()));

    let mut handles: Vec<Handle> = Vec::new();
    for idx in 0..4 {
        let log = Rc::clone(&log);
        handles.push(manager.add(move |_args: (usize,)| RefCell::borrow_mut(&log).push(idx)));
    }

    let dropped = handles.remove(1);
    drop(dropped);

    manager.run_all((42,));
    assert_eq!(log.borrow().as_slice(), &[0, 2, 3]);
    assert_eq!(manager.len(), 3);
}

#[test]
fn test_clone_keeps_alive() {
    let mut manager = CallbackManager::default();
    let count = Rc::new(RefCell::new(0));

    let handle = {
        let count = Rc::clone(&count);
        manager.add(move |args: (usize,)| *RefCell::borrow_mut(&count) += args.0)
    };
    let copy = handle.clone();

    // one clone is gone, the other keeps the entry alive
    drop(handle);
    manager.run_all((42,));
    assert_eq!(*count.borrow(), 42);
    assert_eq!(manager.len(), 1);

    // the last clone going away prunes the entry
    drop(copy);
    manager.run_all((42,));
    assert_eq!(*count.borrow(), 42);
    assert_eq!(manager.len(), 0);
}

#[test]
fn test_late_clone_drop_has_no_further_effect() {
    let mut manager = CallbackManager::default();
    let count = Rc::new(RefCell::new(0));

    let handle = {
        let count = Rc::clone(&count);
        manager.add(move |args: (usize,)| *RefCell::borrow_mut(&count) += args.0)
    };
    let first = handle.clone();
    let second = handle.clone();
    drop(handle);
    drop(first);

    // one clone still alive: nothing is pruned
    manager.run_all((42,));
    assert_eq!(*count.borrow(), 42);
    assert_eq!(manager.len(), 1);

    // the last drop kills the entry; liveness never comes back
    drop(second);
    manager.run_all((42,));
    assert_eq!(manager.len(), 0);
    manager.run_all((42,));
    assert_eq!(*count.borrow(), 42);
    assert_eq!(manager.len(), 0);
}

#[test]
fn test_dropped_before_any_run() {
    let mut manager = CallbackManager::default();
    let count = Rc::new(RefCell::new(0));

    let handle = {
        let count = Rc::clone(&count);
        manager.add(move |args: (usize,)| *RefCell::borrow_mut(&count) += args.0)
    };
    assert_eq!(manager.len(), 1);
    drop(handle);

    // never invoked, pruned on the first pass, still gone on the second
    manager.run_all((42,));
    assert_eq!(manager.len(), 0);
    manager.run_all((42,));
    assert_eq!(*count.borrow(), 0);
    assert_eq!(manager.len(), 0);
}

#[test]
fn test_empty_manager_runs() {
    let mut manager: CallbackManager<fn((usize,))> = CallbackManager::default();
    assert_eq!(manager.len(), 0);
    manager.run_all((42,));
    assert_eq!(manager.len(), 0);
}
