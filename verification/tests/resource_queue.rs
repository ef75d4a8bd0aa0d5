use bevy_tinkerbox_editor::resource_queue::ResourceHandles;

#[test]
fn pass_moves_loaded_handles_in_order() {
    let mut q = ResourceHandles::new();
    assert!(q.is_all_done());
    q.push_waiting(1);
    q.push_waiting(2);
    q.push_waiting(3);
    assert!(!q.is_all_done());
    let ready = q.process_pass(&vec![true, false, true]);
    assert_eq!(ready, vec![1, 3]);
    assert_eq!(q.waiting.iter().copied().collect::<Vec<u64>>(), vec![2]);
    assert_eq!(q.finished, vec![1, 3]);
    assert!(!q.is_all_done());
    let ready = q.process_pass(&vec![true]);
    assert_eq!(ready, vec![2]);
    assert_eq!(q.finished, vec![1, 3, 2]);
    assert!(q.is_all_done());
}

#[test]
fn nothing_loaded_changes_nothing() {
    let mut q = ResourceHandles::new();
    q.push_waiting(8);
    q.push_waiting(9);
    let ready = q.process_pass(&vec![false, false]);
    assert!(ready.is_empty());
    assert_eq!(q.waiting.iter().copied().collect::<Vec<u64>>(), vec![8, 9]);
    assert!(q.finished.is_empty());
}

#[test]
fn empty_pass_is_done() {
    let mut q = ResourceHandles::new();
    let ready = q.process_pass(&vec![]);
    assert!(ready.is_empty());
    assert!(q.is_all_done());
}
