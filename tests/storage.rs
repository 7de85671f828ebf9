use doukutsu_save_editor::profile::FormatError;
use doukutsu_save_editor::storage::{IoTask, Storage};

#[test]
fn poll_returns_last_delivered_result_only() {
    let mut s = Storage::new();
    s.deliver(vec![1]);
    s.deliver(vec![2]);
    assert_eq!(s.try_read_data(), Some(vec![2]));
    assert_eq!(s.try_read_data(), None);
}

#[test]
fn poll_follows_completion_order_not_dispatch_order() {
    let mut s = Storage::new();
    s.open_dialog();
    s.open_dialog();
    assert_eq!(s.next_task(), Some(IoTask::Open));
    assert_eq!(s.next_task(), Some(IoTask::Open));
    // the second task finishes first
    s.deliver(b"second".to_vec());
    s.deliver(b"first".to_vec());
    assert_eq!(s.try_read_data(), Some(b"first".to_vec()));
    assert_eq!(s.try_read_data(), None);
}

#[test]
fn poll_with_nothing_pending_is_empty() {
    let mut s = Storage::new();
    assert_eq!(s.try_read_data(), None);
    assert_eq!(s.next_task(), None);
}

#[test]
fn tasks_leave_in_dispatch_order() {
    let mut s = Storage::new();
    s.try_write_data(&[7, 8, 9]);
    s.open_dialog();
    s.notify(FormatError::Truncated);
    assert_eq!(s.next_task(), Some(IoTask::Save(vec![7, 8, 9])));
    assert_eq!(s.next_task(), Some(IoTask::Open));
    assert_eq!(s.next_task(), Some(IoTask::Notify(FormatError::Truncated)));
    assert_eq!(s.next_task(), None);
}

#[test]
fn dropped_file_is_delivered() {
    let mut s = Storage::new();
    s.drag_handle(None);
    assert_eq!(s.try_read_data(), None);
    s.drag_handle(Some(vec![5, 6]));
    assert_eq!(s.try_read_data(), Some(vec![5, 6]));
}

#[test]
fn default_storage_is_empty() {
    let mut s = Storage::default();
    assert_eq!(s.try_read_data(), None);
    assert_eq!(s.next_task(), None);
}
