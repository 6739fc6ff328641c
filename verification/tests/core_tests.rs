use linux_kernel_module::devices::decimal_text;
use linux_kernel_module::file_operations::{File, FileFlags, O_NONBLOCK};
use linux_kernel_module::error::Error;
use linux_kernel_module::printk::{LogLineWriter, LOG_LINE_MAX};
use linux_kernel_module::rcu::{RcuReadGuard, RcuState};
use linux_kernel_module::sched::{each_process, ProcessTable, TaskStruct, TASK_COMM_LEN};
use linux_kernel_module::types::{CStr, Mode};

#[test]
fn test_error_roundtrip() {
    let e = Error::from_kernel_errno(-22);
    assert_eq!(e.to_kernel_errno(), -22);
    assert_eq!(e, Error::from_kernel_errno(-22));
    assert_ne!(e, Error::from_kernel_errno(-14));
}

#[test]
fn test_mode_roundtrip() {
    assert_eq!(Mode::from_int(0o666).as_int(), 0o666);
    assert_eq!(Mode::from_int(0).as_int(), 0);
}

#[test]
fn test_cstr_accepts_terminated_string() {
    let c = CStr::new(b"hello\0".to_vec()).unwrap();
    assert_eq!(c.as_bytes(), b"hello\0");
    assert!(c.contains(b'e'));
    assert!(!c.contains(b'/'));
}

#[test]
fn test_cstr_rejects_bad_strings() {
    assert_eq!(CStr::new(b"".to_vec()).unwrap_err().to_kernel_errno(), -22);
    assert_eq!(CStr::new(b"nonul".to_vec()).unwrap_err().to_kernel_errno(), -22);
    assert_eq!(CStr::new(b"in\0side\0".to_vec()).unwrap_err().to_kernel_errno(), -22);
}

#[test]
fn test_log_line_writer() {
    let mut w = LogLineWriter::new();
    assert_eq!(w.as_bytes(), b"");
    w.write_str(b"printk with ");
    w.write_str(b"2 parameters!");
    assert_eq!(w.as_bytes(), b"printk with 2 parameters!");
}

#[test]
fn test_log_line_writer_truncates() {
    let mut w = LogLineWriter::new();
    let chunk = [b'x'; 600];
    w.write_str(&chunk);
    w.write_str(&chunk);
    assert_eq!(w.as_bytes().len(), LOG_LINE_MAX);
    w.write_str(b"more");
    assert_eq!(w.as_bytes().len(), LOG_LINE_MAX);
}

#[test]
fn test_decimal_text() {
    assert_eq!(decimal_text(0), b"0".to_vec());
    assert_eq!(decimal_text(8), b"8".to_vec());
    assert_eq!(decimal_text(1234), b"1234".to_vec());
    assert_eq!(decimal_text(1000000), b"1000000".to_vec());
}

#[test]
fn test_rcu_guard_nesting() {
    let mut state = RcuState::new();
    let outer = RcuReadGuard::new(&mut state);
    let inner = RcuReadGuard::new(&mut state);
    assert_eq!(state.reader_count(), 2);
    inner.release(&mut state);
    assert_eq!(state.reader_count(), 1);
    outer.release(&mut state);
    assert_eq!(state.reader_count(), 0);
}

fn comm_of(text: &[u8]) -> Vec<i8> {
    let mut raw = vec![0i8; TASK_COMM_LEN];
    for (i, b) in text.iter().enumerate() {
        raw[i] = *b as i8;
    }
    raw
}

#[test]
fn test_task_comm_stops_at_nul() {
    let mut task = TaskStruct::new(42, comm_of(b"areyouthere"));
    assert_eq!(task.tgid(), 42);
    let comm = task.comm();
    assert_eq!(comm.len(), TASK_COMM_LEN);
    assert_eq!(&comm[..11], b"areyouthere");
    assert!(comm[11..].iter().all(|b| *b == 0));
}

#[test]
fn test_task_comm_ignores_bytes_past_nul() {
    let mut raw = comm_of(b"ab");
    raw[3] = b'z' as i8;
    let mut task = TaskStruct::new(7, raw);
    let comm = task.comm();
    assert_eq!(&comm[..2], b"ab");
    assert!(comm[2..].iter().all(|b| *b == 0));
}

#[test]
fn test_for_each_process() {
    let mut state = RcuState::new();
    let guard = RcuReadGuard::new(&mut state);
    let table = ProcessTable::new(vec![
        TaskStruct::new(1, comm_of(b"init")),
        TaskStruct::new(17, comm_of(b"areyouthere")),
        TaskStruct::new(99, comm_of(b"shell")),
    ]);
    let tgids = each_process(&guard, &table);
    assert_eq!(tgids, vec![1, 17, 99]);
    assert_eq!(table.get(1).tgid(), 17);
    guard.release(&mut state);
}

#[test]
fn test_for_each_process_empty_table() {
    let mut state = RcuState::new();
    let guard = RcuReadGuard::new(&mut state);
    let table = ProcessTable::new(vec![]);
    assert!(each_process(&guard, &table).is_empty());
    guard.release(&mut state);
}

#[test]
fn test_file_view() {
    let f = File::new(5, O_NONBLOCK | 4);
    assert_eq!(f.pos(), 5);
    assert_eq!(f.flags().bits(), O_NONBLOCK);
    assert!(f.flags().contains(&FileFlags::nonblock()));
    let quiet = File::new(0, 4);
    assert_eq!(quiet.flags().bits(), 0);
    assert!(!quiet.flags().contains(&FileFlags::nonblock()));
}
