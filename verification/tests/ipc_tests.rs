use aurora_kernel::ipc::message::{create_port, Message, MessagePortRegistry, MessageQueue};
use aurora_kernel::ipc::pipe::Pipe;
use aurora_kernel::ipc::shared_memory::SharedMemory;
use aurora_kernel::ipc::IpcError;

#[test]
fn message_basics() {
    let m = Message::new(1, 2, 3, vec![9, 8, 7]);
    assert_eq!(m.from, 1);
    assert_eq!(m.to, 2);
    assert_eq!(m.msg_type, 3);
    assert_eq!(m.len(), 3);
    assert!(!m.is_empty());
    let e = Message::with_capacity(10_000);
    assert!(e.is_empty());
    assert_eq!(e.len(), 0);
    assert_eq!((e.from, e.to, e.msg_type), (0, 0, 0));
    assert!(e.data.capacity() <= 10_000);
    let c = m.clone();
    assert_eq!(c.data, vec![9, 8, 7]);
}

#[test]
fn queue_is_fifo() {
    let mut q = MessageQueue::new(5, 4);
    assert!(q.is_empty());
    assert_eq!(q.send(Message::new(1, 5, 10, vec![1])), Ok(()));
    assert_eq!(q.send(Message::new(2, 5, 20, vec![2])), Ok(()));
    assert_eq!(q.len(), 2);
    let a = q.receive().unwrap();
    assert_eq!(a.msg_type, 10);
    let b = q.try_receive().unwrap();
    assert_eq!(b.msg_type, 20);
    assert!(matches!(q.receive(), Err(IpcError::QueueEmpty)));
}

#[test]
fn queue_full_refuses() {
    let mut q = MessageQueue::new(1, 1);
    assert_eq!(q.send(Message::new(0, 1, 0, vec![])), Ok(()));
    assert_eq!(q.send(Message::new(0, 1, 1, vec![])), Err(IpcError::QueueFull));
    assert_eq!(q.len(), 1);
}

#[test]
fn oversized_message_refused() {
    let mut q = MessageQueue::new(1, 8);
    assert_eq!(q.send(Message::new(0, 1, 0, vec![0u8; 4097])), Err(IpcError::QueueFull));
    assert_eq!(q.send(Message::new(0, 1, 0, vec![0u8; 4096])), Ok(()));
}

#[test]
fn ports_numbered_from_one() {
    let mut reg = MessagePortRegistry::new();
    let a = create_port(&mut reg, 3);
    let b = create_port(&mut reg, 3);
    let mut a = a;
    assert!(a.is_empty());
    assert_eq!(a.send(Message::new(1, 1, 0, vec![])), Ok(()));
    assert!(b.is_empty());
}

#[test]
fn pipe_write_then_read() {
    let mut p = Pipe::new();
    p.add_writer();
    p.add_reader();
    assert!(!p.can_read());
    assert!(p.can_write());
    assert_eq!(p.write(b"hello"), Ok(5));
    assert!(p.can_read());
    let mut buf = [0u8; 3];
    assert_eq!(p.read(&mut buf), Ok(3));
    assert_eq!(&buf, b"hel");
    let mut buf2 = [0u8; 8];
    assert_eq!(p.read(&mut buf2), Ok(2));
    assert_eq!(&buf2[..2], b"lo");
    assert_eq!(buf2[2], 0);
}

#[test]
fn pipe_empty_blocks_or_eof() {
    let mut p = Pipe::default();
    p.add_writer();
    let mut buf = [0u8; 4];
    assert_eq!(p.read(&mut buf), Err(IpcError::QueueEmpty));
    p.remove_writer();
    assert_eq!(p.read(&mut buf), Ok(0));
}

#[test]
fn pipe_capacity_limit() {
    let mut p = Pipe::new();
    let big = vec![1u8; 65536];
    assert_eq!(p.write(&big), Ok(65536));
    assert!(!p.can_write());
    assert_eq!(p.write(&[1]), Err(IpcError::QueueFull));
    let mut p2 = Pipe::new();
    assert_eq!(p2.write(&vec![0u8; 65537]), Err(IpcError::QueueFull));
}

#[test]
fn pipe_readers_counted() {
    let mut p = Pipe::new();
    p.add_reader();
    p.add_reader();
    p.remove_reader();
    p.add_writer();
    p.remove_writer();
    let mut buf = [0u8; 1];
    assert_eq!(p.read(&mut buf), Ok(0));
}

#[test]
fn shared_memory_refcount() {
    let mut s = SharedMemory::new(7, 0x1000, 4096);
    assert_eq!(s.id(), 7);
    assert_eq!(s.addr(), 0x1000);
    assert_eq!(s.size(), 4096);
    s.add_ref();
    assert_eq!(s.release(), 1);
    assert_eq!(s.release(), 0);
    let p = SharedMemory::with_phys(8, 0x2000, 0x9000, 8192);
    assert_eq!(p.id(), 8);
    assert_eq!(p.size(), 8192);
}
