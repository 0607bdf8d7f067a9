use rget::Queue;

#[test]
fn test_default() {
    let d: Queue<usize> = Queue::default();
    assert!(d.tail().is_none());
    assert!(d.head().is_none());
    assert_eq!(d.len(), 0);
}

#[test]
fn test_push_queue() {
    let new = 10;
    let mut q: Queue<usize> = Queue::default();
    assert!(q.is_empty());
    q.push(new);
    assert!(!q.is_empty());
    assert_eq!(*q.tail().unwrap(), new);
}

#[test]
fn test_pop_queue() {
    let mut q: Queue<usize> = Queue::default();
    q.push(10);
    q.push(42);
    q.push(3);
    let ten = q.pop().expect("This should be 3");
    assert!(ten == 10);
    let foutytwo = q.pop().expect("This should be 42");
    assert!(foutytwo == 42);
    q.push(69);
    let _ = q.pop();
    let _ = q.pop();
    assert!(q.is_empty());
    assert!(q.head().is_none());
    assert!(q.tail().is_none());
    let none = q.pop();
    assert!(none.is_none());
}

#[test]
fn pops_come_out_in_push_order() {
    let mut q: Queue<u32> = Queue::new();
    let values = vec![5, 1, 4, 1, 5, 9, 2, 6];
    for v in &values {
        q.push(*v);
    }
    let mut out = Vec::new();
    for _ in 0..values.len() {
        out.push(q.pop().unwrap());
    }
    assert_eq!(out, values);
    assert!(q.is_empty());
}

#[test]
fn is_empty_matches_length() {
    let mut q: Queue<&str> = Queue::new();
    assert!(q.is_empty());
    assert_eq!(q.len(), 0);
    q.push("a");
    q.push("b");
    assert!(!q.is_empty());
    assert_eq!(q.len(), 2);
    assert_eq!(q.head(), Some(&"a"));
    assert_eq!(q.tail(), Some(&"b"));
    q.pop();
    assert_eq!(q.len(), 1);
    assert_eq!(q.head(), Some(&"b"));
    assert_eq!(q.tail(), Some(&"b"));
    assert_eq!(q.pop(), Some("b"));
    assert!(q.is_empty());
    assert!(q.head().is_none());
    assert!(q.tail().is_none());
}

#[test]
fn pop_on_empty_queue_is_none() {
    let mut q: Queue<u8> = Queue::new();
    assert_eq!(q.pop(), None);
    assert_eq!(q.pop(), None);
    assert_eq!(q.len(), 0);
}
