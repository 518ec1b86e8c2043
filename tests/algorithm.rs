use playground::algorithm::linked_list::{LinkedList, LinkedListError};
use playground::algorithm::queue::Queue;
use playground::algorithm::queue2::Queue as ByteQueue;
use playground::algorithm::stack::Stack;

#[test]
fn linked_list() {
    let mut linked_list = LinkedList::<u32>::new();
    assert!(linked_list.push(52).is_ok());
    assert!(linked_list.push(30).is_ok());

    assert!(linked_list.insert(120, 1).is_ok());
    assert!(linked_list.insert(144, 2).is_ok());
    assert!(linked_list.insert(1, 0).is_ok());

    assert!(linked_list.get(4).is_some());
    assert!(linked_list.get(0).is_some());

    assert_eq!(linked_list.get(0), linked_list.head());
    assert_eq!(linked_list.size(), 5);
}

#[test]
fn out_of_bounds() {
    let mut linked_list = LinkedList::<u32>::new();

    assert!(linked_list.insert(10, 1).is_err());
    assert!(linked_list.head().is_none());
    assert!(linked_list.get(0).is_none());
    assert_eq!(linked_list.size(), 0);
}

#[test]
fn linked_list_keeps_positions() {
    let mut list = LinkedList::<u32>::new();
    list.push(1).unwrap();
    list.push(2).unwrap();
    list.push(3).unwrap();
    list.insert(727, 1).unwrap();
    list.insert(1000, 2).unwrap();
    let values: Vec<u32> = (0..5).map(|i| list.get(i).unwrap().value).collect();
    assert_eq!(values, vec![1, 727, 1000, 2, 3]);
    assert!(list.get(5).is_none());
    assert_eq!(list.insert(9, 7), Err(LinkedListError::OutOfBounds));
    assert_eq!(list.size(), 5);
}

#[test]
fn queue() {
    let mut queue = Queue::<u32>::new();

    assert!(queue.dequeue().is_none());
    assert!(queue.peek().is_none());
    assert_eq!(queue.size(), 0);

    queue.enqueue(52);
    assert_eq!(queue.peek().unwrap(), &52);
    assert_eq!(queue.size(), 1);
    assert!(queue.dequeue().is_some());
    assert!(queue.dequeue().is_none());

    queue.enqueue(102);
    queue.enqueue(533);
    assert_eq!(queue.size(), 2);
    assert_eq!(queue.peek().unwrap(), &102);
}

#[test]
fn test() {
    let mut q = ByteQueue::new();

    for v in 1..=100 {
        q.enqueue(v);
    }

    assert_eq!(q.size(), 100);
    assert_eq!(q.peek().unwrap(), &1);

    for _ in 0..120 {
        q.dequeue();
    }

    assert!(q.peek().is_none());

    for v in 0..=52 {
        q.enqueue(v);
        if v % 10 == 0 {
            q.dequeue();
        }
    }

    assert_eq!(q.size(), 47);
}

#[test]
fn byte_queue_order_across_growth() {
    let mut q = ByteQueue::new();
    for v in 0..25u8 {
        q.enqueue(v);
    }
    for v in 0..25u8 {
        assert_eq!(q.dequeue(), Some(v));
    }
    assert_eq!(q.dequeue(), None);
    q.enqueue(7);
    assert_eq!(q.peek(), Some(&7));
}

#[test]
fn test_new_stack() {
    let stack: Stack<i32> = Stack::new();
    assert_eq!(stack.size(), 0);
    assert!(stack.peek().is_none());
}

#[test]
fn test_push() {
    let mut stack: Stack<i32> = Stack::new();

    stack.push(10);
    stack.push(20);

    assert_eq!(stack.size(), 2);
    assert_eq!(stack.peek(), Some(&10));
}

#[test]
fn test_pop() {
    let mut stack: Stack<i32> = Stack::new();

    stack.push(10);
    stack.push(20);

    assert_eq!(stack.pop(), Some(20));
    assert_eq!(stack.size(), 1);

    assert_eq!(stack.pop(), Some(10));
    assert_eq!(stack.size(), 0);

    assert_eq!(stack.pop(), None);
}

#[test]
fn test_peek() {
    let mut stack: Stack<i32> = Stack::new();

    assert!(stack.peek().is_none());

    stack.push(10);

    assert_eq!(stack.peek(), Some(&10));
}

#[test]
fn test_size() {
    let mut stack: Stack<i32> = Stack::new();

    assert_eq!(stack.size(), 0);

    stack.push(10);
    stack.push(20);

    assert_eq!(stack.size(), 2);

    stack.pop();

    assert_eq!(stack.size(), 1);
}

#[test]
fn test_stack_with_strings() {
    let mut stack: Stack<String> = Stack::new();

    stack.push("Hello".to_string());
    stack.push("World".to_string());

    assert_eq!(stack.size(), 2);
    assert_eq!(stack.pop(), Some("World".to_string()));
    assert_eq!(stack.pop(), Some("Hello".to_string()));
    assert_eq!(stack.pop(), None);
}
