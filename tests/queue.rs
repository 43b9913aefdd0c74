use std::sync::atomic::{AtomicUsize, Ordering};
use std::sync::Arc;

use twitch_bot::queue::MessageQueue;

#[test]
fn fifo_order_single_producer() {
    let mut q: MessageQueue<String> = MessageQueue::new();
    q.send("a".to_string());
    q.send("b".to_string());
    q.send("c".to_string());
    assert_eq!(q.recv(), Some("a".to_string()));
    assert_eq!(q.recv(), Some("b".to_string()));
    assert_eq!(q.recv(), Some("c".to_string()));
    assert_eq!(q.recv(), None);
}

#[test]
fn empty_queue_hands_out_nothing() {
    let mut q: MessageQueue<u32> = MessageQueue::new();
    assert!(q.is_empty());
    assert_eq!(q.recv(), None);
    assert_eq!(q.recv(), None);
    assert_eq!(q.len(), 0);
    q.send(7);
    assert_eq!(q.recv(), Some(7));
}

#[test]
fn interleaved_calls_deliver_each_item_once() {
    let mut q: MessageQueue<u32> = MessageQueue::new();
    let mut delivered = Vec::new();
    for i in 0..10u32 {
        q.send(i);
        if i % 3 == 0 {
            if let Some(x) = q.recv() {
                delivered.push(x);
            }
        }
    }
    while let Some(x) = q.recv() {
        delivered.push(x);
    }
    assert_eq!(delivered, (0..10u32).collect::<Vec<u32>>());
}

#[test]
fn len_and_clear() {
    let mut q: MessageQueue<u8> = MessageQueue::new();
    q.send(1);
    q.send(2);
    assert_eq!(q.len(), 2);
    assert!(!q.is_empty());
    q.clear();
    assert_eq!(q.len(), 0);
    assert_eq!(q.recv(), None);
}

#[test]
fn concurrent_receivers_get_each_item_exactly_once() {
    const ITEMS: usize = 200;
    const RECEIVERS: usize = 5;
    let runtime = tokio::runtime::Builder::new_multi_thread().worker_threads(4).build().unwrap();
    let mut all: Vec<usize> = runtime.block_on(async {
        let queue = Arc::new(tokio::sync::Mutex::new(MessageQueue::<usize>::new()));
        let taken = Arc::new(AtomicUsize::new(0));
        let mut receivers = Vec::new();
        for _ in 0..RECEIVERS {
            let queue = queue.clone();
            let taken = taken.clone();
            receivers.push(tokio::spawn(async move {
                let mut got = Vec::new();
                while taken.load(Ordering::SeqCst) < ITEMS {
                    let item = queue.lock().await.recv();
                    match item {
                        Some(x) => {
                            taken.fetch_add(1, Ordering::SeqCst);
                            got.push(x);
                        }
                        None => tokio::task::yield_now().await,
                    }
                }
                got
            }));
        }
        let mut senders = Vec::new();
        for s in 0..4usize {
            let queue = queue.clone();
            senders.push(tokio::spawn(async move {
                for i in 0..ITEMS / 4 {
                    queue.lock().await.send(s * (ITEMS / 4) + i);
                    tokio::task::yield_now().await;
                }
            }));
        }
        for s in senders {
            s.await.unwrap();
        }
        let mut all = Vec::new();
        for r in receivers {
            all.extend(r.await.unwrap());
        }
        all
    });
    all.sort();
    assert_eq!(all, (0..ITEMS).collect::<Vec<usize>>());
}
