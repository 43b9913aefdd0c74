//! A FIFO message queue: the state of the channel that every task of the bot
//! uses to hand text to another task.
//!
//! The queue is unbounded: a producer that outpaces its consumer grows it
//! without limit. Callers that need a ceiling check `len` before `send`.
use std::collections::VecDeque;
use vstd::prelude::*;

verus! {

/// An unbounded first-in, first-out queue of items.
pub struct MessageQueue<T> {
    msg: VecDeque<T>,
}

/// What `recv` does to a queue whose contents are `s`: the item it hands out,
/// if any, and the contents left behind.
pub open spec fn recv_spec<T>(s: Seq<T>) -> (Option<T>, Seq<T>) {
    if s.len() == 0 {
        (None, s)
    } else {
        (Some(s[0]), s.drop_first())
    }
}

impl<T> View for MessageQueue<T> {
    type V = Seq<T>;

    closed spec fn view(&self) -> Seq<T> {
        self.msg@
    }
}

impl<T> MessageQueue<T> {
    /// An empty queue.
    pub fn new() -> (q: Self)
        ensures
            q@ == Seq::<T>::empty(),
    {
        MessageQueue { msg: VecDeque::new() }
    }

    /// Appends `message` at the tail.
    pub fn send(&mut self, message: T)
        ensures
            final(self)@ == old(self)@.push(message),
    {
        self.msg.push_back(message);
    }

    /// Removes and returns the head item; `None` leaves an empty queue as it is
    /// and tells the caller to wait for the next `send`.
    pub fn recv(&mut self) -> (r: Option<T>)
        ensures
            (r, final(self)@) == recv_spec(old(self)@),
    {
        self.msg.pop_front()
    }

    /// Whether no item is waiting.
    pub fn is_empty(&self) -> (r: bool)
        ensures
            r == (self@.len() == 0),
    {
        self.msg.len() == 0
    }

    /// The number of items waiting.
    pub fn len(&self) -> (r: usize)
        ensures
            r == self@.len(),
    {
        self.msg.len()
    }

    /// Drops every waiting item.
    pub fn clear(&mut self)
        ensures
            final(self)@ == Seq::<T>::empty(),
    {
        self.msg.clear();
    }
}

/// One call made on a shared queue by some task: a `send` of an item, or a
/// `recv` by any of the receivers.
pub enum QueueOp<T> {
    Send(T),
    Recv,
}

/// The items that a run of `ops` sends, in the order of the calls.
pub open spec fn sent_items<T>(ops: Seq<QueueOp<T>>) -> Seq<T>
    decreases ops.len(),
{
    if ops.len() == 0 {
        Seq::empty()
    } else {
        let rest = sent_items(ops.drop_first());
        match ops[0] {
            QueueOp::Send(x) => seq![x] + rest,
            QueueOp::Recv => rest,
        }
    }
}

/// Runs `ops` one after another on a queue holding `s`: the items that the
/// `recv` calls hand out, in order, and the contents left at the end.
pub open spec fn run_ops<T>(s: Seq<T>, ops: Seq<QueueOp<T>>) -> (Seq<T>, Seq<T>)
    decreases ops.len(),
{
    if ops.len() == 0 {
        (Seq::empty(), s)
    } else {
        match ops[0] {
            QueueOp::Send(x) => run_ops(s.push(x), ops.drop_first()),
            QueueOp::Recv => {
                let (r, s2) = recv_spec(s);
                let (d, left) = run_ops(s2, ops.drop_first());
                match r {
                    Some(x) => (seq![x] + d, left),
                    None => (d, left),
                }
            },
        }
    }
}

/// Items sent one after another by one producer come out of `recv` in the
/// order in which they were sent.
pub proof fn lemma_fifo<T>(a: T, b: T, c: T)
    ensures
        ({
            let s = Seq::<T>::empty().push(a).push(b).push(c);
            let (r1, s1) = recv_spec(s);
            let (r2, s2) = recv_spec(s1);
            let (r3, s3) = recv_spec(s2);
            r1 == Some(a) && r2 == Some(b) && r3 == Some(c) && s3.len() == 0
        }),
{
}

/// Whatever the interleaving of `send` and `recv` calls, every item is handed
/// out by exactly one `recv` or is still waiting, none is handed out twice and
/// none is lost: what was delivered followed by what is left is exactly what
/// was there followed by what was sent, in order.
pub proof fn lemma_exactly_once<T>(s: Seq<T>, ops: Seq<QueueOp<T>>)
    ensures
        run_ops(s, ops).0 + run_ops(s, ops).1 == s + sent_items(ops),
        run_ops(s, ops).0.to_multiset().add(run_ops(s, ops).1.to_multiset())
            == s.to_multiset().add(sent_items(ops).to_multiset()),
    decreases ops.len(),
{
    if ops.len() > 0 {
        let rest = ops.drop_first();
        match ops[0] {
            QueueOp::Send(x) => {
                lemma_exactly_once(s.push(x), rest);
                assert(s.push(x) + sent_items(rest) =~= s + (seq![x] + sent_items(rest)));
            },
            QueueOp::Recv => {
                let (r, s2) = recv_spec(s);
                lemma_exactly_once(s2, rest);
                if s.len() > 0 {
                    let (d, left) = run_ops(s2, rest);
                    assert(seq![s[0]] + d + left =~= seq![s[0]] + (d + left));
                    assert(seq![s[0]] + (s2 + sent_items(rest)) =~= s + sent_items(rest));
                }
            },
        }
    }
    let (d, left) = run_ops(s, ops);
    vstd::seq_lib::lemma_multiset_commutative(d, left);
    vstd::seq_lib::lemma_multiset_commutative(s, sent_items(ops));
}

/// A queue that starts empty hands nothing out until a `send` has been made.
pub proof fn lemma_empty_never_delivers<T>(ops: Seq<QueueOp<T>>)
    requires
        sent_items(ops).len() == 0,
    ensures
        run_ops(Seq::<T>::empty(), ops).0.len() == 0,
{
    lemma_exactly_once(Seq::<T>::empty(), ops);
    assert(Seq::<T>::empty() + sent_items(ops) =~= Seq::<T>::empty());
}

} // verus!
