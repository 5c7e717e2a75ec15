//! The distributor: the one current status, read by pull and fanned out to
//! subscribers through bounded buffers that drop their oldest entry when full.

use crate::render::OutputData;
use vstd::prelude::*;

verus! {

/// How many updates a subscriber's buffer holds.
pub const SUBSCRIBER_BUFFER: usize = 32;

/// Adds an update to a subscriber's buffer. A full buffer drops its oldest
/// entry first; a buffer with no room at all stays empty.
pub open spec fn enqueue(queue: Seq<Seq<char>>, text: Seq<char>, capacity: nat) -> Seq<Seq<char>> {
    if capacity == 0 {
        queue
    } else if queue.len() >= capacity {
        queue.drop_first().push(text)
    } else {
        queue.push(text)
    }
}

/// The state of the distributor: the current status and, for every handle,
/// the updates that its subscriber has not taken yet, oldest first. A handle
/// that is not in use has no buffer.
pub struct Board {
    pub current: Seq<char>,
    pub capacity: nat,
    pub queues: Seq<Option<Seq<Seq<char>>>>,
}

impl Board {
    /// The distributor before anybody subscribed.
    pub open spec fn initial(current: Seq<char>, capacity: nat) -> Board {
        Board { current, capacity, queues: Seq::empty() }
    }

    /// No buffer holds more than the capacity.
    pub open spec fn wf(self) -> bool {
        forall|id: int|
            0 <= id < self.queues.len() ==> (#[trigger] self.queues[id] matches Some(queue)
                ==> queue.len() <= self.capacity)
    }

    /// The handle is in use.
    pub open spec fn is_subscribed(self, id: int) -> bool {
        0 <= id < self.queues.len() && self.queues[id] is Some
    }

    /// The status becomes `text`, and every subscriber's buffer takes it in.
    pub open spec fn publish(self, text: Seq<char>) -> Board {
        Board {
            current: text,
            queues: Seq::new(
                self.queues.len(),
                |id: int|
                    match self.queues[id] {
                        Some(queue) => Some(enqueue(queue, text, self.capacity)),
                        None => None,
                    },
            ),
            ..self
        }
    }

    /// The handle that the next subscriber gets: the lowest one not in use.
    pub open spec fn free_handle(self) -> int
        decreases self.queues.len(),
    {
        if self.queues.len() == 0 {
            0
        } else {
            let below = (Board { queues: self.queues.drop_last(), ..self }).free_handle();
            if below < self.queues.len() - 1 {
                below
            } else if self.queues.last() is None {
                self.queues.len() - 1
            } else {
                self.queues.len() as int
            }
        }
    }

    /// A subscriber joins under the free handle, with an empty buffer.
    pub open spec fn subscribe(self) -> Board {
        let id = self.free_handle();
        Board {
            queues: if id < self.queues.len() {
                self.queues.update(id, Some(Seq::empty()))
            } else {
                self.queues.push(Some(Seq::empty()))
            },
            ..self
        }
    }

    /// The oldest update that waits for the subscriber, if any.
    pub open spec fn front(self, id: int) -> Option<Seq<char>> {
        if self.is_subscribed(id) && self.queues[id]->0.len() > 0 {
            Some(self.queues[id]->0[0])
        } else {
            None
        }
    }

    /// The subscriber takes its oldest update, if it has any.
    pub open spec fn take(self, id: int) -> Board {
        if self.front(id) is Some {
            Board { queues: self.queues.update(id, Some(self.queues[id]->0.drop_first())), ..self }
        } else {
            self
        }
    }

    /// The subscriber leaves and its handle is free again.
    pub open spec fn unsubscribe(self, id: int) -> Board {
        if 0 <= id < self.queues.len() {
            Board { queues: self.queues.update(id, None), ..self }
        } else {
            self
        }
    }
}

/// The free handle is not in use, and every lower handle is.
pub proof fn lemma_free_handle(board: Board)
    ensures
        0 <= board.free_handle() <= board.queues.len(),
        !board.is_subscribed(board.free_handle()),
        forall|id: int| 0 <= id < board.free_handle() ==> board.is_subscribed(id),
    decreases board.queues.len(),
{
    if board.queues.len() > 0 {
        let rest = Board { queues: board.queues.drop_last(), ..board };
        lemma_free_handle(rest);
        assert forall|id: int| 0 <= id < board.free_handle() implies board.is_subscribed(id) by {
            if id < rest.queues.len() {
                assert(rest.is_subscribed(id));
            }
        }
    }
}

/// The distributor after the statuses of `texts` were published in order.
pub open spec fn publish_all(board: Board, texts: Seq<Seq<char>>) -> Board
    decreases texts.len(),
{
    if texts.len() == 0 {
        board
    } else {
        publish_all(board, texts.drop_last()).publish(texts.last())
    }
}

/// The last `capacity` entries of a list, or all of it where it is shorter.
pub open spec fn newest(texts: Seq<Seq<char>>, capacity: nat) -> Seq<Seq<char>> {
    if texts.len() <= capacity {
        texts
    } else {
        texts.subrange(texts.len() - capacity, texts.len() as int)
    }
}

/// No operation lets a buffer grow beyond the capacity.
pub proof fn lemma_buffers_stay_bounded(board: Board, text: Seq<char>, id: int)
    requires
        board.wf(),
    ensures
        board.publish(text).wf(),
        board.subscribe().wf(),
        board.take(id).wf(),
        board.unsubscribe(id).wf(),
{
    lemma_free_handle(board);
}

/// A new subscriber is in use under the free handle with an empty buffer;
/// the status and every other subscriber's buffer are as before.
pub proof fn lemma_subscribe(board: Board)
    ensures
        ({
            let id = board.free_handle();
            let joined = board.subscribe();
            &&& joined.is_subscribed(id)
            &&& joined.queues[id] == Some(Seq::<Seq<char>>::empty())
            &&& joined.front(id) is None
            &&& joined.current == board.current
            &&& forall|other: int|
                0 <= other < board.queues.len() && other != id ==> #[trigger] joined.queues[other]
                    == board.queues[other]
        }),
{
    lemma_free_handle(board);
}

/// Publishing changes who is subscribed for nobody, and gives every
/// subscriber the new status behind what it had: the buffer afterwards is the
/// old one with the status added, less its oldest entry where it was full.
pub proof fn lemma_publish_keeps_order(board: Board, text: Seq<char>, id: int)
    requires
        board.wf(),
        board.is_subscribed(id),
    ensures
        ({
            let queue = board.queues[id]->0;
            let after = board.publish(text);
            &&& after.current == text
            &&& after.queues.len() == board.queues.len()
            &&& after.is_subscribed(id)
            &&& after.queues[id]->0 == newest(queue.push(text), board.capacity)
        }),
{
    let queue = board.queues[id]->0;
    let after = board.publish(text);
    assert(after.queues[id]->0 =~= newest(queue.push(text), board.capacity));
}

/// Taking and leaving touch one subscriber only: the status and the buffers
/// of all others stay as they are.
pub proof fn lemma_subscribers_are_isolated(board: Board, id: int, other: int)
    requires
        0 <= other < board.queues.len(),
        other != id,
    ensures
        board.take(id).current == board.current,
        board.take(id).queues[other] == board.queues[other],
        board.unsubscribe(id).current == board.current,
        board.unsubscribe(id).queues[other] == board.queues[other],
{
}

/// What a subscriber finds after it joined and `texts` were published, if it
/// took nothing meanwhile: the newest of `texts`, as many as the buffer
/// holds, in the order of publishing. The status that was current when it
/// joined is not among them: that one it was handed on joining.
pub proof fn lemma_subscriber_sees_later_updates(board: Board, texts: Seq<Seq<char>>)
    ensures
        ({
            let id = board.free_handle();
            let after = publish_all(board.subscribe(), texts);
            &&& after.is_subscribed(id)
            &&& after.queues[id] == Some(newest(texts, board.capacity))
            &&& after.capacity == board.capacity
            &&& after.current == if texts.len() == 0 {
                board.current
            } else {
                texts.last()
            }
        }),
    decreases texts.len(),
{
    lemma_subscribe(board);
    let id = board.free_handle();
    if texts.len() == 0 {
        assert(newest(texts, board.capacity) =~= Seq::empty());
    } else {
        let earlier = texts.drop_last();
        lemma_subscriber_sees_later_updates(board, earlier);
        let mid = publish_all(board.subscribe(), earlier);
        let after = mid.publish(texts.last());
        assert(after.queues[id]->0 =~= newest(texts, board.capacity));
    }
}

/// What a push subscriber's connection delivered.
#[derive(Clone, Copy, Debug, PartialEq, Eq, Structural)]
pub enum ClientEvent {
    /// The client asked to close the stream.
    Close,
    /// A keep-alive probe; the transport answers it.
    Ping,
    /// Any other message.
    Other,
    /// The connection failed.
    Failed,
}

/// Tells whether a push subscriber's stream stays open after an event from
/// its client: a request to close and a failed connection end it, everything
/// else is passed over.
pub fn stream_stays_open(event: ClientEvent) -> (open: bool)
    ensures
        open == (event == ClientEvent::Ping || event == ClientEvent::Other),
{
    match event {
        ClientEvent::Close => false,
        ClientEvent::Ping => true,
        ClientEvent::Other => true,
        ClientEvent::Failed => false,
    }
}

/// The texts of a list of statuses.
spec fn texts(log: Seq<OutputData>) -> Seq<Seq<char>> {
    Seq::new(log.len(), |i: int| log[i]@)
}

/// The buffer that a cursor stands for: the entries of the log from the
/// cursor on.
spec fn buffer_at(log: Seq<OutputData>, cursor: Option<usize>) -> Option<Seq<Seq<char>>> {
    match cursor {
        Some(skip) => Some(texts(log).subrange(skip as int, log.len() as int)),
        None => None,
    }
}

/// The distributor. It keeps the last updates in one list and, for every
/// subscriber, how far into that list the subscriber has read.
#[derive(Debug)]
pub struct Distributor {
    current: OutputData,
    capacity: usize,
    log: Vec<OutputData>,
    cursors: Vec<Option<usize>>,
}

impl View for Distributor {
    type V = Board;

    closed spec fn view(&self) -> Board {
        Board {
            current: self.current@,
            capacity: self.capacity as nat,
            queues: Seq::new(self.cursors@.len(), |id: int| buffer_at(self.log@, self.cursors@[id])),
        }
    }
}

impl Distributor {
    #[verifier::type_invariant]
    spec fn cursors_in_log(&self) -> bool {
        &&& self.log@.len() <= self.capacity
        &&& forall|id: int|
            0 <= id < self.cursors@.len() ==> (#[trigger] self.cursors@[id] matches Some(skip)
                ==> skip <= self.log@.len())
    }

    /// A distributor with the standard buffer size and no subscribers.
    pub fn new(initial: OutputData) -> (distributor: Self)
        ensures
            distributor@ == Board::initial(initial@, SUBSCRIBER_BUFFER as nat),
            distributor@.wf(),
    {
        Self::with_capacity(initial, SUBSCRIBER_BUFFER)
    }

    /// A distributor whose subscribers each buffer up to `capacity` updates.
    pub fn with_capacity(initial: OutputData, capacity: usize) -> (distributor: Self)
        ensures
            distributor@ == Board::initial(initial@, capacity as nat),
            distributor@.wf(),
    {
        let distributor = Distributor {
            current: initial,
            capacity,
            log: Vec::new(),
            cursors: Vec::new(),
        };
        assert(distributor@.queues =~= Seq::empty());
        distributor
    }

    /// The current status.
    pub fn get_snapshot(&self) -> (snapshot: OutputData)
        ensures
            snapshot@ == self@.current,
    {
        self.current.clone()
    }

    /// Makes `new_state` the current status and hands it to every subscriber.
    pub fn publish(&mut self, new_state: OutputData)
        ensures
            final(self)@ == old(self)@.publish(new_state@),
            final(self)@.wf(),
    {
        proof {
            use_type_invariant(&*self);
        }
        let ghost before = self@;
        let ghost old_log = self.log@;
        let ghost old_cursors = self.cursors@;
        if self.capacity > 0 {
            let full = self.log.len() == self.capacity;
            let mut log: Vec<OutputData> = Vec::new();
            let mut i: usize = if full {
                1
            } else {
                0
            };
            let ghost start = i as int;
            while i < self.log.len()
                invariant
                    0 <= start <= i <= self.log@.len(),
                    self.log@ == old_log,
                    log@ == old_log.subrange(start, i as int),
                decreases self.log@.len() - i,
            {
                log.push(self.log[i].clone());
                assert(log@ =~= old_log.subrange(start, i + 1));
                i += 1;
            }
            log.push(new_state.clone());
            if full {
                let mut moved: Vec<Option<usize>> = Vec::new();
                let mut id: usize = 0;
                while id < self.cursors.len()
                    invariant
                        id <= self.cursors@.len(),
                        self.cursors@ == old_cursors,
                        moved@.len() == id,
                        forall|k: int|
                            0 <= k < id ==> #[trigger] moved@[k] == match old_cursors[k] {
                                Some(skip) => Some(
                                    if skip > 0 {
                                        (skip - 1) as usize
                                    } else {
                                        0usize
                                    },
                                ),
                                None => None,
                            },
                    decreases self.cursors@.len() - id,
                {
                    let cursor = match self.cursors[id] {
                        Some(skip) => Some(
                            if skip > 0 {
                                skip - 1
                            } else {
                                0
                            },
                        ),
                        None => None,
                    };
                    moved.push(cursor);
                    id += 1;
                }
                self.cursors = moved;
            }
            self.log = log;
        }
        self.current = new_state;
        proof {
            let after = self@;
            let want = before.publish(new_state@);
            assert(after.queues.len() == want.queues.len());
            assert forall|id: int| 0 <= id < after.queues.len() implies after.queues[id]
                == want.queues[id] by {
                match old_cursors[id] {
                    Some(skip) => {
                        assert(after.queues[id]->0 =~= want.queues[id]->0);
                    },
                    None => {},
                }
            }
            assert(after.queues =~= want.queues);
        }
    }

    /// Tells whether the handle is in use.
    pub fn is_subscribed(&self, id: usize) -> (subscribed: bool)
        ensures
            subscribed == self@.is_subscribed(id as int),
    {
        id < self.cursors.len() && self.cursors[id].is_some()
    }

    /// How many updates wait for the subscriber; none for a handle not in use.
    pub fn pending(&self, id: usize) -> (waiting: usize)
        ensures
            waiting == if self@.is_subscribed(id as int) {
                self@.queues[id as int]->0.len()
            } else {
                0
            },
            self@.wf(),
    {
        proof {
            use_type_invariant(self);
        }
        if id < self.cursors.len() {
            match self.cursors[id] {
                Some(skip) => self.log.len() - skip,
                None => 0,
            }
        } else {
            0
        }
    }

    /// Adds a subscriber. It is handed the current status at once, and its
    /// buffer starts empty: whatever it takes later was published later.
    pub fn subscribe(&mut self) -> (subscription: (usize, OutputData))
        ensures
            subscription.0 == old(self)@.free_handle(),
            subscription.1@ == old(self)@.current,
            final(self)@ == old(self)@.subscribe(),
            final(self)@.wf(),
    {
        proof {
            use_type_invariant(&*self);
            lemma_free_handle(self@);
        }
        let ghost before = self@;
        let ghost old_cursors = self.cursors@;
        let snapshot = self.current.clone();
        let end = self.log.len();
        let mut fresh: Vec<Option<usize>> = Vec::new();
        let mut placed: Option<usize> = None;
        let mut id: usize = 0;
        while id < self.cursors.len()
            invariant
                id <= self.cursors@.len(),
                self.cursors@ == old_cursors,
                self.log@.len() == end,
                fresh@.len() == id,
                placed matches Some(k) ==> k < id && old_cursors[k as int] is None,
                forall|j: int|
                    0 <= j < id && placed != Some(j as usize) ==> #[trigger] fresh@[j]
                        == old_cursors[j],
                forall|j: int|
                    0 <= j < id && (placed matches Some(k) ==> j < k) ==> (
                    #[trigger] old_cursors[j]) is Some,
                placed matches Some(k) ==> fresh@[k as int] == Some(end),
            decreases self.cursors@.len() - id,
        {
            let cursor = self.cursors[id];
            if placed.is_none() && cursor.is_none() {
                placed = Some(id);
                fresh.push(Some(end));
            } else {
                fresh.push(cursor);
            }
            id += 1;
        }
        let handle = match placed {
            Some(k) => k,
            None => {
                fresh.push(Some(end));
                id
            },
        };
        proof {
            let f = before.free_handle();
            assert forall|j: int| 0 <= j < handle implies before.is_subscribed(j) by {
                assert(old_cursors[j] is Some);
            }
            assert(!before.is_subscribed(handle as int));
            if f < handle {
                assert(before.is_subscribed(f));
            }
            if handle < f {
                assert(before.is_subscribed(handle as int));
            }
        }
        self.cursors = fresh;
        proof {
            let want = before.subscribe();
            assert(self@.queues.len() == want.queues.len());
            assert forall|j: int| 0 <= j < want.queues.len() implies self@.queues[j]
                == want.queues[j] by {
                if j == handle {
                    assert(self@.queues[j]->0 =~= Seq::empty());
                }
            }
            assert(self@.queues =~= want.queues);
        }
        (handle, snapshot)
    }

    /// Hands the subscriber its oldest waiting update, if it has one.
    pub fn take(&mut self, id: usize) -> (update: Option<OutputData>)
        ensures
            match update {
                Some(data) => old(self)@.front(id as int) == Some(data@),
                None => old(self)@.front(id as int) is None,
            },
            final(self)@ == old(self)@.take(id as int),
            final(self)@.wf(),
    {
        proof {
            use_type_invariant(&*self);
        }
        let ghost before = self@;
        let ghost old_cursors = self.cursors@;
        if id >= self.cursors.len() {
            return None;
        }
        match self.cursors[id] {
            Some(skip) => {
                if skip < self.log.len() {
                    let data = self.log[skip].clone();
                    let moved = self.replace_cursor(id, Some(skip + 1));
                    self.cursors = moved;
                    proof {
                        let want = before.take(id as int);
                        assert forall|j: int| 0 <= j < want.queues.len() implies self@.queues[j]
                            == want.queues[j] by {
                            if j == id {
                                assert(self@.queues[j]->0 =~= want.queues[j]->0);
                            }
                        }
                        assert(self@.queues =~= want.queues);
                    }
                    Some(data)
                } else {
                    None
                }
            },
            None => None,
        }
    }

    /// Removes the subscriber; its handle may be given out again. A handle
    /// that was never given out is ignored.
    pub fn unsubscribe(&mut self, id: usize)
        ensures
            final(self)@ == old(self)@.unsubscribe(id as int),
            final(self)@.wf(),
    {
        proof {
            use_type_invariant(&*self);
        }
        let ghost before = self@;
        if id < self.cursors.len() {
            let moved = self.replace_cursor(id, None);
            self.cursors = moved;
            proof {
                let want = before.unsubscribe(id as int);
                assert(self@.queues =~= want.queues);
            }
        }
    }

    /// The cursors with the one at `id` replaced.
    fn replace_cursor(&self, id: usize, cursor: Option<usize>) -> (moved: Vec<Option<usize>>)
        requires
            id < self.cursors@.len(),
        ensures
            moved@ == self.cursors@.update(id as int, cursor),
    {
        let mut moved: Vec<Option<usize>> = Vec::new();
        let mut i: usize = 0;
        while i < self.cursors.len()
            invariant
                i <= self.cursors@.len(),
                id < self.cursors@.len(),
                moved@ == self.cursors@.update(id as int, cursor).take(i as int),
            decreases self.cursors@.len() - i,
        {
            moved.push(
                if i == id {
                    cursor
                } else {
                    self.cursors[i]
                },
            );
            assert(moved@ =~= self.cursors@.update(id as int, cursor).take(i + 1));
            i += 1;
        }
        assert(self.cursors@.update(id as int, cursor).take(i as int) =~= self.cursors@.update(
            id as int,
            cursor,
        ));
        moved
    }
}

} // verus!
