//! The bookkeeping of a message inbox kept on disk.
//!
//! Each `(receiver, channel)` inbox has an index: the 8-byte big-endian ids
//! of its messages, in the order they arrived. Adding a message appends its
//! id. Polling walks the index from the front, reads the message of each id
//! whose file is there, skips the ids whose file is gone, stops after `limit`
//! messages, and keeps the part of the index it did not reach.
use vstd::prelude::*;

use crate::crypto::{be_bytes, be_bytes_spec};

verus! {

/// The integer written by eight big-endian bytes.
pub open spec fn be_value(b: Seq<u8>) -> u64 {
    ((b[0] as u64) << 56u64) | ((b[1] as u64) << 48u64) | ((b[2] as u64) << 40u64) | ((
    b[3] as u64) << 32u64) | ((b[4] as u64) << 24u64) | ((b[5] as u64) << 16u64) | ((
    b[6] as u64) << 8u64) | (b[7] as u64)
}

proof fn lemma_be_bytes_of_value(b0: u8, b1: u8, b2: u8, b3: u8, b4: u8, b5: u8, b6: u8, b7: u8)
    ensures
        be_bytes_spec(be_value(seq![b0, b1, b2, b3, b4, b5, b6, b7])) == seq![b0, b1, b2, b3, b4, b5, b6, b7],
{
    let v = be_value(seq![b0, b1, b2, b3, b4, b5, b6, b7]);
    assert(v == ((b0 as u64) << 56u64) | ((b1 as u64) << 48u64) | ((b2 as u64) << 40u64) | ((
    b3 as u64) << 32u64) | ((b4 as u64) << 24u64) | ((b5 as u64) << 16u64) | ((b6 as u64)
        << 8u64) | (b7 as u64));
    assert((v >> 56u64) as u8 == b0 && (v >> 48u64) as u8 == b1 && (v >> 40u64) as u8 == b2
        && (v >> 32u64) as u8 == b3 && (v >> 24u64) as u8 == b4 && (v >> 16u64) as u8 == b5
        && (v >> 8u64) as u8 == b6 && v as u8 == b7) by (bit_vector)
        requires
            v == ((b0 as u64) << 56u64) | ((b1 as u64) << 48u64) | ((b2 as u64) << 40u64) | ((
            b3 as u64) << 32u64) | ((b4 as u64) << 24u64) | ((b5 as u64) << 16u64) | ((
            b6 as u64) << 8u64) | (b7 as u64),
    ;
    assert(be_bytes_spec(v) =~= seq![b0, b1, b2, b3, b4, b5, b6, b7]);
}

/// The bytes of an index holding `ids`.
pub open spec fn index_bytes(ids: Seq<u64>) -> Seq<u8>
    decreases ids.len(),
{
    if ids.len() == 0 {
        Seq::empty()
    } else {
        index_bytes(ids.drop_last()) + be_bytes_spec(ids.last())
    }
}

/// The ids of an inbox's messages, oldest first.
pub struct InboxIndex {
    ids: Vec<u64>,
}

impl View for InboxIndex {
    type V = Seq<u64>;

    closed spec fn view(&self) -> Seq<u64> {
        self.ids@
    }
}

impl InboxIndex {
    /// An index with no ids.
    pub fn new() -> (r: InboxIndex)
        ensures
            r@ == Seq::<u64>::empty(),
    {
        InboxIndex { ids: Vec::new() }
    }

    /// Reads an index from its bytes; `None` where their length is not a
    /// multiple of eight.
    pub fn from_bytes(bytes: &[u8]) -> (r: Option<InboxIndex>)
        ensures
            match r {
                Some(index) => index_bytes(index@) == bytes@,
                None => bytes@.len() % 8 != 0,
            },
    {
        if bytes.len() % 8 != 0 {
            return None;
        }
        let mut ids: Vec<u64> = Vec::new();
        let mut off: usize = 0;
        while off < bytes.len()
            invariant
                bytes@.len() % 8 == 0,
                off <= bytes@.len(),
                off % 8 == 0,
                index_bytes(ids@) == bytes@.subrange(0, off as int),
            decreases bytes@.len() - off,
        {
            let ghost chunk = bytes@.subrange(off as int, off + 8);
            let v: u64 = ((bytes[off] as u64) << 56u64) | ((bytes[off + 1] as u64) << 48u64) | ((
            bytes[off + 2] as u64) << 40u64) | ((bytes[off + 3] as u64) << 32u64) | ((bytes[off
                + 4] as u64) << 24u64) | ((bytes[off + 5] as u64) << 16u64) | ((bytes[off + 6] as u64)
                << 8u64) | (bytes[off + 7] as u64);
            proof {
                assert(chunk =~= seq![
                    chunk[0], chunk[1], chunk[2], chunk[3], chunk[4], chunk[5], chunk[6], chunk[7]
                ]);
                lemma_be_bytes_of_value(
                    chunk[0],
                    chunk[1],
                    chunk[2],
                    chunk[3],
                    chunk[4],
                    chunk[5],
                    chunk[6],
                    chunk[7],
                );
                assert(v == be_value(chunk));
            }
            let ghost before = ids@;
            ids.push(v);
            assert(ids@.drop_last() =~= before);
            assert(bytes@.subrange(0, off + 8) =~= bytes@.subrange(0, off as int) + chunk);
            off = off + 8;
        }
        assert(bytes@.subrange(0, off as int) =~= bytes@);
        Some(InboxIndex { ids })
    }

    /// The bytes of the index.
    pub fn to_bytes(&self) -> (r: Vec<u8>)
        ensures
            r@ == index_bytes(self@),
    {
        let mut r: Vec<u8> = Vec::new();
        let mut i: usize = 0;
        while i < self.ids.len()
            invariant
                i <= self.ids@.len(),
                r@ == index_bytes(self.ids@.subrange(0, i as int)),
            decreases self.ids@.len() - i,
        {
            let mut b = be_bytes(self.ids[i]);
            r.append(&mut b);
            i += 1;
            assert(self.ids@.subrange(0, i as int).drop_last() =~= self.ids@.subrange(0, i - 1));
        }
        assert(self.ids@.subrange(0, i as int) =~= self.ids@);
        r
    }

    /// The number of ids.
    pub fn len(&self) -> (r: usize)
        ensures
            r == self@.len(),
    {
        self.ids.len()
    }

    /// Appends the id of a new message.
    pub fn push(&mut self, id: u64)
        ensures
            final(self)@ == old(self)@.push(id),
    {
        self.ids.push(id);
    }
}

/// What polling an index does: `ids` is the index, `limit` how many
/// messages may still be taken, and `present[i]` whether the file of `ids[i]`
/// is there. The result is the ids of the messages taken, in order, and the
/// number of index slots the walk consumed.
pub open spec fn drain(ids: Seq<u64>, limit: nat, present: Seq<bool>) -> (Seq<u64>, nat)
    decreases ids.len(),
{
    if limit == 0 || ids.len() == 0 {
        (Seq::empty(), 0)
    } else {
        let here = present.len() > 0 && present[0];
        let rest = drain(
            ids.drop_first(),
            if here { (limit - 1) as nat } else { limit },
            if present.len() > 0 { present.drop_first() } else { present },
        );
        (if here { seq![ids[0]] + rest.0 } else { rest.0 }, rest.1 + 1)
    }
}

/// A poll in progress over an index.
pub struct PollCursor {
    ids: Vec<u64>,
    shift: usize,
    limit: u64,
    taken: Vec<u64>,
    /// The limit the poll started with.
    start_limit: Ghost<nat>,
    /// For each slot consumed, whether its message was found.
    found: Ghost<Seq<bool>>,
}

impl PollCursor {
    /// The index being walked.
    pub closed spec fn ids(&self) -> Seq<u64> {
        self.ids@
    }

    /// How many slots of the index the walk has consumed.
    pub closed spec fn shift(&self) -> nat {
        self.shift as nat
    }

    /// How many more messages may be taken.
    pub closed spec fn limit(&self) -> nat {
        self.limit as nat
    }

    /// The ids of the messages taken so far.
    pub closed spec fn taken(&self) -> Seq<u64> {
        self.taken@
    }

    /// The limit the poll started with.
    pub closed spec fn start_limit(&self) -> nat {
        self.start_limit@
    }

    /// For each slot consumed so far, whether its message was found.
    pub closed spec fn found(&self) -> Seq<bool> {
        self.found@
    }

    /// The walk so far agrees with `drain`: whatever the files of the slots
    /// not yet reached, the whole poll is what was taken so far followed by
    /// the drain of the rest of the index.
    pub closed spec fn wf(&self) -> bool {
        &&& self.shift <= self.ids@.len()
        &&& self.found@.len() == self.shift
        &&& forall|p: Seq<bool>|
            #[trigger] drain(self.ids@, self.start_limit@, self.found@ + p) == ({
                let rest = drain(
                    self.ids@.subrange(self.shift as int, self.ids@.len() as int),
                    self.limit as nat,
                    p,
                );
                (self.taken@ + rest.0, (self.shift + rest.1) as nat)
            })
    }

    /// Starts a poll over `index` that takes at most `limit` messages, or all
    /// of them.
    pub fn new(index: InboxIndex, limit: Option<u64>) -> (r: PollCursor)
        ensures
            r.wf(),
            r.ids() == index@,
            r.shift() == 0,
            r.limit() == match limit {
                Some(l) => l as nat,
                None => u64::MAX as nat,
            },
            r.taken() == Seq::<u64>::empty(),
            r.start_limit() == r.limit(),
            r.found() == Seq::<bool>::empty(),
    {
        let limit = match limit {
            Some(l) => l,
            None => u64::MAX,
        };
        let r = PollCursor {
            ids: index.ids,
            shift: 0,
            limit,
            taken: Vec::new(),
            start_limit: Ghost(limit as nat),
            found: Ghost(Seq::empty()),
        };
        assert(r.ids@.subrange(0, r.ids@.len() as int) =~= r.ids@);
        assert forall|p: Seq<bool>| #[trigger] (Seq::<bool>::empty() + p) == p by {
            assert(Seq::<bool>::empty() + p =~= p);
        }
        assert forall|x: Seq<u64>| #[trigger] (Seq::<u64>::empty() + x) == x by {
            assert(Seq::<u64>::empty() + x =~= x);
        }
        r
    }

    /// The id whose message to read next; `None` once the limit is reached
    /// or the index is walked.
    pub fn next(&self) -> (r: Option<u64>)
        requires
            self.wf(),
        ensures
            r == if self.limit() == 0 || self.shift() == self.ids().len() {
                None
            } else {
                Some(self.ids()[self.shift() as int])
            },
    {
        if self.limit == 0 || self.shift == self.ids.len() {
            None
        } else {
            Some(self.ids[self.shift])
        }
    }

    /// Records the outcome for the id that `next` gave: `found` if its
    /// message was read. The slot is consumed either way.
    pub fn advance(&mut self, found: bool)
        requires
            old(self).wf(),
            old(self).limit() > 0,
            old(self).shift() < old(self).ids().len(),
        ensures
            final(self).wf(),
            final(self).start_limit() == old(self).start_limit(),
            final(self).found() == old(self).found().push(found),
            final(self).ids() == old(self).ids(),
            final(self).shift() == old(self).shift() + 1,
            final(self).limit() == if found {
                (old(self).limit() - 1) as nat
            } else {
                old(self).limit()
            },
            final(self).taken() == if found {
                old(self).taken().push(old(self).ids()[old(self).shift() as int])
            } else {
                old(self).taken()
            },
    {
        // the index is a vector, so its length, and the shift below it, fit
        // a usize
        let ghost n = self.ids.len();
        let ghost ids = self.ids@;
        let ghost shift = self.shift as int;
        let ghost old_taken = self.taken@;
        let ghost old_found = self.found@;
        let ghost old_limit = self.limit as nat;
        if found {
            let id = self.ids[self.shift];
            self.taken.push(id);
            self.limit = self.limit - 1;
        }
        self.shift = self.shift + 1;
        self.found = Ghost(old_found.push(found));
        proof {
            let rest = ids.subrange(shift, ids.len() as int);
            assert(rest.drop_first() =~= ids.subrange(shift + 1, ids.len() as int));
            assert forall|p: Seq<bool>|
                #[trigger] drain(ids, self.start_limit@, self.found@ + p) == ({
                    let after = drain(
                        ids.subrange(self.shift as int, ids.len() as int),
                        self.limit as nat,
                        p,
                    );
                    (self.taken@ + after.0, (self.shift + after.1) as nat)
                }) by {
                let q = seq![found] + p;
                assert(self.found@ + p =~= old_found + q);
                assert(q.drop_first() =~= p);
                assert(q[0] == found);
                let after = drain(ids.subrange(shift + 1, ids.len() as int), self.limit as nat, p);
                if found {
                    assert(old_taken + (seq![ids[shift]] + after.0) =~= self.taken@ + after.0);
                }
            }
        }
    }

    /// The ids of the messages taken.
    pub fn taken_ids(&self) -> (r: Vec<u64>)
        ensures
            r@ == self.taken(),
    {
        self.taken.clone()
    }

    /// Ends the poll: the index that stays, and how many ids it holds.
    pub fn finish(self) -> (r: (InboxIndex, u64))
        requires
            self.wf(),
        ensures
            r.0@ == self.ids().subrange(self.shift() as int, self.ids().len() as int),
            r.1 == r.0@.len(),
    {
        let mut rest: Vec<u64> = Vec::new();
        let mut i: usize = self.shift;
        while i < self.ids.len()
            invariant
                self.shift <= i <= self.ids@.len(),
                rest@ == self.ids@.subrange(self.shift as int, i as int),
            decreases self.ids@.len() - i,
        {
            rest.push(self.ids[i]);
            i += 1;
            assert(rest@ =~= self.ids@.subrange(self.shift as int, i as int));
        }
        let n = rest.len() as u64;
        (InboxIndex { ids: rest }, n)
    }
}

/// A poll walked to its end (the limit reached or the index walked), in
/// which every message was found, took the first `min(limit, n)` ids of the
/// index in order and consumed exactly their slots, so `n - min(limit, n)`
/// remain.
pub proof fn lemma_finished_poll(c: PollCursor)
    requires
        c.wf(),
        c.limit() == 0 || c.shift() == c.ids().len(),
        forall|i: int| 0 <= i < c.found().len() ==> #[trigger] c.found()[i],
    ensures
        c.start_limit() >= c.ids().len() ==> c.taken() == c.ids() && c.shift() == c.ids().len(),
        c.start_limit() < c.ids().len() ==> c.taken() == c.ids().subrange(0, c.start_limit() as int)
            && c.shift() == c.start_limit(),
{
    let n = c.ids().len();
    let p = Seq::new((n - c.shift()) as nat, |i: int| true);
    let rest = c.ids().subrange(c.shift() as int, n as int);
    assert(drain(c.ids(), c.start_limit(), c.found() + p) == ({
        let d = drain(rest, c.limit(), p);
        (c.taken() + d.0, (c.shift() + d.1) as nat)
    }));
    assert(drain(rest, c.limit(), p) == (Seq::<u64>::empty(), 0nat));
    assert(c.taken() + Seq::<u64>::empty() =~= c.taken());
    let all = c.found() + p;
    assert(all_present(all, n));
    if c.start_limit() >= n {
        lemma_poll_takes_all(c.ids(), c.start_limit(), all);
    } else {
        lemma_poll_takes_prefix_only(c.ids(), c.start_limit(), all);
    }
}

proof fn lemma_poll_takes_prefix_only(ids: Seq<u64>, k: nat, present: Seq<bool>)
    requires
        k < ids.len(),
        all_present(present, ids.len()),
    ensures
        drain(ids, k, present) == (ids.subrange(0, k as int), k),
    decreases k,
{
    if k > 0 {
        assert(all_present(present.drop_first(), ids.drop_first().len()));
        lemma_poll_takes_prefix_only(ids.drop_first(), (k - 1) as nat, present.drop_first());
        assert(seq![ids[0]] + ids.drop_first().subrange(0, k - 1) =~= ids.subrange(0, k as int));
    } else {
        assert(ids.subrange(0, 0) =~= Seq::<u64>::empty());
    }
}

/// Whether every message file is there.
pub open spec fn all_present(present: Seq<bool>, n: nat) -> bool {
    present.len() >= n && forall|i: int| 0 <= i < n ==> #[trigger] present[i]
}

/// A poll of an index whose files are all there, with a limit of at least its
/// length, takes every id in order and consumes the whole index.
pub proof fn lemma_poll_takes_all(ids: Seq<u64>, limit: nat, present: Seq<bool>)
    requires
        limit >= ids.len(),
        all_present(present, ids.len()),
    ensures
        drain(ids, limit, present) == (ids, ids.len()),
    decreases ids.len(),
{
    if ids.len() > 0 {
        assert(all_present(present.drop_first(), ids.drop_first().len()));
        lemma_poll_takes_all(ids.drop_first(), (limit - 1) as nat, present.drop_first());
        assert(seq![ids[0]] + ids.drop_first() =~= ids);
    }
}

/// A poll with limit `k` below the length of an index whose files are all
/// there takes the first `k` ids and consumes exactly their slots, so `n - k`
/// remain; a poll without limit of what remains takes the rest.
pub proof fn lemma_poll_takes_prefix(ids: Seq<u64>, k: nat, present: Seq<bool>)
    requires
        k < ids.len() <= u64::MAX,
        all_present(present, ids.len()),
    ensures
        drain(ids, k, present) == (ids.subrange(0, k as int), k),
        ids.len() - k == ids.subrange(k as int, ids.len() as int).len(),
        drain(
            ids.subrange(k as int, ids.len() as int),
            u64::MAX as nat,
            present.subrange(k as int, present.len() as int),
        ) == (ids.subrange(k as int, ids.len() as int), (ids.len() - k) as nat),
    decreases k,
{
    if k > 0 {
        assert(all_present(present.drop_first(), ids.drop_first().len()));
        lemma_poll_takes_prefix(ids.drop_first(), (k - 1) as nat, present.drop_first());
        assert(seq![ids[0]] + ids.drop_first().subrange(0, k - 1) =~= ids.subrange(0, k as int));
        assert(ids.drop_first().subrange(k - 1, ids.len() - 1) =~= ids.subrange(k as int, ids.len() as int));
        assert(present.drop_first().subrange(k - 1, present.len() - 1) =~= present.subrange(
            k as int,
            present.len() as int,
        ));
    } else {
        assert(ids.subrange(0, 0) =~= Seq::<u64>::empty());
        assert(ids.subrange(0, ids.len() as int) =~= ids);
        assert(present.subrange(0, present.len() as int) =~= present);
        lemma_poll_takes_all(ids, u64::MAX as nat, present);
    }
}

/// A poll with limit zero takes nothing and consumes nothing.
pub proof fn lemma_poll_limit_zero(ids: Seq<u64>, present: Seq<bool>)
    ensures
        drain(ids, 0, present) == (Seq::<u64>::empty(), 0nat),
{
}

} // verus!
