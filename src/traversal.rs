//! Resolving a client across the federation: servers are asked in hint
//! order, each at most once, until one knows the client, none is left, or
//! the hop budget is spent.
//!
//! Candidates wait on a stack: the servers of the newest hint are asked
//! first, in the hint's order, so the walk keeps moving toward the key.
//! Which server to ask next is decided here; asking it is the caller's part.
use vstd::prelude::*;

use crate::crypto::PublicKey;
use crate::requests::LookupResponseBody;
use crate::types::{Client, ClientType, Server, ServerView};

verus! {

/// The most servers one traversal asks.
pub const MAX_HOPS: u64 = 8;

/// What to do next.
pub enum TraversalStep {
    /// Ask this server to look the target up.
    Ask(Server),
    /// No server is left to ask, or the hop budget is spent.
    Exhausted,
}

/// The position of the topmost waiting server not asked yet.
pub open spec fn last_unasked(pending: Seq<ServerView>, asked: Seq<Seq<u8>>) -> Option<int>
    decreases pending.len(),
{
    if pending.len() == 0 {
        None
    } else if !asked.contains(pending.last().public_key) {
        Some(pending.len() - 1)
    } else {
        last_unasked(pending.drop_last(), asked)
    }
}

/// The stack after a hint: each hinted server not asked yet is put on it,
/// the first of the hint on top.
pub open spec fn stacked(pending: Seq<ServerView>, hint: Seq<ServerView>, asked: Seq<Seq<u8>>) -> Seq<
    ServerView,
>
    decreases hint.len(),
{
    if hint.len() == 0 {
        pending
    } else {
        let below = stacked(pending, hint.drop_first(), asked);
        if asked.contains(hint[0].public_key) {
            below
        } else {
            below.push(hint[0])
        }
    }
}

/// A traversal in progress.
pub struct Traversal {
    target: PublicKey,
    client_type: ClientType,
    pending: Vec<Server>,
    asked: Vec<PublicKey>,
    hops: u64,
}

impl Traversal {
    /// The key sought.
    pub closed spec fn spec_target(&self) -> Seq<u8> {
        self.target@
    }

    /// The type wanted.
    pub closed spec fn spec_client_type(&self) -> ClientType {
        self.client_type
    }

    /// The waiting servers; the last is asked first.
    pub closed spec fn spec_pending(&self) -> Seq<ServerView> {
        self.pending@.map_values(|s: Server| s@)
    }

    /// The keys of the servers asked so far, in order.
    pub closed spec fn spec_asked(&self) -> Seq<Seq<u8>> {
        self.asked@.map_values(|k: PublicKey| k@)
    }

    /// How many servers were asked.
    pub closed spec fn spec_hops(&self) -> nat {
        self.hops as nat
    }

    /// No server is asked twice, and the budget holds.
    pub open spec fn wf(&self) -> bool {
        &&& self.spec_asked().no_duplicates()
        &&& self.spec_asked().len() == self.spec_hops()
        &&& self.spec_hops() <= MAX_HOPS
    }

    /// Starts a traversal for `target` from the servers of a first hint.
    pub fn new(target: PublicKey, client_type: ClientType, hint: Vec<Server>) -> (r: Traversal)
        ensures
            r.wf(),
            r.spec_target() == target@,
            r.spec_client_type() == client_type,
            r.spec_hops() == 0,
            r.spec_pending() == stacked(Seq::empty(), hint@.map_values(|s: Server| s@), Seq::empty()),
    {
        let mut r = Traversal { target, client_type, pending: Vec::new(), asked: Vec::new(), hops: 0 };
        assert(r.spec_asked() =~= Seq::<Seq<u8>>::empty());
        assert(r.spec_pending() =~= Seq::<ServerView>::empty());
        r.push_hint(&hint);
        r
    }

    /// The key sought.
    pub fn target(&self) -> (r: &PublicKey)
        ensures
            r@ == self.spec_target(),
    {
        &self.target
    }

    /// The type wanted.
    pub fn client_type(&self) -> (r: ClientType)
        ensures
            r == self.spec_client_type(),
    {
        self.client_type
    }

    fn was_asked(&self, key: &PublicKey) -> (r: bool)
        ensures
            r == self.spec_asked().contains(key@),
    {
        let mut i: usize = 0;
        while i < self.asked.len()
            invariant
                i <= self.asked@.len(),
                forall|j: int| 0 <= j < i ==> self.asked@[j]@ != key@,
            decreases self.asked@.len() - i,
        {
            if self.asked[i] == *key {
                assert(self.spec_asked()[i as int] == key@);
                return true;
            }
            i += 1;
        }
        assert forall|j: int| 0 <= j < self.spec_asked().len() implies self.spec_asked()[j] != key@ by {
            assert(self.spec_asked()[j] == self.asked@[j]@);
        }
        false
    }

    fn push_hint(&mut self, hint: &Vec<Server>)
        requires
            old(self).wf(),
        ensures
            final(self).wf(),
            final(self).spec_target() == old(self).spec_target(),
            final(self).spec_client_type() == old(self).spec_client_type(),
            final(self).spec_asked() == old(self).spec_asked(),
            final(self).spec_hops() == old(self).spec_hops(),
            final(self).spec_pending() == stacked(
                old(self).spec_pending(),
                hint@.map_values(|s: Server| s@),
                old(self).spec_asked(),
            ),
    {
        let ghost views = hint@.map_values(|s: Server| s@);
        let mut i: usize = hint.len();
        assert(views.subrange(i as int, views.len() as int) =~= Seq::<ServerView>::empty());
        while i > 0
            invariant
                i <= hint@.len(),
                views == hint@.map_values(|s: Server| s@),
                self.wf(),
                self.spec_target() == old(self).spec_target(),
                self.spec_client_type() == old(self).spec_client_type(),
                self.spec_asked() == old(self).spec_asked(),
                self.spec_hops() == old(self).spec_hops(),
                self.spec_pending() == stacked(
                    old(self).spec_pending(),
                    views.subrange(i as int, views.len() as int),
                    old(self).spec_asked(),
                ),
            decreases i,
        {
            i -= 1;
            let s = &hint[i];
            let ghost before = self.spec_pending();
            assert(views.subrange(i as int, views.len() as int).drop_first() =~= views.subrange(
                i + 1,
                views.len() as int,
            ));
            assert(views.subrange(i as int, views.len() as int)[0] == s@);
            if !self.was_asked(&s.public_key) {
                self.pending.push(s.duplicate());
                assert(self.spec_pending() =~= before.push(s@));
            }
        }
        assert(views.subrange(0, views.len() as int) =~= views);
    }

    /// The next server to ask: the topmost waiting one not asked yet. It is
    /// counted as asked from now on.
    pub fn next(&mut self) -> (r: TraversalStep)
        requires
            old(self).wf(),
        ensures
            final(self).wf(),
            final(self).spec_target() == old(self).spec_target(),
            final(self).spec_client_type() == old(self).spec_client_type(),
            old(self).spec_hops() >= MAX_HOPS ==> r is Exhausted && final(self).spec_asked() == old(
                self,
            ).spec_asked(),
            old(self).spec_hops() < MAX_HOPS ==> match last_unasked(
                old(self).spec_pending(),
                old(self).spec_asked(),
            ) {
                None => r is Exhausted && final(self).spec_asked() == old(self).spec_asked()
                    && final(self).spec_pending().len() == 0,
                Some(j) => r matches TraversalStep::Ask(s) && s@ == old(self).spec_pending()[j]
                    && !old(self).spec_asked().contains(s@.public_key) && final(self).spec_asked()
                    == old(self).spec_asked().push(s@.public_key) && final(self).spec_pending()
                    == old(self).spec_pending().subrange(0, j),
            },
    {
        if self.hops >= MAX_HOPS {
            return TraversalStep::Exhausted;
        }
        loop
            invariant
                self.wf(),
                self.hops < MAX_HOPS,
                self.spec_target() == old(self).spec_target(),
                self.spec_client_type() == old(self).spec_client_type(),
                self.spec_asked() == old(self).spec_asked(),
                self.spec_hops() == old(self).spec_hops(),
                self.spec_pending().len() <= old(self).spec_pending().len(),
                self.spec_pending() == old(self).spec_pending().subrange(
                    0,
                    self.spec_pending().len() as int,
                ),
                last_unasked(old(self).spec_pending(), old(self).spec_asked()) == last_unasked(
                    self.spec_pending(),
                    self.spec_asked(),
                ),
            decreases self.pending@.len(),
        {
            let ghost before = self.spec_pending();
            match self.pending.pop() {
                None => {
                    assert(self.spec_pending() =~= Seq::<ServerView>::empty());
                    return TraversalStep::Exhausted;
                },
                Some(s) => {
                    assert(self.spec_pending() =~= before.drop_last());
                    assert(before.last() == s@);
                    if !self.was_asked(&s.public_key) {
                        let ghost asked = self.spec_asked();
                        self.asked.push(s.public_key.clone());
                        self.hops = self.hops + 1;
                        assert(self.spec_asked() =~= asked.push(s@.public_key));
                        assert(self.spec_asked().no_duplicates()) by {
                            assert forall|a: int, b: int|
                                0 <= a < b < self.spec_asked().len() implies self.spec_asked()[a]
                                != self.spec_asked()[b] by {
                                if b == asked.len() {
                                    assert(asked[a] == self.spec_asked()[a]);
                                }
                            }
                        }
                        assert(old(self).spec_pending().subrange(0, before.len() - 1) =~= self.spec_pending());
                        return TraversalStep::Ask(s);
                    }
                    assert(old(self).spec_pending().subrange(0, before.len() - 1) =~= self.spec_pending());
                },
            }
        }
    }

    /// Takes in what `from` answered: a client it knows, if of a type that
    /// answers the lookup, resolves the traversal; a hint is stacked.
    pub fn answer(&mut self, from: &Server, reply: &LookupResponseBody) -> (r: Option<(Client, Server)>)
        requires
            old(self).wf(),
        ensures
            final(self).wf(),
            final(self).spec_target() == old(self).spec_target(),
            final(self).spec_client_type() == old(self).spec_client_type(),
            final(self).spec_asked() == old(self).spec_asked(),
            match reply {
                LookupResponseBody::Local { client, available } => *final(self) == *old(self) && if *available {
                    r matches Some((c, s)) && c@ == client@ && s@ == from@
                } else {
                    r is None
                },
                LookupResponseBody::Remote { client, server, available } => *final(self) == *old(self) && if *available {
                    r matches Some((c, s)) && c@ == client@ && s@ == server@
                } else {
                    r is None
                },
                LookupResponseBody::Hint { servers } => r is None && final(self).spec_pending() == stacked(
                    old(self).spec_pending(),
                    servers@.map_values(|s: Server| s@),
                    old(self).spec_asked(),
                ),
            },
    {
        match reply {
            LookupResponseBody::Local { client, available } => {
                if *available {
                    Some((client.duplicate(), from.duplicate()))
                } else {
                    None
                }
            },
            LookupResponseBody::Remote { client, server, available } => {
                if *available {
                    Some((client.duplicate(), server.duplicate()))
                } else {
                    None
                }
            },
            LookupResponseBody::Hint { servers } => {
                self.push_hint(servers);
                None
            },
        }
    }
}

} // verus!
