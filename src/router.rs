//! The routing table of a server: the clients connected to it, the clients
//! it has heard of elsewhere, and its peer servers.
use vstd::prelude::*;

use crate::crypto::PublicKey;
use crate::types::{Client, ClientType, ClientView, Server, ServerView};

verus! {

broadcast use vstd::seq_lib::group_to_multiset_ensures;

/// A record filed under a public key.
pub trait Record: View + Sized {
    /// The key of a record, read from its view.
    spec fn key_of(v: Self::V) -> Seq<u8>;

    fn key(&self) -> (r: &PublicKey)
        ensures
            r@ == Self::key_of(self@),
    ;

    fn duplicate(&self) -> (r: Self)
        ensures
            r@ == self@,
    ;
}

impl Record for Client {
    open spec fn key_of(v: ClientView) -> Seq<u8> {
        v.public_key
    }

    fn key(&self) -> (r: &PublicKey) {
        &self.public_key
    }

    fn duplicate(&self) -> (r: Client) {
        Client::duplicate(self)
    }
}

impl Record for Server {
    open spec fn key_of(v: ServerView) -> Seq<u8> {
        v.public_key
    }

    fn key(&self) -> (r: &PublicKey) {
        &self.public_key
    }

    fn duplicate(&self) -> (r: Server) {
        Server::duplicate(self)
    }
}

impl Record for (Client, Server) {
    open spec fn key_of(v: (ClientView, ServerView)) -> Seq<u8> {
        v.0.public_key
    }

    fn key(&self) -> (r: &PublicKey) {
        &self.0.public_key
    }

    fn duplicate(&self) -> (r: (Client, Server)) {
        (self.0.duplicate(), self.1.duplicate())
    }
}

/// The record filed last under key `k` in `s`.
pub open spec fn latest<T: Record>(s: Seq<T>, k: Seq<u8>) -> Option<T::V>
    decreases s.len(),
{
    if s.len() == 0 {
        None
    } else if T::key_of(s.last()@) == k {
        Some(s.last()@)
    } else {
        latest::<T>(s.drop_last(), k)
    }
}

/// Records filed under public keys, at most one per key. They are kept in
/// a vector searched by key: Verus gives std's maps a usable specification
/// for integer keys only, and a key here is 33 bytes.
pub struct KeyedRecords<T> {
    items: Vec<T>,
}

impl<T: Record> KeyedRecords<T> {
    /// The records, in the order they were filed.
    pub closed spec fn records(&self) -> Seq<T> {
        self.items@
    }

    /// The record filed under `k`.
    pub open spec fn get(&self, k: Seq<u8>) -> Option<T::V> {
        latest::<T>(self.records(), k)
    }

    pub fn new() -> (r: KeyedRecords<T>)
        ensures
            forall|k: Seq<u8>| #[trigger] r.get(k) is None,
            r.records().len() == 0,
    {
        KeyedRecords { items: Vec::new() }
    }

    /// The record filed under `k`.
    pub fn find(&self, k: &PublicKey) -> (r: Option<&T>)
        ensures
            match r {
                Some(t) => self.get(k@) == Some(t@),
                None => self.get(k@) is None,
            },
    {
        let mut i: usize = self.items.len();
        assert(self.items@.subrange(0, i as int) =~= self.items@);
        while i > 0
            invariant
                i <= self.items@.len(),
                latest::<T>(self.items@.subrange(0, i as int), k@) == latest::<T>(self.items@, k@),
            decreases i,
        {
            let t = &self.items[i - 1];
            if *t.key() == *k {
                assert(self.items@.subrange(0, i as int).last() == self.items@[i - 1]);
                return Some(t);
            }
            assert(self.items@.subrange(0, i as int).drop_last() =~= self.items@.subrange(0, i - 1));
            i -= 1;
        }
        assert(self.items@.subrange(0, 0) =~= Seq::<T>::empty());
        None
    }

    /// Drops the record filed under `k`, if any.
    pub fn remove(&mut self, k: &PublicKey)
        ensures
            forall|kk: Seq<u8>|
                #[trigger] final(self).get(kk) == if kk == k@ {
                    None
                } else {
                    old(self).get(kk)
                },
    {
        let mut kept: Vec<T> = Vec::new();
        let mut i: usize = 0;
        while i < self.items.len()
            invariant
                i <= self.items@.len(),
                forall|kk: Seq<u8>|
                    #[trigger] latest::<T>(kept@, kk) == if kk == k@ {
                        None
                    } else {
                        latest::<T>(self.items@.subrange(0, i as int), kk)
                    },
            decreases self.items@.len() - i,
        {
            let t = &self.items[i];
            let ghost before = kept@;
            let ghost old_prefix = self.items@.subrange(0, i as int);
            let ghost tk = T::key_of(t@);
            let keep = *t.key() != *k;
            if keep {
                kept.push(t.duplicate());
            }
            i += 1;
            let ghost prefix = self.items@.subrange(0, i as int);
            assert(prefix.drop_last() =~= old_prefix);
            assert(prefix.last() == self.items@[i - 1]);
            assert forall|kk: Seq<u8>|
                #[trigger] latest::<T>(kept@, kk) == if kk == k@ {
                    None
                } else {
                    latest::<T>(prefix, kk)
                } by {
                assert(latest::<T>(before, kk) == if kk == k@ {
                    None
                } else {
                    latest::<T>(old_prefix, kk)
                });
                if keep {
                    assert(kept@.drop_last() =~= before);
                    assert(kept@.last()@ == prefix.last()@);
                } else {
                    assert(kept@ == before);
                    assert(tk == k@);
                }
            }
        }
        assert(self.items@.subrange(0, i as int) =~= self.items@);
        self.items = kept;
    }

    /// Files `t` under its key, in place of any record there.
    pub fn upsert(&mut self, t: T)
        ensures
            forall|kk: Seq<u8>|
                #[trigger] final(self).get(kk) == if kk == T::key_of(t@) {
                    Some(t@)
                } else {
                    old(self).get(kk)
                },
    {
        let k = t.key().clone();
        self.remove(&k);
        let ghost mid = self.items@;
        assert forall|kk: Seq<u8>|
            #[trigger] latest::<T>(mid, kk) == if kk == T::key_of(t@) {
                None
            } else {
                old(self).get(kk)
            } by {
            assert(self.get(kk) == latest::<T>(mid, kk));
        }
        self.items.push(t);
        assert forall|kk: Seq<u8>|
            #[trigger] self.get(kk) == if kk == T::key_of(t@) {
                Some(t@)
            } else {
                old(self).get(kk)
            } by {
            assert(self.items@.drop_last() =~= mid);
            assert(latest::<T>(mid, kk) == if kk == T::key_of(t@) {
                None
            } else {
                old(self).get(kk)
            });
        }
    }

    /// Copies of all records, in the order they were filed.
    pub fn snapshot(&self) -> (r: Vec<T>)
        ensures
            r@.len() == self.records().len(),
            forall|j: int| 0 <= j < r@.len() ==> #[trigger] r@[j]@ == self.records()[j]@,
    {
        let mut r: Vec<T> = Vec::new();
        let mut i: usize = 0;
        while i < self.items.len()
            invariant
                i <= self.items@.len(),
                r@.len() == i,
                forall|j: int| 0 <= j < i ==> #[trigger] r@[j]@ == self.items@[j]@,
            decreases self.items@.len() - i,
        {
            r.push(self.items[i].duplicate());
            i += 1;
        }
        r
    }
}

/// Lexicographic order of byte strings; on strings of one length, the order
/// of the big-endian integers they write.
pub open spec fn lex_less(a: Seq<u8>, b: Seq<u8>) -> bool
    decreases a.len(),
{
    if a.len() == 0 {
        b.len() > 0
    } else if b.len() == 0 {
        false
    } else if a[0] != b[0] {
        a[0] < b[0]
    } else {
        lex_less(a.drop_first(), b.drop_first())
    }
}

proof fn lemma_lex_irreflexive(a: Seq<u8>)
    ensures
        !lex_less(a, a),
    decreases a.len(),
{
    if a.len() > 0 {
        lemma_lex_irreflexive(a.drop_first());
    }
}

proof fn lemma_lex_transitive(a: Seq<u8>, b: Seq<u8>, c: Seq<u8>)
    requires
        lex_less(a, b),
        lex_less(b, c),
    ensures
        lex_less(a, c),
    decreases a.len(),
{
    if a.len() > 0 && b.len() > 0 && c.len() > 0 && a[0] == b[0] && b[0] == c[0] {
        lemma_lex_transitive(a.drop_first(), b.drop_first(), c.drop_first());
    }
}

/// Whether `a` comes before `b` in lexicographic order.
pub fn lex_less_exec(a: &[u8], b: &[u8]) -> (r: bool)
    ensures
        r == lex_less(a@, b@),
{
    let mut i: usize = 0;
    assert(a@.subrange(0, a@.len() as int) =~= a@);
    assert(b@.subrange(0, b@.len() as int) =~= b@);
    while i < a.len() && i < b.len()
        invariant
            i <= a@.len(),
            i <= b@.len(),
            lex_less(a@, b@) == lex_less(
                a@.subrange(i as int, a@.len() as int),
                b@.subrange(i as int, b@.len() as int),
            ),
        decreases a@.len() - i,
    {
        let ghost sa = a@.subrange(i as int, a@.len() as int);
        let ghost sb = b@.subrange(i as int, b@.len() as int);
        if a[i] != b[i] {
            assert(sa[0] == a@[i as int] && sb[0] == b@[i as int]);
            return a[i] < b[i];
        }
        assert(sa.drop_first() =~= a@.subrange(i + 1, a@.len() as int));
        assert(sb.drop_first() =~= b@.subrange(i + 1, b@.len() as int));
        i += 1;
    }
    b.len() > i
}

/// The XOR of two byte strings, over the length of the shorter.
pub open spec fn xor_distance(a: Seq<u8>, b: Seq<u8>) -> Seq<u8> {
    Seq::new(if a.len() <= b.len() { a.len() } else { b.len() }, |i: int| a[i] ^ b[i])
}

pub fn xor_distance_exec(a: &[u8], b: &[u8]) -> (r: Vec<u8>)
    ensures
        r@ == xor_distance(a@, b@),
{
    let n = if a.len() <= b.len() { a.len() } else { b.len() };
    let mut r: Vec<u8> = Vec::new();
    let mut i: usize = 0;
    while i < n
        invariant
            n <= a@.len(),
            n <= b@.len(),
            i <= n,
            r@.len() == i,
            forall|j: int| 0 <= j < i ==> #[trigger] r@[j] == a@[j] ^ b@[j],
        decreases n - i,
    {
        r.push(a[i] ^ b[i]);
        i += 1;
    }
    assert(r@ =~= xor_distance(a@, b@));
    r
}

/// Whether server `a` is strictly closer to key `target` than server `b`.
pub open spec fn closer(a: ServerView, b: ServerView, target: Seq<u8>) -> bool {
    lex_less(xor_distance(a.public_key, target), xor_distance(b.public_key, target))
}

/// Whether the servers are ordered by XOR distance to `target`, closest
/// first.
pub open spec fn by_distance(s: Seq<ServerView>, target: Seq<u8>) -> bool {
    forall|i: int, j: int| 0 <= i < j < s.len() ==> !closer(#[trigger] s[j], #[trigger] s[i], target)
}

proof fn lemma_insert_by_distance(vs: Seq<ServerView>, p: int, x: ServerView, t: Seq<u8>)
    requires
        0 <= p <= vs.len(),
        by_distance(vs, t),
        forall|m: int| 0 <= m < p ==> !closer(x, #[trigger] vs[m], t),
        p == vs.len() || closer(x, vs[p], t),
    ensures
        by_distance(vs.insert(p, x), t),
{
    let n = vs.insert(p, x);
    vs.insert_ensures(p, x);
    assert forall|i: int, j: int| 0 <= i < j < n.len() implies !closer(#[trigger] n[j], #[trigger] n[i], t) by {
        if i == p {
            let dj = xor_distance(vs[j - 1].public_key, t);
            let dx = xor_distance(x.public_key, t);
            let dp = xor_distance(vs[p].public_key, t);
            if lex_less(dj, dx) {
                lemma_lex_transitive(dj, dx, dp);
                if j - 1 == p {
                    lemma_lex_irreflexive(dp);
                } else {
                    assert(!closer(vs[j - 1], vs[p], t));
                }
            }
        } else if i < p && j > p {
            assert(!closer(vs[j - 1], vs[i], t));
        } else if i > p {
            assert(!closer(vs[j - 1], vs[i - 1], t));
        } else if j < p {
            assert(!closer(vs[j], vs[i], t));
        }
    }
}

/// The views of some records.
pub open spec fn server_views(s: Seq<Server>) -> Seq<ServerView> {
    s.map_values(|x: Server| x@)
}

/// The routing table of a server.
pub struct Router {
    /// Clients connected to this server.
    pub local_clients: KeyedRecords<Client>,
    /// Clients heard of elsewhere, with the server that hosts them.
    pub remote_clients: KeyedRecords<(Client, Server)>,
    /// Peer servers.
    pub servers: KeyedRecords<Server>,
}

impl Router {
    pub fn new() -> (r: Router)
        ensures
            forall|k: Seq<u8>| #[trigger] r.local_clients.get(k) is None,
            forall|k: Seq<u8>| #[trigger] r.remote_clients.get(k) is None,
            forall|k: Seq<u8>| #[trigger] r.servers.get(k) is None,
            r.servers.records().len() == 0,
    {
        Router {
            local_clients: KeyedRecords::new(),
            remote_clients: KeyedRecords::new(),
            servers: KeyedRecords::new(),
        }
    }

    /// Files a client as connected here, and forgets where else it was heard
    /// of.
    pub fn index_local_client(&mut self, client: Client)
        ensures
            forall|k: Seq<u8>|
                #[trigger] final(self).local_clients.get(k) == if k == client.public_key@ {
                    Some(client@)
                } else {
                    old(self).local_clients.get(k)
                },
            forall|k: Seq<u8>|
                #[trigger] final(self).remote_clients.get(k) == if k == client.public_key@ {
                    None
                } else {
                    old(self).remote_clients.get(k)
                },
            final(self).servers == old(self).servers,
    {
        self.remote_clients.remove(&client.public_key);
        self.local_clients.upsert(client);
    }

    /// Forgets a connected client; nothing happens if there is none.
    pub fn disconnect(&mut self, public_key: &PublicKey)
        ensures
            forall|k: Seq<u8>|
                #[trigger] final(self).local_clients.get(k) == if k == public_key@ {
                    None
                } else {
                    old(self).local_clients.get(k)
                },
            final(self).remote_clients == old(self).remote_clients,
            final(self).servers == old(self).servers,
    {
        self.local_clients.remove(public_key);
    }

    /// Files a client heard of at another server, unless it is connected
    /// here.
    pub fn index_remote_client(&mut self, client: Client, server: Server)
        ensures
            old(self).local_clients.get(client.public_key@) is Some ==> *final(self) == *old(self),
            old(self).local_clients.get(client.public_key@) is None ==> forall|k: Seq<u8>|
                #[trigger] final(self).remote_clients.get(k) == if k == client.public_key@ {
                    Some((client@, server@))
                } else {
                    old(self).remote_clients.get(k)
                },
            final(self).local_clients == old(self).local_clients,
            final(self).servers == old(self).servers,
    {
        if self.local_clients.find(&client.public_key).is_some() {
            return;
        }
        self.remote_clients.upsert((client, server));
    }

    /// Files a peer server.
    pub fn index_server(&mut self, server: Server)
        ensures
            forall|k: Seq<u8>|
                #[trigger] final(self).servers.get(k) == if k == server.public_key@ {
                    Some(server@)
                } else {
                    old(self).servers.get(k)
                },
            final(self).local_clients == old(self).local_clients,
            final(self).remote_clients == old(self).remote_clients,
    {
        self.servers.upsert(server);
    }

    /// Copies of the connected clients.
    pub fn local_clients(&self) -> (r: Vec<Client>)
        ensures
            r@.len() == self.local_clients.records().len(),
            forall|j: int| 0 <= j < r@.len() ==> #[trigger] r@[j]@ == self.local_clients.records()[j]@,
    {
        self.local_clients.snapshot()
    }

    /// Copies of the peer servers.
    pub fn servers(&self) -> (r: Vec<Server>)
        ensures
            r@.len() == self.servers.records().len(),
            forall|j: int| 0 <= j < r@.len() ==> #[trigger] r@[j]@ == self.servers.records()[j]@,
    {
        self.servers.snapshot()
    }

    /// The connected client filed under `public_key`, and whether its type
    /// answers a lookup for `client_type`.
    pub fn lookup_local_client(&self, public_key: &PublicKey, client_type: ClientType) -> (r: Option<(Client, bool)>)
        ensures
            match self.local_clients.get(public_key@) {
                Some(c) => r matches Some((found, available)) && found@ == c && available
                    == c.info.client_type.spec_matches(client_type),
                None => r is None,
            },
    {
        match self.local_clients.find(public_key) {
            Some(c) => Some((c.duplicate(), c.info.client_type.matches(client_type))),
            None => None,
        }
    }

    /// The remote client filed under `public_key` with its server, and
    /// whether its type answers a lookup for `client_type`.
    pub fn lookup_remote_client(&self, public_key: &PublicKey, client_type: ClientType) -> (r: Option<(Client, Server, bool)>)
        ensures
            match self.remote_clients.get(public_key@) {
                Some((c, s)) => r matches Some((found, server, available)) && found@ == c && server@ == s
                    && available == c.info.client_type.spec_matches(client_type),
                None => r is None,
            },
    {
        match self.remote_clients.find(public_key) {
            Some(pair) => Some(
                (pair.0.duplicate(), pair.1.duplicate(), pair.0.info.client_type.matches(client_type)),
            ),
            None => None,
        }
    }

    /// The peer servers to ask next for `public_key`: all of them, closest
    /// to the key by XOR distance first.
    pub fn lookup_remote_client_hint(&self, public_key: &PublicKey, client_type: ClientType) -> (r: Vec<Server>)
        ensures
            server_views(r@).to_multiset() == server_views(self.servers.records()).to_multiset(),
            by_distance(server_views(r@), public_key@),
    {
        let all = self.servers.snapshot();
        let target = public_key.to_bytes();
        let mut r: Vec<Server> = Vec::new();
        let mut i: usize = 0;
        assert(all@.subrange(0, 0) =~= Seq::<Server>::empty());
        assert(server_views(all@) =~= server_views(self.servers.records()));
        while i < all.len()
            invariant
                i <= all@.len(),
                target@ == public_key@,
                server_views(r@).to_multiset() == server_views(all@.subrange(0, i as int)).to_multiset(),
                by_distance(server_views(r@), public_key@),
            decreases all@.len() - i,
        {
            let s = all[i].duplicate();
            let ds = xor_distance_exec(s.public_key.to_bytes().as_slice(), target.as_slice());
            let mut p: usize = 0;
            while p < r.len()
                invariant
                    p <= r@.len(),
                    ds@ == xor_distance(s@.public_key, public_key@),
                    target@ == public_key@,
                    forall|m: int| 0 <= m < p ==> !closer(s@, #[trigger] r@[m]@, public_key@),
                ensures
                    p <= r@.len(),
                    forall|m: int| 0 <= m < p ==> !closer(s@, #[trigger] r@[m]@, public_key@),
                    p == r@.len() || closer(s@, r@[p as int]@, public_key@),
                decreases r@.len() - p,
            {
                let dp = xor_distance_exec(r[p].public_key.to_bytes().as_slice(), target.as_slice());
                if lex_less_exec(ds.as_slice(), dp.as_slice()) {
                    break;
                }
                p += 1;
            }
            let ghost vs = server_views(r@);
            let ghost sv = s@;
            proof {
                lemma_insert_by_distance(vs, p as int, sv, public_key@);
            }
            r.insert(p, s);
            assert(server_views(r@) =~= vs.insert(p as int, sv));
            assert(server_views(all@.subrange(0, i + 1)) =~= server_views(all@.subrange(0, i as int)).push(
                sv,
            ));
            i += 1;
        }
        assert(all@.subrange(0, i as int) =~= all@);
        r
    }
}

} // verus!
