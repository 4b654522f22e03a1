//! The dashboard's aggregate over all live sessions, fed by the event stream.
use vstd::prelude::*;

use crate::bench::BenchEvent;
use crate::stats::Stats;

verus! {

/// What the dashboard shows of one session.
#[derive(Clone, Copy, Debug, PartialEq, Eq, Structural)]
pub struct Client {
    pub id: usize,
    pub connected: bool,
    pub stats: Option<Stats>,
}

/// Sessions kept in increasing order of id, each id once.
pub open spec fn ids_increasing(s: Seq<Client>) -> bool {
    forall|i: int, j: int| 0 <= i < j < s.len() ==> s[i].id < s[j].id
}

/// The entry of session `id`, if there is one.
pub open spec fn entry(s: Seq<Client>, id: usize) -> Option<Client> {
    if exists|i: int| 0 <= i < s.len() && s[i].id == id {
        Some(s[choose|i: int| 0 <= i < s.len() && s[i].id == id])
    } else {
        None
    }
}

/// Number of connected sessions.
pub open spec fn count_connected(s: Seq<Client>) -> nat
    decreases s.len(),
{
    if s.len() == 0 {
        0
    } else {
        count_connected(s.drop_last()) + if s.last().connected {
            1nat
        } else {
            0nat
        }
    }
}

/// Total send rate over the sessions that have statistics.
pub open spec fn total_send(s: Seq<Client>) -> nat
    decreases s.len(),
{
    if s.len() == 0 {
        0
    } else {
        total_send(s.drop_last()) + match s.last().stats {
            Some(st) => st.send_kbps as nat,
            None => 0nat,
        }
    }
}

/// Total receive rate over the sessions that have statistics.
pub open spec fn total_recv(s: Seq<Client>) -> nat
    decreases s.len(),
{
    if s.len() == 0 {
        0
    } else {
        total_recv(s.drop_last()) + match s.last().stats {
            Some(st) => st.recv_kbps as nat,
            None => 0nat,
        }
    }
}

pub open spec fn cap_u64(n: nat) -> u64 {
    if n > u64::MAX {
        u64::MAX
    } else {
        n as u64
    }
}

/// The sessions known to the dashboard.
pub struct AppState {
    clients: Vec<Client>,
}

impl View for AppState {
    type V = Seq<Client>;

    closed spec fn view(&self) -> Seq<Client> {
        self.clients@
    }
}

impl AppState {
    pub open spec fn inv(&self) -> bool {
        ids_increasing(self@)
    }

    pub fn new() -> (r: AppState)
        ensures
            r@ == Seq::<Client>::empty(),
            r.inv(),
    {
        AppState { clients: Vec::new() }
    }

    /// Index of the first entry whose id is at least `id`.
    fn position(&self, id: usize) -> (r: usize)
        requires
            self.inv(),
        ensures
            r <= self@.len(),
            forall|i: int| 0 <= i < r ==> self@[i].id < id,
            r < self@.len() ==> self@[r as int].id >= id,
    {
        let mut i: usize = 0;
        while i < self.clients.len()
            invariant
                i <= self@.len(),
                self@ == self.clients@,
                forall|k: int| 0 <= k < i ==> self@[k].id < id,
            decreases self.clients.len() - i,
        {
            if self.clients[i].id >= id {
                return i;
            }
            i = i + 1;
        }
        i
    }

    /// Registers session `id`, connecting and without statistics; an entry
    /// already there for `id` is replaced.
    pub fn add_client(&mut self, id: usize)
        requires
            old(self).inv(),
        ensures
            final(self).inv(),
            entry(final(self)@, id) == Some(Client { id, connected: false, stats: None }),
            forall|k: usize| k != id ==> entry(final(self)@, k) == entry(old(self)@, k),
    {
        let fresh = Client { id, connected: false, stats: None };
        let p = self.position(id);
        if p < self.clients.len() && self.clients[p].id == id {
            self.clients.set(p, fresh);
        } else {
            self.clients.insert(p, fresh);
        }
        proof {
            let s = self@;
            assert(s[p as int] == fresh);
            assert forall|k: usize| k != id implies entry(s, k) == entry(old(self)@, k) by {
                lemma_entry_shift(old(self)@, s, p as int, k);
            }
        }
    }

    /// Marks session `id` connected, if it is known.
    pub fn set_client_connected(&mut self, id: usize)
        requires
            old(self).inv(),
        ensures
            final(self).inv(),
            entry(final(self)@, id) == (match entry(old(self)@, id) {
                Some(c) => Some(Client { connected: true, ..c }),
                None => None,
            }),
            forall|k: usize| k != id ==> entry(final(self)@, k) == entry(old(self)@, k),
    {
        let p = self.position(id);
        if p < self.clients.len() && self.clients[p].id == id {
            let c = self.clients[p];
            self.clients.set(p, Client { connected: true, ..c });
            proof {
                lemma_entry_at(old(self)@, p as int);
                lemma_entry_at(self@, p as int);
                assert forall|k: usize| k != id implies entry(self@, k) == entry(old(self)@, k) by {
                    lemma_entry_update(old(self)@, self@, p as int, k);
                }
            }
        } else {
            proof {
                lemma_entry_absent(old(self)@, p as int, id);
            }
        }
    }

    /// Records the latest statistics of session `id`, if it is known.
    pub fn set_client_stats(&mut self, id: usize, stats: Stats)
        requires
            old(self).inv(),
        ensures
            final(self).inv(),
            entry(final(self)@, id) == (match entry(old(self)@, id) {
                Some(c) => Some(Client { stats: Some(stats), ..c }),
                None => None,
            }),
            forall|k: usize| k != id ==> entry(final(self)@, k) == entry(old(self)@, k),
    {
        let p = self.position(id);
        if p < self.clients.len() && self.clients[p].id == id {
            let c = self.clients[p];
            self.clients.set(p, Client { stats: Some(stats), ..c });
            proof {
                lemma_entry_at(old(self)@, p as int);
                lemma_entry_at(self@, p as int);
                assert forall|k: usize| k != id implies entry(self@, k) == entry(old(self)@, k) by {
                    lemma_entry_update(old(self)@, self@, p as int, k);
                }
            }
        } else {
            proof {
                lemma_entry_absent(old(self)@, p as int, id);
            }
        }
    }

    /// Forgets session `id`.
    pub fn remove_client(&mut self, id: usize)
        requires
            old(self).inv(),
        ensures
            final(self).inv(),
            entry(final(self)@, id) is None,
            forall|k: usize| k != id ==> entry(final(self)@, k) == entry(old(self)@, k),
    {
        let p = self.position(id);
        if p < self.clients.len() && self.clients[p].id == id {
            self.clients.remove(p);
            proof {
                assert(old(self)@ =~= self@.insert(p as int, old(self)@[p as int]));
                assert forall|k: usize| k != id implies entry(self@, k) == entry(old(self)@, k) by {
                    lemma_entry_shift(self@, old(self)@, p as int, k);
                }
                lemma_entry_absent(self@, p as int, id);
            }
        } else {
            proof {
                lemma_entry_absent(old(self)@, p as int, id);
            }
        }
    }

    /// Applies one event of the observation stream: `Connecting` registers
    /// the session, `Connected` and `Stats` update it, `Disconnected` forgets it.
    pub fn apply_event(&mut self, event: BenchEvent)
        requires
            old(self).inv(),
        ensures
            final(self).inv(),
            forall|k: usize| k != event.session() ==> entry(final(self)@, k) == entry(old(self)@, k),
            match event {
                BenchEvent::Connecting(id) => entry(final(self)@, id) == Some(
                    Client { id, connected: false, stats: None },
                ),
                BenchEvent::Connected(id) => entry(final(self)@, id) == (match entry(old(self)@, id) {
                    Some(c) => Some(Client { connected: true, ..c }),
                    None => None,
                }),
                BenchEvent::Stats(id, st) => entry(final(self)@, id) == (match entry(
                    old(self)@,
                    id,
                ) {
                    Some(c) => Some(Client { stats: Some(st), ..c }),
                    None => None,
                }),
                BenchEvent::Disconnected(id) => entry(final(self)@, id) is None,
            },
    {
        match event {
            BenchEvent::Connecting(id) => self.add_client(id),
            BenchEvent::Connected(id) => self.set_client_connected(id),
            BenchEvent::Stats(id, st) => self.set_client_stats(id, st),
            BenchEvent::Disconnected(id) => self.remove_client(id),
        }
    }

    /// The sessions in increasing order of id.
    pub fn get_clients(&self) -> (r: &[Client])
        ensures
            r@ == self@,
    {
        self.clients.as_slice()
    }

    /// Number of sessions known.
    pub fn clients_sum(&self) -> (r: usize)
        ensures
            r == self@.len(),
    {
        self.clients.len()
    }

    /// Number of connected sessions.
    pub fn clients_connected(&self) -> (r: usize)
        ensures
            r == count_connected(self@),
    {
        let mut n: usize = 0;
        let mut i: usize = 0;
        while i < self.clients.len()
            invariant
                i <= self@.len(),
                self@ == self.clients@,
                n == count_connected(self@.subrange(0, i as int)),
                n <= i,
            decreases self.clients.len() - i,
        {
            proof {
                assert(self@.subrange(0, i + 1).drop_last() =~= self@.subrange(0, i as int));
            }
            if self.clients[i].connected {
                n = n + 1;
            }
            i = i + 1;
        }
        proof {
            assert(self@.subrange(0, i as int) =~= self@);
        }
        n
    }

    /// Total send rate in kbps, capped at `u64::MAX`.
    pub fn sum_send_kbps(&self) -> (r: u64)
        ensures
            r == cap_u64(total_send(self@)),
    {
        let mut sum: u64 = 0;
        let mut i: usize = 0;
        while i < self.clients.len()
            invariant
                i <= self@.len(),
                self@ == self.clients@,
                sum == cap_u64(total_send(self@.subrange(0, i as int))),
            decreases self.clients.len() - i,
        {
            proof {
                assert(self@.subrange(0, i + 1).drop_last() =~= self@.subrange(0, i as int));
            }
            match self.clients[i].stats {
                Some(st) => {
                    sum = sum.saturating_add(st.send_kbps);
                },
                None => {},
            }
            i = i + 1;
        }
        proof {
            assert(self@.subrange(0, i as int) =~= self@);
        }
        sum
    }

    /// Total receive rate in kbps, capped at `u64::MAX`.
    pub fn sum_recv_kbps(&self) -> (r: u64)
        ensures
            r == cap_u64(total_recv(self@)),
    {
        let mut sum: u64 = 0;
        let mut i: usize = 0;
        while i < self.clients.len()
            invariant
                i <= self@.len(),
                self@ == self.clients@,
                sum == cap_u64(total_recv(self@.subrange(0, i as int))),
            decreases self.clients.len() - i,
        {
            proof {
                assert(self@.subrange(0, i + 1).drop_last() =~= self@.subrange(0, i as int));
            }
            match self.clients[i].stats {
                Some(st) => {
                    sum = sum.saturating_add(st.recv_kbps);
                },
                None => {},
            }
            i = i + 1;
        }
        proof {
            assert(self@.subrange(0, i as int) =~= self@);
        }
        sum
    }
}

proof fn lemma_entry_at(s: Seq<Client>, p: int)
    requires
        ids_increasing(s),
        0 <= p < s.len(),
    ensures
        entry(s, s[p].id) == Some(s[p]),
{
    let id = s[p].id;
    assert(0 <= p < s.len() && s[p].id == id);
    let q = choose|i: int| 0 <= i < s.len() && s[i].id == id;
    assert(q == p);
}

proof fn lemma_entry_absent(s: Seq<Client>, p: int, id: usize)
    requires
        ids_increasing(s),
        0 <= p <= s.len(),
        forall|i: int| 0 <= i < p ==> s[i].id < id,
        p < s.len() ==> s[p].id > id,
    ensures
        entry(s, id) is None,
{
    assert forall|i: int| 0 <= i < s.len() implies s[i].id != id by {
        if i > p {
            assert(s[p].id < s[i].id);
        }
    }
}

/// `b` is `a` with the entry at `p` replaced by one of the same id.
proof fn lemma_entry_update(a: Seq<Client>, b: Seq<Client>, p: int, k: usize)
    requires
        ids_increasing(a),
        0 <= p < a.len(),
        b.len() == a.len(),
        b[p].id == a[p].id,
        forall|i: int| 0 <= i < a.len() && i != p ==> b[i] == a[i],
        k != a[p].id,
    ensures
        entry(b, k) == entry(a, k),
{
    if exists|i: int| 0 <= i < a.len() && a[i].id == k {
        let q = choose|i: int| 0 <= i < a.len() && a[i].id == k;
        assert(b[q].id == k);
        let q2 = choose|i: int| 0 <= i < b.len() && b[i].id == k;
        assert(q2 != p);
        if q != q2 {
            if q < q2 {
                assert(a[q].id < a[q2].id);
            } else {
                assert(a[q2].id < a[q].id);
            }
        }
    } else {
        assert forall|i: int| 0 <= i < b.len() implies b[i].id != k by {
            if i != p {
                assert(b[i] == a[i]);
            }
        }
    }
}

/// `big` is `small` with one entry inserted at `p`, or with the entry at `p`
/// replaced; either way the entries of other ids agree.
proof fn lemma_entry_shift(small: Seq<Client>, big: Seq<Client>, p: int, k: usize)
    requires
        ids_increasing(small),
        ids_increasing(big),
        0 <= p < big.len(),
        k != big[p].id,
        (big.len() == small.len() + 1 && big == small.insert(p, big[p])) || (big.len()
            == small.len() && big == small.update(p, big[p]) && small[p].id == big[p].id),
    ensures
        entry(big, k) == entry(small, k),
{
    if big.len() == small.len() {
        lemma_entry_update(small, big, p, k);
    } else {
        if exists|i: int| 0 <= i < small.len() && small[i].id == k {
            let q = choose|i: int| 0 <= i < small.len() && small[i].id == k;
            let qb = if q < p { q } else { q + 1 };
            assert(big[qb] == small[q]);
            let q2 = choose|i: int| 0 <= i < big.len() && big[i].id == k;
            if q2 != qb {
                if q2 < qb {
                    assert(big[q2].id < big[qb].id);
                } else {
                    assert(big[qb].id < big[q2].id);
                }
            }
        } else {
            assert forall|i: int| 0 <= i < big.len() implies big[i].id != k by {
                if i < p {
                    assert(big[i] == small[i]);
                } else if i > p {
                    assert(big[i] == small[i - 1]);
                }
            }
        }
    }
}

} // verus!
