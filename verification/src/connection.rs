//! The connection table.
//!
//! The engine derives logical connections from datagram activity: an
//! address is connected exactly while a datagram from it has been seen
//! within the idle timeout. The table maps each live peer address to
//! the time its last datagram arrived; `touch` records activity and
//! reports new connections, `sweep` evicts peers that have been silent
//! for longer than the idle timeout.
use crate::addr::PeerAddr;
use crate::DEFAULT_IDLE_TIMEOUT;
use vstd::prelude::*;

verus! {

/// One live connection: a peer address and the time of the last
/// datagram seen from it.
#[derive(Clone, Copy, PartialEq, Eq, Structural, Debug)]
pub struct ConnEntry {
    pub addr: PeerAddr,
    pub last_seen: u64,
}

/// Whether an entry last seen at `last_seen` has idled out at `now`:
/// strictly more than `idle_timeout` must have passed, so an entry
/// exactly at the boundary is kept.
pub open spec fn is_expired(last_seen: u64, now: u64, idle_timeout: u64) -> bool {
    now - last_seen > idle_timeout
}

/// The table a sweep at `now` leaves standing: the entries of `m`
/// that have not idled out, with their timestamps unchanged.
pub open spec fn surviving(m: Map<PeerAddr, u64>, now: u64, idle_timeout: u64) -> Map<
    PeerAddr,
    u64,
> {
    Map::new(
        |a: PeerAddr| m.dom().contains(a) && !is_expired(m[a], now, idle_timeout),
        |a: PeerAddr| m[a],
    )
}

/// The map holding exactly the address/last-seen pairs of `s`.
pub open spec fn entries_map(s: Seq<ConnEntry>) -> Map<PeerAddr, u64>
    decreases s.len(),
{
    if s.len() == 0 {
        Map::empty()
    } else {
        entries_map(s.drop_last()).insert(s.last().addr, s.last().last_seen)
    }
}

/// Whether some entry of `s` is keyed by `a`.
pub open spec fn has_addr(s: Seq<ConnEntry>, a: PeerAddr) -> bool {
    exists|i: int| 0 <= i < s.len() && s[i].addr == a
}

/// Whether the entries of `s` have pairwise distinct addresses.
pub open spec fn distinct_addrs(s: Seq<ConnEntry>) -> bool {
    forall|i: int, j: int| 0 <= i < j < s.len() ==> s[i].addr != s[j].addr
}

/// An address is in the map of `s` exactly when some entry carries it.
proof fn lemma_entries_map_domain(s: Seq<ConnEntry>)
    ensures
        forall|a: PeerAddr|
            #![trigger entries_map(s).dom().contains(a)]
            #![trigger has_addr(s, a)]
            entries_map(s).dom().contains(a) <==> has_addr(s, a),
    decreases s.len(),
{
    if s.len() == 0 {
    } else {
        lemma_entries_map_domain(s.drop_last());
        assert forall|a: PeerAddr| #[trigger] entries_map(s).dom().contains(a) implies has_addr(
            s,
            a,
        ) by {
            if a == s.last().addr {
                assert(s[s.len() - 1].addr == a);
            } else {
                assert(entries_map(s.drop_last()).dom().contains(a));
                let i = choose|i: int| 0 <= i < s.drop_last().len() && s.drop_last()[i].addr == a;
                assert(s[i].addr == a);
            }
        }
        assert forall|a: PeerAddr| has_addr(s, a) implies #[trigger] entries_map(s).dom().contains(
            a,
        ) by {
            let i = choose|i: int| 0 <= i < s.len() && s[i].addr == a;
            if i < s.len() - 1 {
                assert(s.drop_last()[i].addr == a);
                assert(has_addr(s.drop_last(), a));
            }
        }
    }
}

/// With distinct addresses, each entry's timestamp is what the map of
/// `s` associates with its address.
proof fn lemma_entries_map_value(s: Seq<ConnEntry>, i: int)
    requires
        distinct_addrs(s),
        0 <= i < s.len(),
    ensures
        entries_map(s).dom().contains(s[i].addr),
        entries_map(s)[s[i].addr] == s[i].last_seen,
    decreases s.len(),
{
    if i == s.len() - 1 {
    } else {
        assert(s.drop_last()[i] == s[i]);
        assert(distinct_addrs(s.drop_last())) by {
            assert(forall|x: int, y: int|
                0 <= x < y < s.drop_last().len() ==> s.drop_last()[x] == s[x] && s.drop_last()[y]
                    == s[y]);
        }
        lemma_entries_map_value(s.drop_last(), i);
        assert(s[i].addr != s.last().addr);
    }
}

/// Appending an entry inserts its pair into the map of `s`.
proof fn lemma_entries_map_push(s: Seq<ConnEntry>, e: ConnEntry)
    ensures
        entries_map(s.push(e)) == entries_map(s).insert(e.addr, e.last_seen),
{
    assert(s.push(e).drop_last() =~= s);
    assert(s.push(e).last() == e);
}

/// Overwriting the entry at `i` with one for the same address updates
/// that address's timestamp in the map of `s`.
proof fn lemma_entries_map_update(s: Seq<ConnEntry>, i: int, e: ConnEntry)
    requires
        distinct_addrs(s),
        0 <= i < s.len(),
        e.addr == s[i].addr,
    ensures
        entries_map(s.update(i, e)) == entries_map(s).insert(e.addr, e.last_seen),
    decreases s.len(),
{
    let t = s.update(i, e);
    if i == s.len() - 1 {
        assert(t.drop_last() =~= s.drop_last());
        assert(t.last() == e);
        assert(entries_map(s.drop_last()).insert(s.last().addr, s.last().last_seen).insert(
            e.addr,
            e.last_seen,
        ) =~= entries_map(s.drop_last()).insert(e.addr, e.last_seen));
    } else {
        assert(t.drop_last() =~= s.drop_last().update(i, e));
        assert(t.last() == s.last());
        assert(s.drop_last()[i] == s[i]);
        assert(distinct_addrs(s.drop_last())) by {
            assert(forall|x: int, y: int|
                0 <= x < y < s.drop_last().len() ==> s.drop_last()[x] == s[x] && s.drop_last()[y]
                    == s[y]);
        }
        lemma_entries_map_update(s.drop_last(), i, e);
        assert(s[i].addr != s.last().addr);
        assert(entries_map(s.drop_last()).insert(e.addr, e.last_seen).insert(
            s.last().addr,
            s.last().last_seen,
        ) =~= entries_map(s.drop_last()).insert(s.last().addr, s.last().last_seen).insert(
            e.addr,
            e.last_seen,
        ));
    }
}

/// Whether an entry last seen at `last_seen` has idled out at `now`.
fn expired(last_seen: u64, now: u64, idle_timeout: u64) -> (r: bool)
    ensures
        r == is_expired(last_seen, now, idle_timeout),
{
    now > last_seen && now - last_seen > idle_timeout
}

/// An address touched at time `t` is still connected after a sweep at
/// any time up to `t + idle_timeout` inclusive, with its timestamp
/// intact, and is gone after a sweep at any later time.
pub proof fn lemma_presence_boundary(
    m: Map<PeerAddr, u64>,
    a: PeerAddr,
    t: u64,
    now: u64,
    idle_timeout: u64,
)
    ensures
        now - t <= idle_timeout ==> surviving(m.insert(a, t), now, idle_timeout).dom().contains(a)
            && surviving(m.insert(a, t), now, idle_timeout)[a] == t,
        now - t > idle_timeout ==> !surviving(m.insert(a, t), now, idle_timeout).dom().contains(a),
{
}

/// A sweep evicts an address at most once: an address it evicts is no
/// longer in the table it leaves, so no repeated sweep, at the same or
/// any later time, can evict that address again before a new touch
/// re-inserts it.
pub proof fn lemma_evict_once(m: Map<PeerAddr, u64>, a: PeerAddr, now: u64, idle_timeout: u64)
    requires
        m.dom().contains(a),
        is_expired(m[a], now, idle_timeout),
    ensures
        !surviving(m, now, idle_timeout).dom().contains(a),
{
}

/// The entries of `s` that a sweep at `now` keeps, in their order in
/// `s`.
spec fn kept_of(s: Seq<ConnEntry>, now: u64, idle_timeout: u64) -> Seq<ConnEntry>
    decreases s.len(),
{
    if s.len() == 0 {
        Seq::empty()
    } else {
        let prefix = kept_of(s.drop_last(), now, idle_timeout);
        if is_expired(s.last().last_seen, now, idle_timeout) {
            prefix
        } else {
            prefix.push(s.last())
        }
    }
}

/// The addresses of the entries of `s` that a sweep at `now` evicts,
/// in their order in `s`.
spec fn evicted_keys_of(s: Seq<ConnEntry>, now: u64, idle_timeout: u64) -> Seq<PeerAddr>
    decreases s.len(),
{
    if s.len() == 0 {
        Seq::empty()
    } else {
        let prefix = evicted_keys_of(s.drop_last(), now, idle_timeout);
        if is_expired(s.last().last_seen, now, idle_timeout) {
            prefix.push(s.last().addr)
        } else {
            prefix
        }
    }
}

/// One unrolling step of `kept_of` and `evicted_keys_of`.
proof fn lemma_sweep_unrolls(s: Seq<ConnEntry>, now: u64, idle_timeout: u64, e: ConnEntry)
    ensures
        kept_of(s.push(e), now, idle_timeout) == if is_expired(e.last_seen, now, idle_timeout) {
            kept_of(s, now, idle_timeout)
        } else {
            kept_of(s, now, idle_timeout).push(e)
        },
        evicted_keys_of(s.push(e), now, idle_timeout) == if is_expired(
            e.last_seen,
            now,
            idle_timeout,
        ) {
            evicted_keys_of(s, now, idle_timeout).push(e.addr)
        } else {
            evicted_keys_of(s, now, idle_timeout)
        },
{
    assert(s.push(e).drop_last() =~= s);
    assert(s.push(e).last() == e);
}

/// What a sweep makes of a table with distinct addresses: the kept
/// entries form exactly the surviving map, and the evicted keys are
/// exactly the expired addresses, each once.
proof fn lemma_sweep_split(s: Seq<ConnEntry>, now: u64, idle_timeout: u64)
    requires
        distinct_addrs(s),
    ensures
        distinct_addrs(kept_of(s, now, idle_timeout)),
        entries_map(kept_of(s, now, idle_timeout)) == surviving(entries_map(s), now, idle_timeout),
        evicted_keys_of(s, now, idle_timeout).no_duplicates(),
        forall|a: PeerAddr| #[trigger]
            evicted_keys_of(s, now, idle_timeout).contains(a) <==> (entries_map(
                s,
            ).dom().contains(a) && is_expired(entries_map(s)[a], now, idle_timeout)),
    decreases s.len(),
{
    lemma_entries_map_domain(s);
    if s.len() == 0 {
        assert(entries_map(kept_of(s, now, idle_timeout)) =~= surviving(
            entries_map(s),
            now,
            idle_timeout,
        ));
        assert forall|a: PeerAddr| #[trigger]
            evicted_keys_of(s, now, idle_timeout).contains(a) implies false by {}
    } else {
        let d = s.drop_last();
        let e = s.last();
        assert(d.push(e) =~= s);
        assert(distinct_addrs(d)) by {
            assert(forall|x: int, y: int| 0 <= x < y < d.len() ==> d[x] == s[x] && d[y] == s[y]);
        }
        lemma_sweep_split(d, now, idle_timeout);
        lemma_sweep_unrolls(d, now, idle_timeout, e);
        lemma_entries_map_domain(d);
        lemma_entries_map_domain(kept_of(d, now, idle_timeout));
        // the last entry's address is on no other entry
        assert(!has_addr(d, e.addr)) by {
            if has_addr(d, e.addr) {
                let i = choose|i: int| 0 <= i < d.len() && d[i].addr == e.addr;
                assert(s[i].addr == s[s.len() - 1].addr);
            }
        }
        if is_expired(e.last_seen, now, idle_timeout) {
            assert(entries_map(kept_of(s, now, idle_timeout)) =~= surviving(
                entries_map(s),
                now,
                idle_timeout,
            ));
            assert forall|a: PeerAddr| #[trigger]
                evicted_keys_of(s, now, idle_timeout).contains(a) implies (entries_map(
                s,
            ).dom().contains(a) && is_expired(entries_map(s)[a], now, idle_timeout)) by {
                let ev = evicted_keys_of(d, now, idle_timeout);
                assert(evicted_keys_of(s, now, idle_timeout) == ev.push(e.addr));
                if a == e.addr {
                    assert(entries_map(s) == entries_map(d).insert(e.addr, e.last_seen));
                } else {
                    assert(ev.push(e.addr)[ev.push(e.addr).len() - 1] == e.addr);
                    let i = choose|i: int| 0 <= i < ev.push(e.addr).len() && ev.push(e.addr)[i]
                        == a;
                    assert(ev[i] == a);
                    assert(ev.contains(a));
                }
            }
            assert forall|a: PeerAddr|
                entries_map(s).dom().contains(a) && is_expired(
                    entries_map(s)[a],
                    now,
                    idle_timeout,
                ) implies #[trigger] evicted_keys_of(s, now, idle_timeout).contains(a) by {
                let ev = evicted_keys_of(d, now, idle_timeout);
                if a == e.addr {
                    assert(ev.push(e.addr)[ev.len() as int] == a);
                } else {
                    assert(ev.contains(a));
                    let i = choose|i: int| 0 <= i < ev.len() && ev[i] == a;
                    assert(ev.push(e.addr)[i] == a);
                }
            }
            assert(evicted_keys_of(s, now, idle_timeout).no_duplicates()) by {
                let ev = evicted_keys_of(d, now, idle_timeout);
                assert(!ev.contains(e.addr));
                assert(forall|i: int| 0 <= i < ev.len() ==> ev.push(e.addr)[i] == ev[i]);
            }
        } else {
            lemma_entries_map_push(kept_of(d, now, idle_timeout), e);
            assert(entries_map(kept_of(s, now, idle_timeout)) == entries_map(
                kept_of(d, now, idle_timeout),
            ).insert(e.addr, e.last_seen));
            assert(entries_map(kept_of(s, now, idle_timeout)) =~= surviving(
                entries_map(s),
                now,
                idle_timeout,
            )) by {
                assert(!entries_map(d).dom().contains(e.addr));
            }
            assert(distinct_addrs(kept_of(s, now, idle_timeout))) by {
                let k = kept_of(d, now, idle_timeout);
                assert(!has_addr(k, e.addr));
                assert(forall|i: int| 0 <= i < k.len() ==> k.push(e)[i] == k[i]);
                assert(k.push(e)[k.len() as int] == e);
            }
            assert forall|a: PeerAddr| #[trigger]
                evicted_keys_of(s, now, idle_timeout).contains(a) implies (entries_map(
                s,
            ).dom().contains(a) && is_expired(entries_map(s)[a], now, idle_timeout)) by {
                assert(a != e.addr);
            }
            assert forall|a: PeerAddr|
                entries_map(s).dom().contains(a) && is_expired(
                    entries_map(s)[a],
                    now,
                    idle_timeout,
                ) implies #[trigger] evicted_keys_of(s, now, idle_timeout).contains(a) by {
                assert(a != e.addr);
                assert(entries_map(d).dom().contains(a));
                assert(entries_map(d)[a] == entries_map(s)[a]);
            }
        }
    }
}

/// The connection table: each live peer address with its last known
/// packet activity, and the configured idle timeout.
pub struct NetworkResource {
    connections: Vec<ConnEntry>,
    idle_timeout: u64,
}

impl View for NetworkResource {
    type V = Map<PeerAddr, u64>;

    closed spec fn view(&self) -> Map<PeerAddr, u64> {
        entries_map(self.connections@)
    }
}

impl NetworkResource {
    /// The table's internal invariant: one entry per address.
    pub closed spec fn wf(&self) -> bool {
        distinct_addrs(self.connections@)
    }

    /// The configured idle timeout.
    pub closed spec fn timeout(&self) -> u64 {
        self.idle_timeout
    }

    /// Returns the configured idle timeout.
    pub fn idle_timeout(&self) -> (r: u64)
        ensures
            r == self.timeout(),
    {
        self.idle_timeout
    }

    /// Creates an empty table with the given idle timeout.
    pub fn new(idle_timeout: u64) -> (net: NetworkResource)
        ensures
            net.wf(),
            net@ == Map::<PeerAddr, u64>::empty(),
            net.timeout() == idle_timeout,
    {
        NetworkResource { connections: Vec::new(), idle_timeout }
    }

    /// Records activity from `address` at time `now`: inserts the
    /// address if it was absent and returns whether it was — a true
    /// result is the caller's cue to emit a connected event; touching
    /// a present address only refreshes its timestamp.
    pub fn touch(&mut self, address: PeerAddr, now: u64) -> (newly_connected: bool)
        requires
            old(self).wf(),
        ensures
            final(self).wf(),
            final(self).timeout() == old(self).timeout(),
            final(self)@ == old(self)@.insert(address, now),
            newly_connected == !old(self)@.dom().contains(address),
    {
        proof {
            lemma_entries_map_domain(self.connections@);
        }
        let ghost s0 = self.connections@;
        let n = self.connections.len();
        let mut i: usize = 0;
        while i < n
            invariant
                n == self.connections@.len(),
                self.connections@ == s0,
                s0 == old(self).connections@,
                self.idle_timeout == old(self).idle_timeout,
                distinct_addrs(s0),
                forall|k: int| 0 <= k < i ==> s0[k].addr != address,
                i <= n,
            decreases n - i,
        {
            if self.connections[i].addr == address {
                let entry = ConnEntry { addr: address, last_seen: now };
                self.connections[i] = entry;
                proof {
                    lemma_entries_map_domain(s0);
                    lemma_entries_map_update(s0, i as int, entry);
                    assert(self.connections@ =~= s0.update(i as int, entry));
                    assert(distinct_addrs(self.connections@)) by {
                        assert(forall|k: int|
                            0 <= k < s0.len() ==> self.connections@[k].addr == s0[k].addr);
                    }
                    assert(has_addr(s0, address));
                }
                return false;
            }
            i = i + 1;
        }
        let entry = ConnEntry { addr: address, last_seen: now };
        self.connections.push(entry);
        proof {
            lemma_entries_map_push(s0, entry);
            assert(!has_addr(s0, address));
            assert(distinct_addrs(self.connections@)) by {
                assert(forall|k: int| 0 <= k < s0.len() ==> self.connections@[k] == s0[k]);
            }
        }
        true
    }

    /// Removes every entry that has been silent for longer than the
    /// idle timeout and returns the evicted addresses, each exactly
    /// once — the caller's cue to emit one disconnected event per
    /// eviction. Entries exactly at the boundary are kept.
    pub fn sweep(&mut self, now: u64) -> (evicted: Vec<PeerAddr>)
        requires
            old(self).wf(),
        ensures
            final(self).wf(),
            final(self).timeout() == old(self).timeout(),
            final(self)@ == surviving(old(self)@, now, old(self).timeout()),
            evicted@.no_duplicates(),
            forall|a: PeerAddr| #[trigger]
                evicted@.contains(a) <==> (old(self)@.dom().contains(a) && is_expired(
                    old(self)@[a],
                    now,
                    old(self).timeout(),
                )),
    {
        let ghost s0 = self.connections@;
        let mut kept: Vec<ConnEntry> = Vec::new();
        let mut evicted: Vec<PeerAddr> = Vec::new();
        let n = self.connections.len();
        let mut i: usize = 0;
        while i < n
            invariant
                n == self.connections@.len(),
                self.connections@ == s0,
                s0 == old(self).connections@,
                self.idle_timeout == old(self).idle_timeout,
                i <= n,
                kept@ == kept_of(s0.subrange(0, i as int), now, self.idle_timeout),
                evicted@ == evicted_keys_of(s0.subrange(0, i as int), now, self.idle_timeout),
            decreases n - i,
        {
            let e = self.connections[i];
            proof {
                assert(s0.subrange(0, i + 1) =~= s0.subrange(0, i as int).push(s0[i as int]));
                lemma_sweep_unrolls(s0.subrange(0, i as int), now, self.idle_timeout, s0[i as int]);
            }
            if expired(e.last_seen, now, self.idle_timeout) {
                evicted.push(e.addr);
            } else {
                kept.push(e);
            }
            i = i + 1;
        }
        self.connections = kept;
        proof {
            assert(s0.subrange(0, n as int) =~= s0);
            lemma_sweep_split(s0, now, self.idle_timeout);
        }
        evicted
    }

    /// Whether `address` is currently connected.
    pub fn is_connected(&self, address: PeerAddr) -> (r: bool)
        ensures
            r == self@.dom().contains(address),
    {
        proof {
            lemma_entries_map_domain(self.connections@);
        }
        let n = self.connections.len();
        let mut i: usize = 0;
        while i < n
            invariant
                n == self.connections@.len(),
                forall|k: int| 0 <= k < i ==> self.connections@[k].addr != address,
                i <= n,
            decreases n - i,
        {
            if self.connections[i].addr == address {
                proof {
                    lemma_entries_map_domain(self.connections@);
                    assert(has_addr(self.connections@, address));
                }
                return true;
            }
            i = i + 1;
        }
        false
    }
}

impl Default for NetworkResource {
    /// An empty table with the default idle timeout.
    fn default() -> (net: NetworkResource)
        ensures
            net.wf(),
            net@ == Map::<PeerAddr, u64>::empty(),
            net.timeout() == DEFAULT_IDLE_TIMEOUT,
    {
        NetworkResource { connections: Vec::new(), idle_timeout: DEFAULT_IDLE_TIMEOUT }
    }
}

} // verus!
