use vstd::prelude::*;

verus! {

/// A peer's datagram address: the IP as a 128-bit number (an IPv4 address in its
/// low 32 bits), the port, and which family it belongs to.
#[derive(Clone, Copy, PartialEq, Eq, Structural, Debug, Hash)]
pub struct PeerAddr {
    pub ip: u128,
    pub port: u16,
    pub v6: bool,
}

/// When an address was last heard from, in milliseconds on the service's clock.
#[derive(Clone, Copy, PartialEq, Eq, Structural, Debug)]
pub struct ClientRecord {
    pub addr: PeerAddr,
    pub last_seen_ms: u64,
}

/// A client heard from at `last_seen` is still live at `now`.
pub open spec fn alive(last_seen: u64, now: u64, timeout: u64) -> bool {
    (now as int) - (last_seen as int) < timeout as int
}

/// The registry after a client is heard from at `now`.
pub open spec fn upserted(m: Map<PeerAddr, u64>, addr: PeerAddr, now: u64) -> Map<PeerAddr, u64> {
    m.insert(addr, now)
}

/// The registry after the clients that are no longer live at `now` leave it.
pub open spec fn evicted(m: Map<PeerAddr, u64>, now: u64, timeout: u64) -> Map<PeerAddr, u64> {
    Map::new(|k: PeerAddr| m.contains_key(k) && alive(m[k], now, timeout), |k: PeerAddr| m[k])
}

/// The datagram clients, at most one record per address.
pub struct ClientRegistry {
    records: Vec<ClientRecord>,
    model: Ghost<Map<PeerAddr, u64>>,
}

impl View for ClientRegistry {
    type V = Map<PeerAddr, u64>;

    closed spec fn view(&self) -> Map<PeerAddr, u64> {
        self.model@
    }
}

impl ClientRegistry {
    /// Addresses are unique, and the records hold exactly the model's entries.
    pub closed spec fn wf(&self) -> bool {
        let r = self.records@;
        &&& forall|i: int, j: int|
            0 <= i < j < r.len() ==> (#[trigger] r[i]).addr != (#[trigger] r[j]).addr
        &&& forall|i: int|
            0 <= i < r.len() ==> self.model@.contains_key((#[trigger] r[i]).addr)
                && self.model@[r[i].addr] == r[i].last_seen_ms
        &&& forall|k: PeerAddr|
            self.model@.contains_key(k) ==> exists|i: int| 0 <= i < r.len() && (#[trigger] r[i]).addr == k
    }

    /// An empty registry.
    pub fn new() -> (r: ClientRegistry)
        ensures
            r.wf(),
            r@ == Map::<PeerAddr, u64>::empty(),
    {
        ClientRegistry { records: Vec::new(), model: Ghost(Map::empty()) }
    }

    /// Records that `addr` was heard from at `now`; returns whether it was new.
    pub fn upsert(&mut self, addr: PeerAddr, now: u64) -> (is_new: bool)
        requires
            old(self).wf(),
        ensures
            final(self).wf(),
            final(self)@ == upserted(old(self)@, addr, now),
            is_new == !old(self)@.contains_key(addr),
    {
        let mut i: usize = 0;
        while i < self.records.len()
            invariant
                self.wf(),
                self@ == old(self)@,
                i <= self.records@.len(),
                forall|j: int| 0 <= j < i ==> (#[trigger] self.records@[j]).addr != addr,
            decreases self.records@.len() - i,
        {
            if self.records[i].addr == addr {
                let ghost r0 = self.records@;
                self.records.set(i, ClientRecord { addr, last_seen_ms: now });
                self.model = Ghost(self.model@.insert(addr, now));
                proof {
                    let r = self.records@;
                    assert forall|k: PeerAddr| self.model@.contains_key(k) implies exists|j: int|
                        0 <= j < r.len() && (#[trigger] r[j]).addr == k by {
                        if k == addr {
                            assert(r[i as int].addr == k);
                        } else {
                            let j = choose|j: int| 0 <= j < r0.len() && (#[trigger] r0[j]).addr == k;
                            assert(r[j].addr == k);
                        }
                    }
                    assert forall|a: int, b: int|
                        0 <= a < b < r.len() implies (#[trigger] r[a]).addr != (#[trigger] r[b]).addr by {
                        assert(r0[a].addr != r0[b].addr);
                    }
                }
                return false;
            }
            i = i + 1;
        }
        let ghost r0 = self.records@;
        self.records.push(ClientRecord { addr, last_seen_ms: now });
        self.model = Ghost(self.model@.insert(addr, now));
        proof {
            let r = self.records@;
            assert(!old(self)@.contains_key(addr)) by {
                if old(self)@.contains_key(addr) {
                    let j = choose|j: int| 0 <= j < r0.len() && (#[trigger] r0[j]).addr == addr;
                    assert(r0[j].addr != addr);
                }
            }
            assert forall|k: PeerAddr| self.model@.contains_key(k) implies exists|j: int|
                0 <= j < r.len() && (#[trigger] r[j]).addr == k by {
                if k == addr {
                    assert(r[r0.len() as int].addr == k);
                } else {
                    let j = choose|j: int| 0 <= j < r0.len() && (#[trigger] r0[j]).addr == k;
                    assert(r[j].addr == k);
                }
            }
            assert forall|a: int, b: int|
                0 <= a < b < r.len() implies (#[trigger] r[a]).addr != (#[trigger] r[b]).addr by {
                if b < r0.len() {
                    assert(r0[a].addr != r0[b].addr);
                } else {
                    assert(r0[a].addr != addr);
                }
            }
            assert forall|a: int| 0 <= a < r.len() implies self.model@.contains_key((#[trigger] r[a]).addr)
                && self.model@[r[a].addr] == r[a].last_seen_ms by {
                if a < r0.len() {
                    assert(r0[a].addr != addr);
                }
            }
        }
        true
    }

    /// Drops every client not heard from within `timeout` of `now` and returns
    /// their addresses, each once.
    pub fn evict_expired(&mut self, now: u64, timeout: u64) -> (removed: Vec<PeerAddr>)
        requires
            old(self).wf(),
        ensures
            final(self).wf(),
            final(self)@ == evicted(old(self)@, now, timeout),
            forall|i: int| 0 <= i < removed@.len() ==> old(self)@.contains_key(#[trigger] removed@[i])
                && !alive(old(self)@[removed@[i]], now, timeout),
            forall|k: PeerAddr| old(self)@.contains_key(k) && !alive(old(self)@[k], now, timeout)
                ==> removed@.contains(k),
            forall|i: int, j: int| 0 <= i < j < removed@.len() ==> removed@[i] != removed@[j],
    {
        let ghost m = self.model@;
        let ghost r = self.records@;
        let ghost mut ks: Seq<int> = Seq::empty();
        let ghost mut ds: Seq<int> = Seq::empty();
        let mut kept: Vec<ClientRecord> = Vec::new();
        let mut removed: Vec<PeerAddr> = Vec::new();
        let mut i: usize = 0;
        while i < self.records.len()
            invariant
                self.wf(),
                self.model@ == m,
                self.records@ == r,
                m == old(self)@,
                i <= r.len(),
                ks.len() == kept@.len(),
                ds.len() == removed@.len(),
                forall|j: int| 0 <= j < ks.len() ==> 0 <= #[trigger] ks[j] < i && r[ks[j]] == kept@[j]
                    && alive(r[ks[j]].last_seen_ms, now, timeout),
                forall|j: int| 0 <= j < ds.len() ==> 0 <= #[trigger] ds[j] < i && r[ds[j]].addr == removed@[j]
                    && !alive(r[ds[j]].last_seen_ms, now, timeout),
                forall|x: int| 0 <= x < i && alive((#[trigger] r[x]).last_seen_ms, now, timeout)
                    ==> kept@.contains(r[x]),
                forall|x: int| 0 <= x < i && !alive((#[trigger] r[x]).last_seen_ms, now, timeout)
                    ==> removed@.contains(r[x].addr),
                forall|a: int, b: int|
                    0 <= a < b < kept@.len() ==> (#[trigger] kept@[a]).addr != (#[trigger] kept@[b]).addr,
                forall|a: int, b: int| 0 <= a < b < removed@.len() ==> removed@[a] != removed@[b],
            decreases r.len() - i,
        {
            let rec = self.records[i];
            let live: bool = now < rec.last_seen_ms || now - rec.last_seen_ms < timeout;
            let ghost k0 = kept@;
            let ghost d0 = removed@;
            let ghost ks0 = ks;
            let ghost ds0 = ds;
            if live {
                kept.push(rec);
                proof {
                    ks = ks.push(i as int);
                    assert forall|a: int, b: int|
                        0 <= a < b < kept@.len() implies (#[trigger] kept@[a]).addr != (#[trigger] kept@[b]).addr by {
                        assert(kept@[a] == k0[a] || a == k0.len());
                        if b == k0.len() {
                            assert(kept@[a] == r[ks0[a]]);
                            assert(r[ks0[a]].addr != r[i as int].addr);
                        } else {
                            assert(kept@[a] == k0[a] && kept@[b] == k0[b]);
                        }
                    }
                    assert forall|j: int| 0 <= j < ks.len() implies 0 <= #[trigger] ks[j] < i + 1
                        && r[ks[j]] == kept@[j] && alive(r[ks[j]].last_seen_ms, now, timeout) by {
                        if j < ks0.len() {
                            assert(ks[j] == ks0[j] && kept@[j] == k0[j]);
                        }
                    }
                    assert forall|x: int| 0 <= x < i + 1 && alive((#[trigger] r[x]).last_seen_ms, now, timeout)
                        implies kept@.contains(r[x]) by {
                        if x < i {
                            let j = choose|j: int| 0 <= j < k0.len() && k0[j] == r[x];
                            assert(kept@[j] == r[x]);
                        } else {
                            assert(kept@[k0.len() as int] == r[x]);
                        }
                    }
                }
            } else {
                removed.push(rec.addr);
                proof {
                    ds = ds.push(i as int);
                    assert forall|a: int, b: int| 0 <= a < b < removed@.len() implies removed@[a] != removed@[b] by {
                        if b == d0.len() {
                            assert(removed@[a] == r[ds0[a]].addr);
                            assert(r[ds0[a]].addr != r[i as int].addr);
                        } else {
                            assert(removed@[a] == d0[a] && removed@[b] == d0[b]);
                        }
                    }
                    assert forall|j: int| 0 <= j < ds.len() implies 0 <= #[trigger] ds[j] < i + 1
                        && r[ds[j]].addr == removed@[j] && !alive(r[ds[j]].last_seen_ms, now, timeout) by {
                        if j < ds0.len() {
                            assert(ds[j] == ds0[j] && removed@[j] == d0[j]);
                        }
                    }
                    assert forall|x: int| 0 <= x < i + 1 && !alive((#[trigger] r[x]).last_seen_ms, now, timeout)
                        implies removed@.contains(r[x].addr) by {
                        if x < i {
                            let j = choose|j: int| 0 <= j < d0.len() && d0[j] == r[x].addr;
                            assert(removed@[j] == r[x].addr);
                        } else {
                            assert(removed@[d0.len() as int] == r[x].addr);
                        }
                    }
                }
            }
            i = i + 1;
        }
        self.records = kept;
        self.model = Ghost(evicted(m, now, timeout));
        proof {
            let n = self.records@;
            assert forall|j: int| 0 <= j < n.len() implies self.model@.contains_key((#[trigger] n[j]).addr)
                && self.model@[n[j].addr] == n[j].last_seen_ms by {
                assert(r[ks[j]] == n[j]);
                assert(m.contains_key(r[ks[j]].addr));
            }
            assert forall|k: PeerAddr| self.model@.contains_key(k) implies exists|j: int|
                0 <= j < n.len() && (#[trigger] n[j]).addr == k by {
                let x = choose|x: int| 0 <= x < r.len() && (#[trigger] r[x]).addr == k;
                assert(alive(r[x].last_seen_ms, now, timeout));
                let j = choose|j: int| 0 <= j < n.len() && n[j] == r[x];
                assert(n[j].addr == k);
            }
            assert forall|k: PeerAddr| m.contains_key(k) && !alive(m[k], now, timeout)
                implies removed@.contains(k) by {
                let x = choose|x: int| 0 <= x < r.len() && (#[trigger] r[x]).addr == k;
                assert(!alive(r[x].last_seen_ms, now, timeout));
            }
            assert forall|j: int| 0 <= j < removed@.len() implies m.contains_key(#[trigger] removed@[j])
                && !alive(m[removed@[j]], now, timeout) by {
                assert(r[ds[j]].addr == removed@[j]);
                assert(m.contains_key(r[ds[j]].addr));
            }
        }
        removed
    }

    /// The registered addresses, each once.
    pub fn live_addresses(&self) -> (r: Vec<PeerAddr>)
        requires
            self.wf(),
        ensures
            forall|i: int| 0 <= i < r@.len() ==> self@.contains_key(#[trigger] r@[i]),
            forall|k: PeerAddr| self@.contains_key(k) ==> r@.contains(k),
            forall|i: int, j: int| 0 <= i < j < r@.len() ==> r@[i] != r@[j],
    {
        let mut out: Vec<PeerAddr> = Vec::new();
        let mut i: usize = 0;
        while i < self.records.len()
            invariant
                self.wf(),
                i <= self.records@.len(),
                out@.len() == i,
                forall|j: int| 0 <= j < i ==> out@[j] == (#[trigger] self.records@[j]).addr,
            decreases self.records@.len() - i,
        {
            out.push(self.records[i].addr);
            i = i + 1;
        }
        proof {
            let r = self.records@;
            assert forall|k: PeerAddr| self@.contains_key(k) implies out@.contains(k) by {
                let x = choose|x: int| 0 <= x < r.len() && (#[trigger] r[x]).addr == k;
                assert(out@[x] == k);
            }
            assert forall|i: int, j: int| 0 <= i < j < out@.len() implies out@[i] != out@[j] by {
                assert(out@[i] == r[i].addr && out@[j] == r[j].addr);
            }
            assert forall|i: int| 0 <= i < out@.len() implies self@.contains_key(#[trigger] out@[i]) by {
                assert(out@[i] == r[i].addr);
            }
        }
        out
    }

    /// When `addr` was last heard from, if it is registered.
    pub fn last_seen(&self, addr: PeerAddr) -> (r: Option<u64>)
        requires
            self.wf(),
        ensures
            r == (if self@.contains_key(addr) {
                Some(self@[addr])
            } else {
                None::<u64>
            }),
    {
        let mut i: usize = 0;
        while i < self.records.len()
            invariant
                self.wf(),
                i <= self.records@.len(),
                forall|j: int| 0 <= j < i ==> (#[trigger] self.records@[j]).addr != addr,
            decreases self.records@.len() - i,
        {
            if self.records[i].addr == addr {
                return Some(self.records[i].last_seen_ms);
            }
            i = i + 1;
        }
        proof {
            if self@.contains_key(addr) {
                let r = self.records@;
                let x = choose|x: int| 0 <= x < r.len() && (#[trigger] r[x]).addr == addr;
                assert(r[x].addr != addr);
            }
        }
        None
    }
}

/// A client leaves at an eviction check exactly when at least `timeout` has
/// passed since it was last heard from; one that stays keeps its time.
pub proof fn lemma_eviction_rule(m: Map<PeerAddr, u64>, k: PeerAddr, now: u64, timeout: u64)
    ensures
        evicted(m, now, timeout).contains_key(k) <==> (m.contains_key(k) && (now as int) - (m[k] as int)
            < timeout as int),
        evicted(m, now, timeout).contains_key(k) ==> evicted(m, now, timeout)[k] == m[k],
{
}

/// The registry after a run of rounds, each a heartbeat from `addr` at
/// `beats[i]` followed by an eviction check at `checks[i]`.
pub open spec fn after_rounds(
    m: Map<PeerAddr, u64>,
    addr: PeerAddr,
    beats: Seq<u64>,
    checks: Seq<u64>,
    timeout: u64,
) -> Map<PeerAddr, u64>
    decreases beats.len(),
{
    if beats.len() == 0 || checks.len() == 0 {
        m
    } else {
        evicted(
            upserted(after_rounds(m, addr, beats.drop_last(), checks.drop_last(), timeout), addr, beats.last()),
            checks.last(),
            timeout,
        )
    }
}

/// A client whose heartbeats always come less than `timeout` before the next
/// eviction check is never evicted, however many rounds pass.
pub proof fn lemma_heartbeats_keep_alive(
    m: Map<PeerAddr, u64>,
    addr: PeerAddr,
    beats: Seq<u64>,
    checks: Seq<u64>,
    timeout: u64,
)
    requires
        beats.len() == checks.len(),
        forall|i: int| 0 <= i < beats.len() ==> alive(#[trigger] beats[i], checks[i], timeout),
    ensures
        forall|n: int| 1 <= n <= beats.len() ==> #[trigger] after_rounds(m, addr, beats.take(n), checks.take(n), timeout).contains_key(addr),
{
    assert forall|n: int| 1 <= n <= beats.len() implies #[trigger] after_rounds(m, addr, beats.take(n), checks.take(n), timeout).contains_key(addr) by {
        let b = beats.take(n);
        let c = checks.take(n);
        assert(b.last() == beats[n - 1]);
        assert(c.last() == checks[n - 1]);
        assert(alive(beats[n - 1], checks[n - 1], timeout));
    }
}

} // verus!
