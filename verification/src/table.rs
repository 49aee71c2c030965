//! The hub's session table and its derived route table.
//!
//! Sessions are keyed by transport endpoint; routes map a virtual IP to
//! the endpoint currently believed to own it. Both are held in one
//! structure so that every operation updates the pair atomically. The
//! mathematical content of the table is a pair of maps (`TableView`),
//! and every operation is specified as a pure function on that view.

use vstd::prelude::*;
use crate::packet::{Endpoint, IpAddress};

verus! {

/// Hub-side record of one connected spoke.
#[derive(Debug, Clone, Copy, PartialEq, Eq)]
pub struct PeerSession {
    /// Milliseconds timestamp of the most recent activity from this peer.
    pub last_heartbeat: u64,
    /// The virtual IP learned from the peer's traffic, once one is seen.
    pub virtual_ip: Option<IpAddress>,
}

/// The mathematical content of a `SessionTable`: the session map and the
/// route map.
pub struct TableView {
    /// Endpoint to session record.
    pub sessions: Map<Endpoint, PeerSession>,
    /// Virtual IP to the endpoint that currently owns it.
    pub routes: Map<IpAddress, Endpoint>,
}

/// The map an association list holds; a later entry for a key overrides
/// an earlier one.
spec fn assoc_map<K, V>(s: Seq<(K, V)>) -> Map<K, V>
    decreases s.len(),
{
    if s.len() == 0 {
        Map::empty()
    } else {
        assoc_map(s.drop_last()).insert(s.last().0, s.last().1)
    }
}

/// No two entries of the list share a key.
spec fn distinct_keys<K, V>(s: Seq<(K, V)>) -> bool {
    forall|i: int, j: int| 0 <= i < j < s.len() ==> s[i].0 != s[j].0
}

proof fn lemma_assoc_contains<K, V>(s: Seq<(K, V)>, k: K)
    ensures
        assoc_map(s).contains_key(k) <==> exists|i: int| 0 <= i < s.len() && s[i].0 == k,
    decreases s.len(),
{
    if s.len() > 0 {
        let s2 = s.drop_last();
        lemma_assoc_contains(s2, k);
        if assoc_map(s).contains_key(k) {
            if s.last().0 == k {
                assert(s[s.len() - 1].0 == k);
            } else {
                let i = choose|i: int| 0 <= i < s2.len() && s2[i].0 == k;
                assert(s[i].0 == k);
            }
        }
        if exists|i: int| 0 <= i < s.len() && s[i].0 == k {
            let i = choose|i: int| 0 <= i < s.len() && s[i].0 == k;
            if i < s.len() - 1 {
                assert(s2[i].0 == k);
            }
        }
    }
}

proof fn lemma_push_contains<A>(s: Seq<A>, x: A, y: A)
    ensures
        s.push(x).contains(y) <==> (s.contains(y) || y == x),
{
    if s.push(x).contains(y) {
        let i = choose|i: int| 0 <= i < s.push(x).len() && s.push(x)[i] == y;
        if i < s.len() {
            assert(s[i] == y);
        }
    }
    if s.contains(y) {
        let i = choose|i: int| 0 <= i < s.len() && s[i] == y;
        assert(s.push(x)[i] == y);
    }
    assert(s.push(x)[s.len() as int] == x);
}

proof fn lemma_distinct_drop_last<K, V>(s: Seq<(K, V)>)
    requires
        distinct_keys(s),
        s.len() > 0,
    ensures
        distinct_keys(s.drop_last()),
{
    let s2 = s.drop_last();
    assert forall|i: int, j: int| 0 <= i < j < s2.len() implies s2[i].0 != s2[j].0 by {
        assert(s[i].0 != s[j].0);
    }
}

proof fn lemma_assoc_value<K, V>(s: Seq<(K, V)>, i: int)
    requires
        distinct_keys(s),
        0 <= i < s.len(),
    ensures
        assoc_map(s).contains_key(s[i].0),
        assoc_map(s)[s[i].0] == s[i].1,
    decreases s.len(),
{
    let s2 = s.drop_last();
    if i == s.len() - 1 {
    } else {
        lemma_distinct_drop_last(s);
        lemma_assoc_value(s2, i);
        assert(s[i].0 != s.last().0);
        assert(s2[i] == s[i]);
    }
}

proof fn lemma_assoc_push<K, V>(s: Seq<(K, V)>, k: K, v: V)
    requires
        distinct_keys(s),
        !assoc_map(s).contains_key(k),
    ensures
        distinct_keys(s.push((k, v))),
        assoc_map(s.push((k, v))) == assoc_map(s).insert(k, v),
{
    lemma_assoc_contains(s, k);
    let t = s.push((k, v));
    assert(t.drop_last() =~= s);
    assert forall|i: int, j: int| 0 <= i < j < t.len() implies t[i].0 != t[j].0 by {
        if j < t.len() - 1 {
            assert(s[i].0 != s[j].0);
        } else {
            assert(t[i] == s[i]);
            assert(!(0 <= i < s.len() && s[i].0 == k) || false);
        }
    }
}

proof fn lemma_assoc_remove<K, V>(s: Seq<(K, V)>, i: int)
    requires
        distinct_keys(s),
        0 <= i < s.len(),
    ensures
        distinct_keys(s.remove(i)),
        assoc_map(s.remove(i)) == assoc_map(s).remove(s[i].0),
        !assoc_map(s.remove(i)).contains_key(s[i].0),
    decreases s.len(),
{
    let k = s[i].0;
    let s2 = s.drop_last();
    let r = s.remove(i);
    s.remove_ensures(i);
    assert forall|a: int, b: int| 0 <= a < b < r.len() implies r[a].0 != r[b].0 by {
        let a2: int = if a < i { a } else { a + 1 };
        let b2: int = if b < i { b } else { b + 1 };
        assert(r[a] == s[a2] && r[b] == s[b2]);
        assert(s[a2].0 != s[b2].0);
    }
    if i == s.len() - 1 {
        assert(r =~= s2);
        lemma_distinct_drop_last(s);
        lemma_assoc_contains(s2, k);
        assert(!assoc_map(s2).contains_key(k));
        assert(assoc_map(s) == assoc_map(s2).insert(k, s[i].1));
        assert(assoc_map(s).remove(k) =~= assoc_map(s2));
    } else {
        lemma_distinct_drop_last(s);
        lemma_assoc_remove(s2, i);
        assert(r.drop_last() =~= s2.remove(i));
        assert(r.last() == s.last());
        assert(assoc_map(r) == assoc_map(s2.remove(i)).insert(s.last().0, s.last().1));
        assert(assoc_map(r) == assoc_map(s2).remove(k).insert(s.last().0, s.last().1));
        assert(s.last().0 != k);
        assert(assoc_map(s2).remove(k).insert(s.last().0, s.last().1) =~= assoc_map(
            s2,
        ).insert(s.last().0, s.last().1).remove(k));
        assert(assoc_map(s).remove(k) == assoc_map(s2).insert(s.last().0, s.last().1).remove(k));
    }
    lemma_assoc_contains(r, k);
    assert forall|j: int| 0 <= j < r.len() implies r[j].0 != k by {
        let j2: int = if j < i { j } else { j + 1 };
        assert(r[j] == s[j2]);
        assert(s[j2].0 != s[i].0 || j2 == i);
    }
}

proof fn lemma_assoc_dom_len<K, V>(s: Seq<(K, V)>)
    requires
        distinct_keys(s),
    ensures
        assoc_map(s).dom().finite(),
        assoc_map(s).dom().len() == s.len(),
    decreases s.len(),
{
    if s.len() == 0 {
        assert(assoc_map(s).dom() =~= Set::<K>::empty());
    } else {
        let s2 = s.drop_last();
        lemma_distinct_drop_last(s);
        lemma_assoc_dom_len(s2);
        lemma_assoc_contains(s2, s.last().0);
        assert(!assoc_map(s2).contains_key(s.last().0)) by {
            if exists|i: int| 0 <= i < s2.len() && s2[i].0 == s.last().0 {
                let i = choose|i: int| 0 <= i < s2.len() && s2[i].0 == s.last().0;
                assert(s[i].0 == s[s.len() - 1].0);
                assert(false);
            }
        }
        assert(assoc_map(s).dom() =~= assoc_map(s2).dom().insert(s.last().0));
        vstd::set::axiom_set_insert_len(assoc_map(s2).dom(), s.last().0);
    }
}

/// Whether a session counts as expired at `now` under `timeout`: it has
/// seen real activity (a zero timestamp is exempt by design) and that
/// activity lies more than `timeout` milliseconds in the past.
pub open spec fn spec_expired(s: PeerSession, now: u64, timeout: u64) -> bool {
    s.last_heartbeat > 0 && s.last_heartbeat + timeout < now
}

/// The view after create-or-refresh of a session: its timestamp becomes
/// `now`, its virtual IP is kept (or unset for a new session), routes
/// are untouched.
pub open spec fn spec_touch(v: TableView, e: Endpoint, now: u64) -> TableView {
    let prior_ip = if v.sessions.contains_key(e) {
        v.sessions[e].virtual_ip
    } else {
        None
    };
    TableView {
        sessions: v.sessions.insert(e, PeerSession { last_heartbeat: now, virtual_ip: prior_ip }),
        routes: v.routes,
    }
}

/// Whether a touch of `e` would create the session rather than refresh it.
pub open spec fn spec_touch_is_new(v: TableView, e: Endpoint) -> bool {
    !v.sessions.contains_key(e)
}

/// The view after learning that `e` claims `ip`: the session's virtual IP
/// is updated if the session exists, and the route for `ip` points at `e`,
/// overwriting any prior owner.
pub open spec fn spec_set_virtual_ip(v: TableView, e: Endpoint, ip: IpAddress) -> TableView {
    TableView {
        sessions: if v.sessions.contains_key(e) {
            v.sessions.insert(
                e,
                PeerSession {
                    last_heartbeat: v.sessions[e].last_heartbeat,
                    virtual_ip: Some(ip),
                },
            )
        } else {
            v.sessions
        },
        routes: v.routes.insert(ip, e),
    }
}

/// The endpoint a packet for `ip` should be relayed to, if any.
pub open spec fn spec_route_for(v: TableView, ip: IpAddress) -> Option<Endpoint> {
    if v.routes.contains_key(ip) {
        Some(v.routes[ip])
    } else {
        None
    }
}

/// The view after removing `e`: its session goes; its route goes only if
/// the route still points at `e`, so a route a newer session has since
/// claimed for the same IP is left alone.
pub open spec fn spec_remove(v: TableView, e: Endpoint) -> TableView {
    let prior_ip = if v.sessions.contains_key(e) {
        v.sessions[e].virtual_ip
    } else {
        None
    };
    TableView {
        sessions: v.sessions.remove(e),
        routes: match prior_ip {
            Some(ip) => if v.routes.contains_key(ip) && v.routes[ip] == e {
                v.routes.remove(ip)
            } else {
                v.routes
            },
            None => v.routes,
        },
    }
}

/// The view after evicting every expired session: expired sessions go,
/// and a route goes exactly when its owning endpoint is evicted and that
/// session still claimed the route's IP.
pub open spec fn spec_sweep(v: TableView, now: u64, timeout: u64) -> TableView {
    TableView {
        sessions: Map::new(
            |e: Endpoint|
                v.sessions.contains_key(e) && !spec_expired(v.sessions[e], now, timeout),
            |e: Endpoint| v.sessions[e],
        ),
        routes: Map::new(
            |ip: IpAddress|
                v.routes.contains_key(ip) && !(v.sessions.contains_key(v.routes[ip])
                    && spec_expired(v.sessions[v.routes[ip]], now, timeout)
                    && v.sessions[v.routes[ip]].virtual_ip == Some(ip)),
            |ip: IpAddress| v.routes[ip],
        ),
    }
}

/// The hub's combined session and route table.
pub struct SessionTable {
    sessions: Vec<(Endpoint, PeerSession)>,
    routes: Vec<(IpAddress, Endpoint)>,
}

impl View for SessionTable {
    type V = TableView;

    closed spec fn view(&self) -> TableView {
        TableView { sessions: assoc_map(self.sessions@), routes: assoc_map(self.routes@) }
    }
}

fn find_session_index(v: &Vec<(Endpoint, PeerSession)>, e: Endpoint) -> (r: Option<usize>)
    ensures
        match r {
            Some(i) => i < v@.len() && v@[i as int].0 == e,
            None => forall|i: int| 0 <= i < v@.len() ==> v@[i].0 != e,
        },
{
    let mut i: usize = 0;
    while i < v.len()
        invariant
            0 <= i <= v@.len(),
            forall|j: int| 0 <= j < i ==> v@[j].0 != e,
        decreases v@.len() - i,
    {
        if v[i].0 == e {
            return Some(i);
        }
        i += 1;
    }
    None
}

fn find_route_index(v: &Vec<(IpAddress, Endpoint)>, ip: IpAddress) -> (r: Option<usize>)
    ensures
        match r {
            Some(i) => i < v@.len() && v@[i as int].0 == ip,
            None => forall|i: int| 0 <= i < v@.len() ==> v@[i].0 != ip,
        },
{
    let mut i: usize = 0;
    while i < v.len()
        invariant
            0 <= i <= v@.len(),
            forall|j: int| 0 <= j < i ==> v@[j].0 != ip,
        decreases v@.len() - i,
    {
        if v[i].0 == ip {
            return Some(i);
        }
        i += 1;
    }
    None
}

impl SessionTable {
    /// Both internal lists carry each key at most once.
    pub closed spec fn well_formed(&self) -> bool {
        distinct_keys(self.sessions@) && distinct_keys(self.routes@)
    }

    /// An empty table: no sessions, no routes.
    pub fn new() -> (r: SessionTable)
        ensures
            r.well_formed(),
            r@.sessions == Map::<Endpoint, PeerSession>::empty(),
            r@.routes == Map::<IpAddress, Endpoint>::empty(),
    {
        SessionTable { sessions: Vec::new(), routes: Vec::new() }
    }

    /// The number of live sessions.
    pub fn session_count(&self) -> (r: usize)
        requires
            self.well_formed(),
        ensures
            r == self@.sessions.dom().len(),
    {
        proof {
            lemma_assoc_dom_len(self.sessions@);
        }
        self.sessions.len()
    }

    /// The session record of `e`, if one exists.
    pub fn get_session(&self, e: Endpoint) -> (r: Option<PeerSession>)
        requires
            self.well_formed(),
        ensures
            r == if self@.sessions.contains_key(e) {
                Some(self@.sessions[e])
            } else {
                None::<PeerSession>
            },
    {
        proof {
            lemma_assoc_contains(self.sessions@, e);
        }
        match find_session_index(&self.sessions, e) {
            Some(i) => {
                proof {
                    lemma_assoc_value(self.sessions@, i as int);
                }
                Some(self.sessions[i].1)
            },
            None => None,
        }
    }

    /// The endpoint a packet for `ip` should be relayed to, if any.
    pub fn lookup_endpoint_for_ip(&self, ip: IpAddress) -> (r: Option<Endpoint>)
        requires
            self.well_formed(),
        ensures
            r == spec_route_for(self@, ip),
    {
        proof {
            lemma_assoc_contains(self.routes@, ip);
        }
        match find_route_index(&self.routes, ip) {
            Some(i) => {
                proof {
                    lemma_assoc_value(self.routes@, i as int);
                }
                Some(self.routes[i].1)
            },
            None => None,
        }
    }

    /// Creates or refreshes the session of `e`, stamping it with `now`;
    /// reports whether the session was newly created.
    pub fn touch(&mut self, e: Endpoint, now: u64) -> (newly: bool)
        requires
            old(self).well_formed(),
        ensures
            final(self).well_formed(),
            final(self)@ == spec_touch(old(self)@, e, now),
            newly == spec_touch_is_new(old(self)@, e),
    {
        proof {
            lemma_assoc_contains(self.sessions@, e);
        }
        match find_session_index(&self.sessions, e) {
            Some(i) => {
                let prior = self.sessions[i].1;
                proof {
                    lemma_assoc_value(self.sessions@, i as int);
                    lemma_assoc_remove(self.sessions@, i as int);
                }
                let ghost pre = self.sessions@;
                self.sessions.remove(i);
                proof {
                    lemma_assoc_push(
                        self.sessions@,
                        e,
                        PeerSession { last_heartbeat: now, virtual_ip: prior.virtual_ip },
                    );
                }
                self.sessions.push(
                    (e, PeerSession { last_heartbeat: now, virtual_ip: prior.virtual_ip }),
                );
                proof {
                    assert(assoc_map(self.sessions@) =~= assoc_map(pre).insert(
                        e,
                        PeerSession { last_heartbeat: now, virtual_ip: prior.virtual_ip },
                    ));
                }
                false
            },
            None => {
                proof {
                    lemma_assoc_push(
                        self.sessions@,
                        e,
                        PeerSession { last_heartbeat: now, virtual_ip: None },
                    );
                }
                self.sessions.push((e, PeerSession { last_heartbeat: now, virtual_ip: None }));
                true
            },
        }
    }

    /// Records that `e` claims `ip`: updates the session's virtual IP if
    /// the session exists, and points the route for `ip` at `e`,
    /// overwriting any prior owner.
    pub fn set_virtual_ip(&mut self, e: Endpoint, ip: IpAddress)
        requires
            old(self).well_formed(),
        ensures
            final(self).well_formed(),
            final(self)@ == spec_set_virtual_ip(old(self)@, e, ip),
    {
        proof {
            lemma_assoc_contains(self.sessions@, e);
        }
        match find_session_index(&self.sessions, e) {
            Some(i) => {
                let prior = self.sessions[i].1;
                proof {
                    lemma_assoc_value(self.sessions@, i as int);
                    lemma_assoc_remove(self.sessions@, i as int);
                }
                let ghost pre = self.sessions@;
                self.sessions.remove(i);
                proof {
                    lemma_assoc_push(
                        self.sessions@,
                        e,
                        PeerSession {
                            last_heartbeat: prior.last_heartbeat,
                            virtual_ip: Some(ip),
                        },
                    );
                }
                self.sessions.push(
                    (
                        e,
                        PeerSession {
                            last_heartbeat: prior.last_heartbeat,
                            virtual_ip: Some(ip),
                        },
                    ),
                );
                proof {
                    assert(assoc_map(self.sessions@) =~= assoc_map(pre).insert(
                        e,
                        PeerSession {
                            last_heartbeat: prior.last_heartbeat,
                            virtual_ip: Some(ip),
                        },
                    ));
                }
            },
            None => {},
        }
        proof {
            lemma_assoc_contains(self.routes@, ip);
        }
        match find_route_index(&self.routes, ip) {
            Some(j) => {
                proof {
                    lemma_assoc_remove(self.routes@, j as int);
                }
                let ghost rpre = self.routes@;
                self.routes.remove(j);
                proof {
                    lemma_assoc_push(self.routes@, ip, e);
                }
                self.routes.push((ip, e));
                proof {
                    assert(assoc_map(self.routes@) =~= assoc_map(rpre).insert(ip, e));
                }
            },
            None => {
                proof {
                    lemma_assoc_push(self.routes@, ip, e);
                }
                self.routes.push((ip, e));
            },
        }
    }

    /// Removes the session of `e`; its route is removed too, but only if
    /// the route still points at `e`.
    pub fn remove(&mut self, e: Endpoint)
        requires
            old(self).well_formed(),
        ensures
            final(self).well_formed(),
            final(self)@ == spec_remove(old(self)@, e),
    {
        proof {
            lemma_assoc_contains(self.sessions@, e);
        }
        match find_session_index(&self.sessions, e) {
            Some(i) => {
                let sess = self.sessions[i].1;
                proof {
                    lemma_assoc_value(self.sessions@, i as int);
                    lemma_assoc_remove(self.sessions@, i as int);
                }
                self.sessions.remove(i);
                if let Some(ip) = sess.virtual_ip {
                    proof {
                        lemma_assoc_contains(self.routes@, ip);
                    }
                    match find_route_index(&self.routes, ip) {
                        Some(j) => {
                            proof {
                                lemma_assoc_value(self.routes@, j as int);
                            }
                            if self.routes[j].1 == e {
                                proof {
                                    lemma_assoc_remove(self.routes@, j as int);
                                }
                                self.routes.remove(j);
                            }
                        },
                        None => {},
                    }
                }
            },
            None => {
                proof {
                    assert(assoc_map(self.sessions@).remove(e) =~= assoc_map(self.sessions@));
                }
            },
        }
    }

    /// Evicts every session whose last activity lies more than `timeout`
    /// milliseconds before `now` (a never-stamped session is exempt), and
    /// each evicted session's route where it still owns one; returns the
    /// evicted endpoints.
    pub fn sweep_expired(&mut self, now: u64, timeout: u64) -> (removed: Vec<Endpoint>)
        requires
            old(self).well_formed(),
        ensures
            final(self).well_formed(),
            final(self)@ == spec_sweep(old(self)@, now, timeout),
            removed@.no_duplicates(),
            forall|e: Endpoint| #[trigger]
                removed@.contains(e) ==> old(self)@.sessions.contains_key(e) && spec_expired(
                    old(self)@.sessions[e],
                    now,
                    timeout,
                ),
            forall|e: Endpoint| #[trigger]
                old(self)@.sessions.contains_key(e) && spec_expired(
                    old(self)@.sessions[e],
                    now,
                    timeout,
                ) ==> removed@.contains(e),
    {
        let ghost v0 = self@;
        let ghost sess0 = self.sessions@;
        let mut expired: Vec<Endpoint> = Vec::new();
        let mut i: usize = 0;
        while i < self.sessions.len()
            invariant
                self.well_formed(),
                self@ == v0,
                self.sessions@ == sess0,
                0 <= i <= self.sessions@.len(),
                forall|k: int|
                    0 <= k < i ==> (spec_expired(#[trigger] self.sessions@[k].1, now, timeout)
                        <==> expired@.contains(self.sessions@[k].0)),
                forall|x: Endpoint| #[trigger]
                    expired@.contains(x) ==> v0.sessions.contains_key(x) && spec_expired(
                        v0.sessions[x],
                        now,
                        timeout,
                    ),
                forall|k: int|
                    i <= k < self.sessions@.len() ==> !expired@.contains(
                        #[trigger] self.sessions@[k].0,
                    ),
                expired@.no_duplicates(),
            decreases self.sessions@.len() - i,
        {
            let p = self.sessions[i];
            let is_exp = p.1.last_heartbeat > 0 && now > timeout && p.1.last_heartbeat < now
                - timeout;
            proof {
                assert(is_exp == spec_expired(p.1, now, timeout));
                assert(!expired@.contains(p.0));
            }
            if is_exp {
                let ghost pre = expired@;
                proof {
                    lemma_assoc_value(self.sessions@, i as int);
                }
                expired.push(p.0);
                proof {
                    assert forall|x: Endpoint| #[trigger]
                        expired@.contains(x) <==> (pre.contains(x) || x == p.0) by {
                        lemma_push_contains(pre, p.0, x);
                    }
                    assert(v0.sessions == assoc_map(self.sessions@));
                    assert(v0.sessions.contains_key(p.0) && v0.sessions[p.0] == p.1);
                    assert forall|x: Endpoint| #[trigger]
                        expired@.contains(x) implies v0.sessions.contains_key(x) && spec_expired(
                        v0.sessions[x],
                        now,
                        timeout,
                    ) by {
                        if pre.contains(x) {
                        } else {
                            assert(x == p.0);
                        }
                    }
                    assert forall|a: int, b: int|
                        0 <= a < expired@.len() && 0 <= b < expired@.len() && a != b
                            implies expired@[a] != expired@[b] by {
                        if a < pre.len() && b < pre.len() {
                            assert(pre[a] != pre[b]);
                        } else if a < pre.len() {
                            assert(pre.contains(pre[a]));
                        } else if b < pre.len() {
                            assert(pre.contains(pre[b]));
                        }
                    }
                }
            }
            i += 1;
        }
        let ghost exp = expired@;
        proof {
            assert forall|e: Endpoint|
                v0.sessions.contains_key(e) && spec_expired(
                    v0.sessions[e],
                    now,
                    timeout,
                ) implies #[trigger] exp.contains(e) by {
                lemma_assoc_contains(self.sessions@, e);
                let k = choose|k: int| 0 <= k < self.sessions@.len() && self.sessions@[k].0 == e;
                lemma_assoc_value(self.sessions@, k);
                assert(spec_expired(self.sessions@[k].1, now, timeout));
            }
        }
        let mut j: usize = 0;
        while j < expired.len()
            invariant
                expired@ == exp,
                exp.no_duplicates(),
                forall|e: Endpoint| #[trigger]
                    exp.contains(e) ==> v0.sessions.contains_key(e) && spec_expired(
                        v0.sessions[e],
                        now,
                        timeout,
                    ),
                0 <= j <= exp.len(),
                self.well_formed(),
                forall|e: Endpoint| #[trigger]
                    self@.sessions.contains_key(e) <==> (v0.sessions.contains_key(e) && !exp.take(
                        j as int,
                    ).contains(e)),
                forall|e: Endpoint| #[trigger]
                    self@.sessions.contains_key(e) ==> self@.sessions[e] == v0.sessions[e],
                forall|ip: IpAddress| #[trigger]
                    self@.routes.contains_key(ip) <==> (v0.routes.contains_key(ip) && !(exp.take(
                        j as int,
                    ).contains(v0.routes[ip]) && v0.sessions.contains_key(v0.routes[ip])
                        && v0.sessions[v0.routes[ip]].virtual_ip == Some(ip))),
                forall|ip: IpAddress| #[trigger]
                    self@.routes.contains_key(ip) ==> self@.routes[ip] == v0.routes[ip],
            decreases exp.len() - j,
        {
            let e = expired[j];
            let ghost cur = self@;
            proof {
                assert(exp[j as int] == e);
                assert(exp.contains(e));
                if exp.take(j as int).contains(e) {
                    let t = choose|t: int| 0 <= t < j && exp.take(j as int)[t] == e;
                    assert(exp[t] == exp[j as int]);
                    assert(false);
                }
                assert(cur.sessions.contains_key(e));
            }
            self.remove(e);
            proof {
                assert(exp.take(j + 1) =~= exp.take(j as int).push(e));
                assert forall|x: Endpoint| #[trigger]
                    exp.take(j + 1).contains(x) <==> (exp.take(j as int).contains(x) || x == e) by {
                    lemma_push_contains(exp.take(j as int), e, x);
                }
                assert(cur.sessions[e] == v0.sessions[e]);
            }
            j += 1;
        }
        proof {
            assert(exp.take(exp.len() as int) =~= exp);
            assert(self@.sessions =~= spec_sweep(v0, now, timeout).sessions);
            assert(self@.routes =~= spec_sweep(v0, now, timeout).routes);
            assert(self@ == spec_sweep(v0, now, timeout));
        }
        expired
    }
}

/// Law: touching an unknown endpoint creates its session, stamped with the
/// touch time; a second touch of the same endpoint is not "new" and
/// restamps the session with the later time, keeping its virtual IP.
pub proof fn lemma_touch_lifecycle(v: TableView, e: Endpoint, t1: u64, t2: u64)
    requires
        !v.sessions.contains_key(e),
    ensures
        spec_touch_is_new(v, e),
        ({
            let v1 = spec_touch(v, e, t1);
            &&& v1.sessions.contains_key(e)
            &&& v1.sessions[e] == PeerSession { last_heartbeat: t1, virtual_ip: None }
            &&& !spec_touch_is_new(v1, e)
            &&& spec_touch(v1, e, t2).sessions[e] == PeerSession {
                last_heartbeat: t2,
                virtual_ip: None,
            }
        }),
{
}

/// Law: when two endpoints claim the same virtual IP in turn, the route
/// goes to the later claimant; removing the earlier claimant afterwards
/// leaves that route alone, because the earlier claimant no longer owns it.
pub proof fn lemma_route_last_writer_wins(
    v: TableView,
    e1: Endpoint,
    e2: Endpoint,
    ip: IpAddress,
)
    requires
        e1 != e2,
    ensures
        ({
            let v2 = spec_set_virtual_ip(spec_set_virtual_ip(v, e1, ip), e2, ip);
            &&& spec_route_for(v2, ip) == Some(e2)
            &&& spec_route_for(spec_remove(v2, e1), ip) == Some(e2)
        }),
{
}

/// Law: a session stamped at a positive time `t` and owning a route is
/// evicted, route included, by a sweep strictly later than `t + timeout`,
/// and kept, route included, by a sweep at or before `t + timeout`. The
/// requirement `t > 0` matters: a zero timestamp marks a session that has
/// never seen activity, which a sweep leaves alone.
pub proof fn lemma_eviction(
    v: TableView,
    e: Endpoint,
    ip: IpAddress,
    t: u64,
    now_late: u64,
    now_early: u64,
    timeout: u64,
)
    requires
        t > 0,
        now_late > t + timeout,
        now_early <= t + timeout,
    ensures
        ({
            let v1 = spec_set_virtual_ip(spec_touch(v, e, t), e, ip);
            let swept = spec_sweep(v1, now_late, timeout);
            &&& !swept.sessions.contains_key(e)
            &&& spec_route_for(swept, ip) == None::<Endpoint>
        }),
        ({
            let v1 = spec_set_virtual_ip(spec_touch(v, e, t), e, ip);
            let kept = spec_sweep(v1, now_early, timeout);
            &&& kept.sessions.contains_key(e)
            &&& kept.sessions[e] == PeerSession { last_heartbeat: t, virtual_ip: Some(ip) }
            &&& spec_route_for(kept, ip) == Some(e)
        }),
{
}

} // verus!
