use vstd::prelude::*;

use crate::endpoint::{IpAddress, ProxyConnection};

verus! {

/// A passive port held for a session until its data connection arrives or
/// its deadline passes.
#[derive(Clone, Copy, Debug, PartialEq, Eq, Structural)]
pub struct PortReservation {
    /// Source address of the owning session's control connection.
    pub source: IpAddress,
    pub port: u16,
    pub session: u64,
    pub created: u64,
    pub deadline: u64,
}

/// Every port of the passive range is held by a live reservation.
#[derive(Clone, Copy, Debug, PartialEq, Eq, Structural)]
pub struct Exhausted;

/// The abstract state of a switchboard: the passive range, how long a
/// reservation lives, and the reservations, oldest first.
pub struct BoardState {
    pub first_port: u16,
    pub last_port: u16,
    pub ttl: u64,
    pub reservations: Seq<PortReservation>,
}

/// The moment a reservation made at `now` stops being claimable.
pub open spec fn deadline_after(now: u64, ttl: u64) -> u64 {
    if now + ttl > u64::MAX {
        u64::MAX
    } else {
        (now + ttl) as u64
    }
}

/// The reservations of `s` that are still live at `now`, in their order.
pub open spec fn unexpired(s: Seq<PortReservation>, now: u64) -> Seq<PortReservation>
    decreases s.len(),
{
    if s.len() == 0 {
        s
    } else {
        let rest = unexpired(s.drop_last(), now);
        if now < s.last().deadline {
            rest.push(s.last())
        } else {
            rest
        }
    }
}

pub open spec fn holds_port(s: Seq<PortReservation>, port: int) -> bool {
    exists|i: int| 0 <= i < s.len() && s[i].port == port
}

/// The lowest port in `from..=last` that no reservation of `s` holds.
pub open spec fn lowest_free(s: Seq<PortReservation>, from: int, last: int) -> Option<u16>
    decreases last + 1 - from,
{
    if from > last {
        None
    } else if !holds_port(s, from) {
        Some(from as u16)
    } else {
        lowest_free(s, from + 1, last)
    }
}

pub open spec fn ports_distinct(s: Seq<PortReservation>) -> bool {
    forall|i: int, j: int| 0 <= i < s.len() && 0 <= j < s.len() && i != j ==> s[i].port != s[j].port
}

pub open spec fn is_key(r: PortReservation, source: IpAddress, port: u16) -> bool {
    r.source == source && r.port == port
}

pub open spec fn live_key(r: PortReservation, source: IpAddress, port: u16, now: u64) -> bool {
    is_key(r, source, port) && now < r.deadline
}

impl BoardState {
    pub open spec fn wf(self) -> bool {
        &&& ports_distinct(self.reservations)
        &&& forall|i: int|
            0 <= i < self.reservations.len() ==> self.first_port <= #[trigger] self.reservations[i].port
                <= self.last_port
    }

    pub open spec fn in_range(self, port: int) -> bool {
        self.first_port <= port <= self.last_port
    }

    pub open spec fn purged(self, now: u64) -> BoardState {
        BoardState { reservations: unexpired(self.reservations, now), ..self }
    }

    /// Drops what expired, then gives the lowest free port of the range to
    /// `session`, keyed by `source`.
    pub open spec fn reserve(self, session: u64, source: IpAddress, now: u64) -> (BoardState, Result<u16, Exhausted>) {
        let kept = self.purged(now);
        match lowest_free(kept.reservations, self.first_port as int, self.last_port as int) {
            Some(p) => (
                BoardState {
                    reservations: kept.reservations.push(
                        PortReservation {
                            source,
                            port: p,
                            session,
                            created: now,
                            deadline: deadline_after(now, self.ttl),
                        },
                    ),
                    ..kept
                },
                Ok(p),
            ),
            None => (kept, Err(Exhausted)),
        }
    }

    /// The session whose live reservation has this key, if any.
    pub open spec fn lookup(self, source: IpAddress, port: u16, now: u64) -> Option<u64> {
        let s = self.reservations;
        if exists|i: int| 0 <= i < s.len() && live_key(s[i], source, port, now) {
            let i = choose|i: int| 0 <= i < s.len() && live_key(s[i], source, port, now);
            Some(s[i].session)
        } else {
            None
        }
    }

    /// Removes the reservation with this key, live or not, if there is one.
    pub open spec fn release(self, source: IpAddress, port: u16) -> BoardState {
        let s = self.reservations;
        if exists|i: int| 0 <= i < s.len() && is_key(s[i], source, port) {
            let i = choose|i: int| 0 <= i < s.len() && is_key(s[i], source, port);
            BoardState { reservations: s.remove(i), ..self }
        } else {
            self
        }
    }
}

proof fn lemma_contains_push(s: Seq<PortReservation>, x: PortReservation)
    requires
        s.len() > 0,
    ensures
        s.contains(x) <==> (s.drop_last().contains(x) || s.last() == x),
{
    if s.contains(x) {
        let k = choose|k: int| 0 <= k < s.len() && s[k] == x;
        if k < s.len() - 1 {
            assert(s.drop_last()[k] == x);
        }
    }
    if s.drop_last().contains(x) {
        let k = choose|k: int| 0 <= k < s.drop_last().len() && s.drop_last()[k] == x;
        assert(s[k] == x);
    }
    if s.last() == x {
        assert(s[s.len() - 1] == x);
    }
}

proof fn lemma_unexpired(s: Seq<PortReservation>, now: u64)
    ensures
        forall|x: PortReservation| #[trigger]
            unexpired(s, now).contains(x) <==> (s.contains(x) && now < x.deadline),
        ports_distinct(s) ==> ports_distinct(unexpired(s, now)),
    decreases s.len(),
{
    if s.len() > 0 {
        let rest = unexpired(s.drop_last(), now);
        lemma_unexpired(s.drop_last(), now);
        assert forall|x: PortReservation| #[trigger]
            unexpired(s, now).contains(x) <==> (s.contains(x) && now < x.deadline) by {
            lemma_contains_push(s, x);
            if now < s.last().deadline {
                lemma_contains_push(rest.push(s.last()), x);
                assert(rest.push(s.last()).drop_last() =~= rest);
            }
        }
        if ports_distinct(s) {
            assert(ports_distinct(s.drop_last()));
            if now < s.last().deadline {
                let u = rest.push(s.last());
                assert forall|i: int, j: int|
                    0 <= i < u.len() && 0 <= j < u.len() && i != j implies u[i].port != u[j].port by {
                    if i == u.len() - 1 || j == u.len() - 1 {
                        let k = if i == u.len() - 1 { j } else { i };
                        assert(rest.contains(u[k]));
                        assert(s.drop_last().contains(u[k]));
                        let m = choose|m: int| 0 <= m < s.drop_last().len() && s.drop_last()[m] == u[k];
                        assert(s[m] == u[k]);
                    }
                }
            }
        }
    }
}

proof fn lemma_lowest_free(s: Seq<PortReservation>, from: int, last: int)
    requires
        0 <= from,
        last <= u16::MAX,
    ensures
        lowest_free(s, from, last) matches Some(p) ==> {
            &&& from <= p <= last
            &&& !holds_port(s, p as int)
            &&& forall|q: int| from <= q < p ==> holds_port(s, q)
        },
        lowest_free(s, from, last) is None <==> (forall|q: int| from <= q <= last ==> holds_port(s, q)),
    decreases last + 1 - from,
{
    if from <= last && holds_port(s, from) {
        lemma_lowest_free(s, from + 1, last);
        if let Some(p) = lowest_free(s, from, last) {
            assert forall|q: int| from <= q < p implies holds_port(s, q) by {
                if q > from {
                }
            }
        }
    }
}

proof fn lemma_purged_wf(b: BoardState, now: u64)
    requires
        b.wf(),
    ensures
        b.purged(now).wf(),
{
    lemma_unexpired(b.reservations, now);
    let u = unexpired(b.reservations, now);
    assert forall|i: int| 0 <= i < u.len() implies b.first_port <= #[trigger] u[i].port <= b.last_port by {
        assert(u.contains(u[i]));
        let k = choose|k: int| 0 <= k < b.reservations.len() && b.reservations[k] == u[i];
        assert(b.reservations[k].port == u[i].port);
    }
}

/// A free port of the range means that the lowest free port exists and is no
/// higher than it.
proof fn lemma_free_port_reservable(s: Seq<PortReservation>, first: u16, last: u16, p: int)
    requires
        first <= p <= last,
        !holds_port(s, p),
    ensures
        lowest_free(s, first as int, last as int) matches Some(q) && q <= p,
{
    lemma_lowest_free(s, first as int, last as int);
}

/// What a reservation yields: a well-formed board, and either a port of the
/// range that no live reservation held, now held by the new reservation, or
/// `Exhausted` exactly when every port of the range is held by a live one.
proof fn lemma_reserve(b: BoardState, session: u64, source: IpAddress, now: u64)
    requires
        b.wf(),
    ensures
        ({
            let (b1, r) = b.reserve(session, source, now);
            let kept = b.purged(now).reservations;
            &&& b1.wf()
            &&& b1.first_port == b.first_port && b1.last_port == b.last_port && b1.ttl == b.ttl
            &&& r matches Ok(p) ==> {
                &&& b.in_range(p as int)
                &&& !holds_port(kept, p as int)
                &&& b1.reservations == kept.push(
                    PortReservation {
                        source,
                        port: p,
                        session,
                        created: now,
                        deadline: deadline_after(now, b.ttl),
                    },
                )
            }
            &&& r is Err <==> (forall|q: int| b.in_range(q) ==> holds_port(kept, q))
        }),
{
    lemma_purged_wf(b, now);
    let kept = b.purged(now).reservations;
    lemma_lowest_free(kept, b.first_port as int, b.last_port as int);
    let (b1, r) = b.reserve(session, source, now);
    if let Ok(p) = r {
        let s = b1.reservations;
        assert forall|i: int, j: int| 0 <= i < s.len() && 0 <= j < s.len() && i != j implies s[i].port != s[j].port by {
            if i == s.len() - 1 {
                assert(kept[j].port == s[j].port);
            } else if j == s.len() - 1 {
                assert(kept[i].port == s[i].port);
            } else {
                assert(kept[i] == s[i] && kept[j] == s[j]);
            }
        }
        assert forall|i: int| 0 <= i < s.len() implies b.first_port <= #[trigger] s[i].port <= b.last_port by {
            if i < s.len() - 1 {
                assert(kept[i] == s[i]);
            }
        }
    }
}

/// Two reservations in a row, the second made before the first expires,
/// never get the same port; the second fails with `Exhausted` exactly when
/// every port of the range is held by a live reservation.
pub proof fn lemma_reservations_get_distinct_ports(
    b: BoardState,
    session1: u64,
    source1: IpAddress,
    now1: u64,
    session2: u64,
    source2: IpAddress,
    now2: u64,
)
    requires
        b.wf(),
        now2 < deadline_after(now1, b.ttl),
    ensures
        ({
            let (b1, r1) = b.reserve(session1, source1, now1);
            let (b2, r2) = b1.reserve(session2, source2, now2);
            &&& b1.wf()
            &&& b2.wf()
            &&& (r1 is Ok && r2 is Ok ==> r1->Ok_0 != r2->Ok_0)
            &&& r2 is Err <==> (forall|q: int| b.in_range(q) ==> holds_port(b1.purged(now2).reservations, q))
        }),
{
    lemma_reserve(b, session1, source1, now1);
    let (b1, r1) = b.reserve(session1, source1, now1);
    lemma_reserve(b1, session2, source2, now2);
    if let Ok(first) = r1 {
        let s = b1.reservations;
        let last = s[s.len() - 1];
        lemma_unexpired(s, now2);
        assert(s.contains(last));
        let kept2 = b1.purged(now2).reservations;
        assert(kept2.contains(last));
        let k = choose|k: int| 0 <= k < kept2.len() && kept2[k] == last;
        assert(kept2[k].port == first);
        assert(holds_port(kept2, first as int));
    }
    let kept2 = b1.purged(now2).reservations;
    assert forall|q: int| b.in_range(q) <==> b1.in_range(q) by {}
    assert((forall|q: int| b.in_range(q) ==> holds_port(kept2, q)) <==> (forall|q: int|
        b1.in_range(q) ==> holds_port(kept2, q)));
}

/// A reservation is found again, by the source address and the port it was
/// given, until its deadline.
pub proof fn lemma_reserve_then_lookup(b: BoardState, session: u64, source: IpAddress, now: u64, later: u64)
    requires
        b.wf(),
        later < deadline_after(now, b.ttl),
    ensures
        ({
            let (b1, r) = b.reserve(session, source, now);
            r matches Ok(p) ==> b1.lookup(source, p, later) == Some(session)
        }),
{
    lemma_reserve(b, session, source, now);
    let (b1, r) = b.reserve(session, source, now);
    if let Ok(p) = r {
        let s = b1.reservations;
        let n = s.len() - 1;
        assert(live_key(s[n], source, p, later));
        let i = choose|i: int| 0 <= i < s.len() && live_key(s[i], source, p, later);
        assert(s[i].port == s[n].port);
    }
}

/// Once its deadline has passed, an unclaimed reservation is no longer
/// found, and its port can be reserved again: the next reservation succeeds
/// with that port or a lower one.
pub proof fn lemma_expired_reservation_is_dropped(
    b: BoardState,
    session: u64,
    source: IpAddress,
    now: u64,
    later: u64,
    session2: u64,
    source2: IpAddress,
)
    requires
        b.wf(),
        deadline_after(now, b.ttl) <= later,
    ensures
        ({
            let (b1, r) = b.reserve(session, source, now);
            r matches Ok(p) ==> {
                &&& b1.lookup(source, p, later) is None
                &&& b1.reserve(session2, source2, later).1 matches Ok(q) && q <= p
            }
        }),
{
    lemma_reserve(b, session, source, now);
    let (b1, r) = b.reserve(session, source, now);
    if let Ok(p) = r {
        let s = b1.reservations;
        let n = s.len() - 1;
        assert forall|i: int| 0 <= i < s.len() implies !live_key(s[i], source, p, later) by {
            if s[i].port == p {
                assert(s[i].port == s[n].port);
            }
        }
        lemma_unexpired(s, later);
        let kept2 = b1.purged(later).reservations;
        if holds_port(kept2, p as int) {
            let k = choose|k: int| 0 <= k < kept2.len() && kept2[k].port == p;
            assert(kept2.contains(kept2[k]));
            let m = choose|m: int| 0 <= m < s.len() && s[m] == kept2[k];
            assert(s[m].port == s[n].port);
        }
        lemma_free_port_reservable(kept2, b1.first_port, b1.last_port, p as int);
    }
}

/// Releasing a held port makes it reservable at once: the next reservation
/// succeeds with that port or a lower one.
pub proof fn lemma_release_then_reserve(
    b: BoardState,
    source: IpAddress,
    port: u16,
    session2: u64,
    source2: IpAddress,
    now: u64,
)
    requires
        b.wf(),
        exists|i: int| 0 <= i < b.reservations.len() && is_key(b.reservations[i], source, port),
    ensures
        b.release(source, port).reserve(session2, source2, now).1 matches Ok(q) && q <= port,
{
    let s = b.reservations;
    let i = choose|i: int| 0 <= i < s.len() && is_key(s[i], source, port);
    let b1 = b.release(source, port);
    let s1 = b1.reservations;
    assert(s1 == s.remove(i));
    lemma_unexpired(s1, now);
    let kept = b1.purged(now).reservations;
    if holds_port(kept, port as int) {
        let k = choose|k: int| 0 <= k < kept.len() && kept[k].port == port;
        assert(kept.contains(kept[k]));
        let m = choose|m: int| 0 <= m < s1.len() && s1[m] == kept[k];
        let m2 = if m < i { m } else { m + 1 };
        assert(s1[m] == s[m2]);
    }
    assert(b.first_port <= s[i].port <= b.last_port);
    lemma_free_port_reservable(kept, b1.first_port, b1.last_port, port as int);
}

/// Owns the passive ports of one external address: which are reserved, for
/// whom, until when.
pub struct Switchboard {
    first_port: u16,
    last_port: u16,
    ttl: u64,
    reservations: Vec<PortReservation>,
}

impl View for Switchboard {
    type V = BoardState;

    closed spec fn view(&self) -> BoardState {
        BoardState {
            first_port: self.first_port,
            last_port: self.last_port,
            ttl: self.ttl,
            reservations: self.reservations@,
        }
    }
}

impl Switchboard {
    /// A switchboard over the passive ports `first_port..=last_port`, whose
    /// reservations live for `ttl` time units.
    pub fn new(first_port: u16, last_port: u16, ttl: u64) -> (r: Switchboard)
        ensures
            r@.wf(),
            r@.first_port == first_port,
            r@.last_port == last_port,
            r@.ttl == ttl,
            r@.reservations.len() == 0,
    {
        Switchboard { first_port, last_port, ttl, reservations: Vec::new() }
    }

    pub fn first_port(&self) -> (r: u16)
        ensures
            r == self@.first_port,
    {
        self.first_port
    }

    pub fn last_port(&self) -> (r: u16)
        ensures
            r == self@.last_port,
    {
        self.last_port
    }

    /// Whether `port` belongs to the passive range.
    pub fn in_range(&self, port: u16) -> (r: bool)
        ensures
            r == self@.in_range(port as int),
    {
        self.first_port <= port && port <= self.last_port
    }

    /// Drops every reservation whose deadline is not after `now`.
    pub fn purge_expired(&mut self, now: u64)
        requires
            old(self)@.wf(),
        ensures
            final(self)@ == old(self)@.purged(now),
            final(self)@.wf(),
    {
        let mut kept: Vec<PortReservation> = Vec::new();
        let n = self.reservations.len();
        let mut i: usize = 0;
        while i < n
            invariant
                n == self.reservations@.len(),
                0 <= i <= n,
                kept@ == unexpired(self.reservations@.take(i as int), now),
            decreases n - i,
        {
            let r = self.reservations[i];
            assert(self.reservations@.take(i + 1).drop_last() =~= self.reservations@.take(i as int));
            if now < r.deadline {
                kept.push(r);
            }
            i = i + 1;
        }
        assert(self.reservations@.take(n as int) =~= self.reservations@);
        proof {
            lemma_purged_wf(self@, now);
        }
        self.reservations = kept;
    }

    /// Whether some reservation holds `port`.
    fn holds(&self, port: u16) -> (r: bool)
        ensures
            r == holds_port(self.reservations@, port as int),
    {
        let mut i: usize = 0;
        while i < self.reservations.len()
            invariant
                0 <= i <= self.reservations@.len(),
                forall|k: int| 0 <= k < i ==> self.reservations@[k].port != port,
            decreases self.reservations@.len() - i,
        {
            if self.reservations[i].port == port {
                return true;
            }
            i = i + 1;
        }
        false
    }

    /// Purges what expired, then reserves the lowest free passive port for
    /// `session`, whose control connection comes from `source`.
    pub fn reserve(&mut self, session: u64, source: IpAddress, now: u64) -> (r: Result<u16, Exhausted>)
        requires
            old(self)@.wf(),
        ensures
            (final(self)@, r) == old(self)@.reserve(session, source, now),
            final(self)@.wf(),
    {
        self.purge_expired(now);
        let first = self.first_port as u32;
        let last = self.last_port as u32;
        let mut p: u32 = first;
        while p <= last
            invariant
                self@.wf(),
                self@ == old(self)@.purged(now),
                first == self.first_port,
                last == self.last_port,
                first <= p,
                p <= last + 1 || p == first,
                lowest_free(self.reservations@, first as int, last as int) == lowest_free(
                    self.reservations@,
                    p as int,
                    last as int,
                ),
            decreases last + 1 - p,
        {
            if !self.holds(p as u16) {
                let deadline = if self.ttl > u64::MAX - now {
                    u64::MAX
                } else {
                    now + self.ttl
                };
                let res = PortReservation { source, port: p as u16, session, created: now, deadline };
                proof {
                    lemma_lowest_free(self.reservations@, first as int, last as int);
                }
                self.reservations.push(res);
                return Ok(p as u16);
            }
            p = p + 1;
        }
        Err(Exhausted)
    }

    /// Index of the reservation with this key, if any.
    fn find(&self, source: IpAddress, port: u16) -> (r: Option<usize>)
        requires
            self@.wf(),
        ensures
            r matches Some(i) ==> i < self.reservations@.len() && is_key(self.reservations@[i as int], source, port),
            r is None ==> forall|i: int| 0 <= i < self.reservations@.len() ==> !is_key(self.reservations@[i], source, port),
    {
        let mut i: usize = 0;
        while i < self.reservations.len()
            invariant
                0 <= i <= self.reservations@.len(),
                forall|k: int| 0 <= k < i ==> !is_key(self.reservations@[k], source, port),
            decreases self.reservations@.len() - i,
        {
            let r = self.reservations[i];
            if r.port == port && r.source == source {
                return Some(i);
            }
            i = i + 1;
        }
        None
    }

    /// The session whose live reservation matches this connection's source
    /// address and destination port.
    pub fn lookup(&self, source: IpAddress, port: u16, now: u64) -> (r: Option<u64>)
        requires
            self@.wf(),
        ensures
            r == self@.lookup(source, port, now),
    {
        match self.find(source, port) {
            Some(i) => {
                let r = self.reservations[i];
                if now < r.deadline {
                    proof {
                        let s = self.reservations@;
                        let j = choose|j: int| 0 <= j < s.len() && live_key(s[j], source, port, now);
                        assert(s[j].port == s[i as int].port);
                    }
                    Some(r.session)
                } else {
                    proof {
                        let s = self.reservations@;
                        assert forall|j: int| 0 <= j < s.len() implies !live_key(s[j], source, port, now) by {
                            if is_key(s[j], source, port) {
                                assert(s[j].port == s[i as int].port);
                            }
                        }
                    }
                    None
                }
            },
            None => None,
        }
    }

    /// The session that a data connection belongs to: looked up by the
    /// connection's source address and destination port.
    pub fn match_connection(&self, connection: &ProxyConnection, now: u64) -> (r: Option<u64>)
        requires
            self@.wf(),
        ensures
            r == self@.lookup(connection.source.ip, connection.destination.port, now),
    {
        self.lookup(connection.source.ip, connection.destination.port, now)
    }

    /// Frees the port held under this key, so that it can be reserved again.
    pub fn release(&mut self, source: IpAddress, port: u16)
        requires
            old(self)@.wf(),
        ensures
            final(self)@ == old(self)@.release(source, port),
            final(self)@.wf(),
    {
        match self.find(source, port) {
            Some(i) => {
                proof {
                    let s = self.reservations@;
                    let j = choose|j: int| 0 <= j < s.len() && is_key(s[j], source, port);
                    assert(s[j].port == s[i as int].port);
                }
                let ghost before = self.reservations@;
                self.reservations.remove(i);
                proof {
                    let s = self.reservations@;
                    assert forall|a: int, b: int| 0 <= a < s.len() && 0 <= b < s.len() && a != b implies s[a].port != s[b].port by {
                        let a2 = if a < i { a } else { a + 1 };
                        let b2 = if b < i { b } else { b + 1 };
                        assert(s[a] == before[a2]);
                        assert(s[b] == before[b2]);
                    }
                    assert forall|a: int| 0 <= a < s.len() implies self.first_port <= #[trigger] s[a].port <= self.last_port by {
                        let a2 = if a < i { a } else { a + 1 };
                        assert(s[a] == before[a2]);
                    }
                }
            },
            None => {},
        }
    }

    /// Releases every held port, as on shutdown; returns how many there were.
    pub fn release_all(&mut self) -> (r: usize)
        requires
            old(self)@.wf(),
        ensures
            r == old(self)@.reservations.len(),
            final(self)@ == (BoardState { reservations: Seq::empty(), ..old(self)@ }),
            final(self)@.wf(),
    {
        let n = self.reservations.len();
        self.reservations = Vec::new();
        proof {
            assert(self.reservations@ =~= Seq::<PortReservation>::empty());
        }
        n
    }

    /// Frees the port that a matched data connection was using.
    pub fn release_connection(&mut self, connection: &ProxyConnection)
        requires
            old(self)@.wf(),
        ensures
            final(self)@ == old(self)@.release(connection.source.ip, connection.destination.port),
            final(self)@.wf(),
    {
        self.release(connection.source.ip, connection.destination.port)
    }
}

} // verus!
