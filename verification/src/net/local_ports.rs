//! Handling the allocation of local ports.
use crate::rng::FastRng;
use vstd::prelude::*;

verus! {

/// The first ephemeral port.
pub const FIRST_EPHEMERAL_PORT: u16 = 49152;

/// How many randomly chosen ephemeral ports are tried.
pub const EPHEMERAL_ATTEMPTS: usize = 100;

/// A map from ports to reference counts, held in a [`hashbrown::HashMap`].
#[verifier::external_body]
pub struct PortMap {
    map: hashbrown::HashMap<u16, u16>,
}

/// What a [`PortMap`] holds.
pub uninterp spec fn counts_by_port(map: PortMap) -> Map<u16, u16>;

/// The map that holds nothing.
pub open spec fn no_ports() -> Map<u16, u16> {
    Map::empty()
}

impl PortMap {
    /// [`hashbrown::HashMap::new`]: a map that holds nothing.
    #[verifier::external_body]
    pub(crate) fn new() -> (r: PortMap)
        ensures
            counts_by_port(r) == no_ports(),
    {
        PortMap { map: hashbrown::HashMap::new() }
    }

    /// [`hashbrown::HashMap::get`]: the count of `port`, if the map holds it.
    #[verifier::external_body]
    pub(crate) fn get(&self, port: u16) -> (r: Option<u16>)
        ensures
            r == if counts_by_port(*self).contains_key(port) {
                Some(counts_by_port(*self)[port])
            } else {
                None
            },
    {
        self.map.get(&port).copied()
    }

    /// [`hashbrown::HashMap::insert`]: the count of `port` is `count` from now on.
    #[verifier::external_body]
    pub(crate) fn insert(&mut self, port: u16, count: u16)
        ensures
            counts_by_port(*final(self)) == counts_by_port(*old(self)).insert(port, count),
    {
        self.map.insert(port, count);
    }

    /// [`hashbrown::HashMap::remove`]: the map no longer holds `port`.
    #[verifier::external_body]
    pub(crate) fn remove(&mut self, port: u16)
        ensures
            counts_by_port(*final(self)) == counts_by_port(*old(self)).remove(port),
    {
        self.map.remove(&port);
    }
}

/// Errors that could be returned when allocating a port.
#[derive(Clone, Copy, Debug, PartialEq, Eq, Structural)]
pub enum LocalPortAllocationError {
    /// The port is already in use.
    AlreadyInUse(u16),
    /// No free ports are available.
    NoAvailableFreePorts,
}

/// A token expressing ownership over a specific local port.
///
/// Explicitly not cloneable/copyable.
pub struct LocalPort {
    port: u16,
}

impl LocalPort {
    /// The port.
    pub closed spec fn number(&self) -> u16 {
        self.port
    }

    /// The port.
    pub fn port(&self) -> (r: u16)
        ensures
            r == self.number(),
    {
        self.port
    }
}

/// An allocator for local ports, making sure that no already-allocated ports are given out either
/// in case of ephemeral port allocation, or in the case of asking for a specific port.
pub struct LocalPortAllocator {
    refcount: PortMap,
    rng: FastRng,
}

impl View for LocalPortAllocator {
    type V = Map<u16, u16>;

    closed spec fn view(&self) -> Map<u16, u16> {
        counts_by_port(self.refcount)
    }
}

/// Whether a map holds positive counts of non-zero ports only.
pub open spec fn are_port_counts(ports: Map<u16, u16>) -> bool {
    forall|p: u16| #[trigger] ports.contains_key(p) ==> p != 0 && ports[p] > 0
}

/// Whether every ephemeral port is taken.
pub open spec fn no_ephemeral_port_is_free(ports: Map<u16, u16>) -> bool {
    forall|p: u16| p >= FIRST_EPHEMERAL_PORT ==> #[trigger] ports.contains_key(p)
}

/// Whether a local port can be had: a given one, or, for port 0, any ephemeral one.
pub open spec fn can_allocate(ports: Map<u16, u16>, port: u16) -> bool {
    if port == 0 {
        !no_ephemeral_port_is_free(ports)
    } else {
        !ports.contains_key(port)
    }
}

/// What allocating an ephemeral port does.
pub open spec fn allocates_ephemeral(
    before: Map<u16, u16>,
    after: Map<u16, u16>,
    r: Result<LocalPort, LocalPortAllocationError>,
) -> bool {
    if no_ephemeral_port_is_free(before) {
        &&& r is Err
        &&& r->Err_0 == LocalPortAllocationError::NoAvailableFreePorts
        &&& after == before
    } else {
        &&& r is Ok
        &&& r->Ok_0.number() >= FIRST_EPHEMERAL_PORT
        &&& !before.contains_key(r->Ok_0.number())
        &&& after == before.insert(r->Ok_0.number(), 1)
    }
}

/// What allocating a specific port does.
pub open spec fn allocates_specific(
    before: Map<u16, u16>,
    port: u16,
    after: Map<u16, u16>,
    r: Result<LocalPort, LocalPortAllocationError>,
) -> bool {
    if before.contains_key(port) {
        &&& r is Err
        &&& r->Err_0 == LocalPortAllocationError::AlreadyInUse(port)
        &&& after == before
    } else {
        &&& r is Ok
        &&& r->Ok_0.number() == port
        &&& after == before.insert(port, 1)
    }
}

/// The counts after a token for `port` has been given back.
pub open spec fn released(ports: Map<u16, u16>, port: u16) -> Map<u16, u16> {
    if ports[port] > 1 {
        ports.insert(port, (ports[port] - 1) as u16)
    } else {
        ports.remove(port)
    }
}

impl LocalPortAllocator {
    /// Sets up a new local port allocator.
    pub fn new() -> (r: Self)
        ensures
            r@ == no_ports(),
            are_port_counts(r@),
    {
        LocalPortAllocator {
            refcount: PortMap::new(),
            rng: FastRng::new_from_seed(0x13374a4159421337),
        }
    }

    /// Whether a local port can be had: a given one, or, for port 0, any ephemeral one.
    pub fn can_allocate(&self, port: u16) -> (r: bool)
        ensures
            r == can_allocate(self@, port),
    {
        if port != 0 {
            return self.refcount.get(port).is_none();
        }
        let mut p: u32 = FIRST_EPHEMERAL_PORT as u32;
        while p < 65536
            invariant
                port == 0,
                FIRST_EPHEMERAL_PORT <= p <= 65536,
                forall|q: u16| FIRST_EPHEMERAL_PORT <= q < p ==> #[trigger] self@.contains_key(q),
            decreases 65536 - p,
        {
            if self.refcount.get(p as u16).is_none() {
                assert(!self@.contains_key(p as u16));
                return true;
            }
            p = p + 1;
        }
        false
    }

    /// How many tokens there are for a port.
    pub fn use_count(&self, port: u16) -> (r: u16)
        ensures
            r == if self@.contains_key(port) {
                self@[port]
            } else {
                0
            },
    {
        match self.refcount.get(port) {
            Some(count) => count,
            None => 0,
        }
    }

    /// Allocate a new ephemeral local port (i.e., port in the range 49152 and 65535). Some
    /// randomly chosen ports are tried first.
    pub fn ephemeral_port(&mut self) -> (r: Result<LocalPort, LocalPortAllocationError>)
        requires
            are_port_counts(old(self)@),
        ensures
            are_port_counts(final(self)@),
            allocates_ephemeral(old(self)@, final(self)@, r),
    {
        let mut attempt: usize = 0;
        while attempt < EPHEMERAL_ATTEMPTS
            invariant
                self@ == old(self)@,
                are_port_counts(self@),
            decreases EPHEMERAL_ATTEMPTS - attempt,
        {
            let port: u16 = self.rng.next_in_range_u32(49152, 65536) as u16;
            if let Ok(local_port) = self.specific_port(port) {
                assert(!old(self)@.contains_key(port));
                return Ok(local_port);
            }
            attempt = attempt + 1;
        }
        let mut port: u32 = FIRST_EPHEMERAL_PORT as u32;
        while port < 65536
            invariant
                FIRST_EPHEMERAL_PORT <= port <= 65536,
                self@ == old(self)@,
                are_port_counts(self@),
                forall|p: u16|
                    FIRST_EPHEMERAL_PORT <= p < port ==> #[trigger] old(self)@.contains_key(p),
            decreases 65536 - port,
        {
            if let Ok(local_port) = self.specific_port(port as u16) {
                assert(!old(self)@.contains_key(port as u16));
                return Ok(local_port);
            }
            port = port + 1;
        }
        Err(LocalPortAllocationError::NoAvailableFreePorts)
    }

    /// Allocate a specific local port, if available.
    pub fn specific_port(&mut self, port: u16) -> (r: Result<LocalPort, LocalPortAllocationError>)
        requires
            are_port_counts(old(self)@),
            port != 0,
        ensures
            are_port_counts(final(self)@),
            allocates_specific(old(self)@, port, final(self)@, r),
    {
        if self.refcount.get(port).is_some() {
            Err(LocalPortAllocationError::AlreadyInUse(port))
        } else {
            self.refcount.insert(port, 1);
            Ok(LocalPort { port })
        }
    }

    /// Allocate a local port, either ephemeral (if `port` is 0) or specific (if `port` is
    /// non-zero).
    pub fn allocate_local_port(&mut self, port: u16) -> (r: Result<
        LocalPort,
        LocalPortAllocationError,
    >)
        requires
            are_port_counts(old(self)@),
        ensures
            are_port_counts(final(self)@),
            port == 0 ==> allocates_ephemeral(old(self)@, final(self)@, r),
            port != 0 ==> allocates_specific(old(self)@, port, final(self)@, r),
    {
        if port == 0 {
            return self.ephemeral_port();
        }
        self.specific_port(port)
    }

    /// Increments the ref-count for a local port, producing a new [`LocalPort`] token to be used.
    #[must_use]
    pub fn allocate_same_local_port(&mut self, port: &LocalPort) -> (r: LocalPort)
        requires
            are_port_counts(old(self)@),
            old(self)@.contains_key(port.number()),
            old(self)@[port.number()] < u16::MAX,
        ensures
            are_port_counts(final(self)@),
            r.number() == port.number(),
            final(self)@ == old(self)@.insert(
                port.number(),
                (old(self)@[port.number()] + 1) as u16,
            ),
    {
        if let Some(count) = self.refcount.get(port.port) {
            self.refcount.insert(port.port, count + 1);
        }
        LocalPort { port: port.port }
    }

    /// Consumes a [`LocalPort`], possibly marking it as available again.
    pub fn deallocate(&mut self, port: LocalPort)
        requires
            are_port_counts(old(self)@),
            old(self)@.contains_key(port.number()),
        ensures
            are_port_counts(final(self)@),
            final(self)@ == released(old(self)@, port.number()),
    {
        if let Some(count) = self.refcount.get(port.port) {
            if count == 1 {
                self.refcount.remove(port.port);
            } else {
                self.refcount.insert(port.port, count - 1);
            }
        }
    }

    /// Deallocate a port number tracked by this allocator. Port 0 is never tracked.
    pub fn deallocate_port(&mut self, port: u16)
        requires
            are_port_counts(old(self)@),
            port != 0 ==> old(self)@.contains_key(port),
        ensures
            are_port_counts(final(self)@),
            final(self)@ == if port != 0 {
                released(old(self)@, port)
            } else {
                old(self)@
            },
    {
        if port != 0 {
            self.deallocate(LocalPort { port });
        }
    }
}

/// An ephemeral port is one from 49152 on that nobody used, and is then used once. There is none
/// only if all of these are in use. No other port changes.
pub proof fn lemma_ephemeral_ports_are_free(
    before: Map<u16, u16>,
    after: Map<u16, u16>,
    r: Result<LocalPort, LocalPortAllocationError>,
    port: u16,
)
    requires
        allocates_ephemeral(before, after, r),
    ensures
        r is Err ==> r->Err_0 == LocalPortAllocationError::NoAvailableFreePorts && after == before,
        r is Err && port >= 49152 ==> before.contains_key(port),
        r is Ok ==> {
            &&& r->Ok_0.number() >= 49152
            &&& !before.contains_key(r->Ok_0.number())
            &&& after.contains_key(r->Ok_0.number())
            &&& after[r->Ok_0.number()] == 1
            &&& port != r->Ok_0.number() ==> after.contains_key(port) == before.contains_key(port)
            &&& port != r->Ok_0.number() && before.contains_key(port) ==> after[port]
                == before[port]
        },
{
}

/// A specific port can be had exactly if nobody uses it, and is then used once. No other port
/// changes.
pub proof fn lemma_specific_ports_are_free(
    before: Map<u16, u16>,
    asked: u16,
    after: Map<u16, u16>,
    r: Result<LocalPort, LocalPortAllocationError>,
    port: u16,
)
    requires
        allocates_specific(before, asked, after, r),
    ensures
        r is Ok <==> !before.contains_key(asked),
        r is Err ==> r->Err_0 == LocalPortAllocationError::AlreadyInUse(asked) && after == before,
        r is Ok ==> {
            &&& r->Ok_0.number() == asked
            &&& after.contains_key(asked)
            &&& after[asked] == 1
            &&& port != asked ==> after.contains_key(port) == before.contains_key(port)
            &&& port != asked && before.contains_key(port) ==> after[port] == before[port]
        },
{
}

/// A port that was allocated once is free again after it has been given back.
pub proof fn lemma_allocate_then_release(ports: Map<u16, u16>, port: u16)
    requires
        !ports.contains_key(port),
    ensures
        released(ports.insert(port, 1), port) == ports,
{
    assert(released(ports.insert(port, 1), port) =~= ports);
}

/// Giving back a second token for a port leaves the first one valid.
pub proof fn lemma_share_then_release(ports: Map<u16, u16>, port: u16)
    requires
        ports.contains_key(port),
        0 < ports[port] < u16::MAX,
    ensures
        released(ports.insert(port, (ports[port] + 1) as u16), port) == ports,
{
    assert(released(ports.insert(port, (ports[port] + 1) as u16), port) =~= ports);
}

} // verus!
