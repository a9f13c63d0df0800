//! Address management for container networking: the subnet's address pool
//! and the per-container allocations of a host and a container address.
use vstd::prelude::*;

use crate::storage::lookup;
use crate::table::Table;

verus! {

/// The address and prefix length of an IPv4 network written `a.b.c.d/n`,
/// as `ipnetwork` reads it.
pub uninterp spec fn cidr_of(s: Seq<char>) -> Option<(u32, u8)>;

/// Relies on `ipnetwork::Ipv4Network::from_str`: reads `a.b.c.d/n`, a
/// dotted netmask in place of `n`, or a bare address (prefix 32); the
/// prefix length is at most 32 and the address is kept as given.
#[verifier::external_body]
fn parse_network(s: &str) -> (r: Option<(u32, u8)>)
    ensures
        r == cidr_of(s@),
        r matches Some(p) ==> p.1 <= 32,
{
    s.parse::<ipnetwork::Ipv4Network>().ok().map(|n| (u32::from(n.ip()), n.prefix()))
}

/// The netmask of a prefix length.
pub open spec fn mask_of(prefix: u8) -> u32 {
    (!(0xffff_ffffu64 >> prefix)) as u32
}

/// The lowest address of the network.
pub open spec fn network_of(addr: u32, prefix: u8) -> u32 {
    addr & mask_of(prefix)
}

/// The highest (broadcast) address of the network.
pub open spec fn broadcast_of(addr: u32, prefix: u8) -> u32 {
    addr | !mask_of(prefix)
}

/// An IPv4 network: an address and a prefix length.
#[derive(Debug, PartialEq, Eq, Clone, Copy, Structural)]
pub struct Subnet {
    pub addr: u32,
    pub prefix: u8,
}

/// Why a network step was refused.
#[derive(Debug, PartialEq, Eq, Clone, Copy, Structural)]
pub enum NetworkError {
    InvalidNetwork,
    NoAddressesLeft,
    AlreadyAllocated,
    NotFound,
}

impl Subnet {
    /// Reads `a.b.c.d/n`.
    pub fn parse(s: &str) -> (r: Result<Subnet, NetworkError>)
        ensures
            match cidr_of(s@) {
                Some(p) => r == Ok::<Subnet, NetworkError>(Subnet { addr: p.0, prefix: p.1 }),
                None => r == Err::<Subnet, NetworkError>(NetworkError::InvalidNetwork),
            },
            r matches Ok(n) ==> n.prefix <= 32,
    {
        match parse_network(s) {
            Some((addr, prefix)) => Ok(Subnet { addr, prefix }),
            None => Err(NetworkError::InvalidNetwork),
        }
    }

    pub fn mask(&self) -> (r: u32)
        requires
            self.prefix <= 32,
        ensures
            r == mask_of(self.prefix),
    {
        (!(0xffff_ffffu64 >> self.prefix)) as u32
    }

    pub fn network(&self) -> (r: u32)
        requires
            self.prefix <= 32,
        ensures
            r == network_of(self.addr, self.prefix),
    {
        self.addr & self.mask()
    }

    pub fn broadcast(&self) -> (r: u32)
        requires
            self.prefix <= 32,
        ensures
            r == broadcast_of(self.addr, self.prefix),
    {
        self.addr | !self.mask()
    }
}

/// The network address is at most the broadcast address.
proof fn lemma_network_le_broadcast(addr: u32, prefix: u8)
    ensures
        network_of(addr, prefix) <= broadcast_of(addr, prefix),
{
    let m = mask_of(prefix);
    assert((addr & m) <= (addr | !m)) by (bit_vector);
}

pub open spec fn strictly_sorted(s: Seq<u32>) -> bool {
    forall|i: int, j: int| 0 <= i < j < s.len() ==> s[i] < s[j]
}

/// The free addresses of a subnet. The highest is handed out first.
pub struct AddressPool {
    free: Vec<u32>,
    network: u32,
    broadcast: u32,
}

impl AddressPool {
    /// The free addresses, in increasing order.
    pub closed spec fn addresses(&self) -> Seq<u32> {
        self.free@
    }

    pub closed spec fn spec_broadcast(&self) -> u32 {
        self.broadcast
    }

    pub closed spec fn spec_network(&self) -> u32 {
        self.network
    }

    pub open spec fn wf(&self) -> bool {
        &&& strictly_sorted(self.addresses())
        &&& forall|i: int|
            0 <= i < self.addresses().len() ==> self.spec_network() <= #[trigger] self.addresses()[i]
                <= self.spec_broadcast()
    }

    /// Whether `a` is free.
    pub open spec fn has(&self, a: u32) -> bool {
        self.addresses().contains(a)
    }

    /// Every address of `subnet`, from its network to its broadcast address.
    pub fn range(subnet: Subnet) -> (r: AddressPool)
        requires
            subnet.prefix <= 32,
        ensures
            r.wf(),
            r.spec_broadcast() == broadcast_of(subnet.addr, subnet.prefix),
            r.spec_network() == network_of(subnet.addr, subnet.prefix),
            forall|a: u32|
                r.has(a) <==> network_of(subnet.addr, subnet.prefix) <= a <= broadcast_of(
                    subnet.addr,
                    subnet.prefix,
                ),
            r.addresses().len() == broadcast_of(subnet.addr, subnet.prefix) - network_of(
                subnet.addr,
                subnet.prefix,
            ) + 1,
    {
        let lo = subnet.network();
        let hi = subnet.broadcast();
        proof {
            lemma_network_le_broadcast(subnet.addr, subnet.prefix);
        }
        let mut free: Vec<u32> = Vec::new();
        let mut a: u64 = lo as u64;
        while a <= hi as u64
            invariant
                lo <= a <= hi + 1,
                free@.len() == a - lo,
                forall|i: int| 0 <= i < free@.len() ==> free@[i] == lo + i,
            decreases hi + 1 - a,
        {
            free.push(a as u32);
            a = a + 1;
        }
        let r = AddressPool { free, network: lo, broadcast: hi };
        assert forall|x: u32| r.has(x) <==> lo <= x <= hi by {
            if lo <= x <= hi {
                assert(r.addresses()[x - lo] == x);
            }
            if r.has(x) {
                let i = choose|i: int| 0 <= i < r.addresses().len() && r.addresses()[i] == x;
            }
        }
        r
    }

    /// How many addresses are free.
    pub fn len(&self) -> (r: usize)
        ensures
            r == self.addresses().len(),
    {
        self.free.len()
    }

    /// Takes the highest free address, whatever it is.
    pub fn pop(&mut self) -> (r: Option<u32>)
        requires
            old(self).wf(),
        ensures
            final(self).wf(),
            final(self).spec_broadcast() == old(self).spec_broadcast(),
            final(self).spec_network() == old(self).spec_network(),
            old(self).addresses().len() == 0 ==> r is None && final(self).addresses() == old(self).addresses(),
            old(self).addresses().len() > 0 ==> r == Some(old(self).addresses().last())
                && final(self).addresses() == old(self).addresses().drop_last(),
    {
        let r = self.free.pop();
        proof {
            if old(self).addresses().len() > 0 {
                assert(self.free@ =~= old(self).addresses().drop_last());
            }
        }
        r
    }

    /// Takes the highest free address, passing over the broadcast address.
    pub fn get_address(&mut self) -> (r: Result<u32, NetworkError>)
        requires
            old(self).wf(),
        ensures
            final(self).wf(),
            final(self).spec_broadcast() == old(self).spec_broadcast(),
            final(self).spec_network() == old(self).spec_network(),
            match r {
                Ok(a) => {
                    &&& old(self).has(a)
                    &&& a != old(self).spec_broadcast()
                    &&& !final(self).has(a)
                    &&& forall|b: u32| b > a && old(self).has(b) ==> b == old(self).spec_broadcast()
                    &&& forall|b: u32|
                        #![trigger final(self).has(b)]
                        final(self).has(b) <==> (old(self).has(b) && b != a && b
                            != old(self).spec_broadcast())
                },
                Err(_) => true,
            },
            r is Err <==> (forall|b: u32| old(self).has(b) ==> b == old(self).spec_broadcast()),
            r is Err ==> *final(self) == *old(self),
    {
        let ghost s = self.free@;
        let n = self.free.len();
        if n == 0 {
            return Err(NetworkError::NoAddressesLeft);
        }
        let top = self.free[n - 1];
        if top == self.broadcast {
            if n == 1 {
                assert forall|b: u32| old(self).has(b) implies b == old(self).spec_broadcast() by {
                    let i = choose|i: int| 0 <= i < s.len() && s[i] == b;
                }
                return Err(NetworkError::NoAddressesLeft);
            }
            let a = self.free[n - 2];
            assert(a < top);
            assert(old(self).has(a)) by {
                assert(s[n - 2] == a);
            }
            self.free.truncate(n - 2);
            assert forall|b: u32| #![trigger self.has(b)] self.has(b) <==> (s.contains(b) && b != a && b != self.broadcast) by {
                if s.contains(b) {
                    let i = choose|i: int| 0 <= i < s.len() && s[i] == b;
                    if i < n - 2 {
                        assert(self.free@[i] == b);
                    }
                }
                if self.has(b) {
                    let i = choose|i: int| 0 <= i < self.free@.len() && self.free@[i] == b;
                    assert(s[i] == b);
                }
            }
            assert forall|b: u32| b > a && old(self).has(b) implies b == old(self).spec_broadcast() by {
                let i = choose|i: int| 0 <= i < s.len() && s[i] == b;
            }
            assert(s[n - 2] == a);
            return Ok(a);
        }
        let a = self.free.pop().unwrap();
        assert(a == s[n - 1]);
        assert(old(self).has(a));
        assert(!s.contains(self.broadcast)) by {
            if s.contains(self.broadcast) {
                let i = choose|i: int| 0 <= i < s.len() && s[i] == self.broadcast;
                if i < n - 1 {
                    assert(s[i] < s[n - 1]);
                }
            }
        }
        assert forall|b: u32| #![trigger self.has(b)] self.has(b) <==> (s.contains(b) && b != a && b != self.broadcast) by {
            if s.contains(b) {
                let i = choose|i: int| 0 <= i < s.len() && s[i] == b;
                if i < n - 1 {
                    assert(self.free@[i] == b);
                }
            }
            if self.has(b) {
                let i = choose|i: int| 0 <= i < self.free@.len() && self.free@[i] == b;
                assert(s[i] == b);
            }
        }
        assert forall|b: u32| b > a && old(self).has(b) implies b == old(self).spec_broadcast() by {
            let i = choose|i: int| 0 <= i < s.len() && s[i] == b;
        }
        assert(s[n - 1] == a);
        Ok(a)
    }

    /// Returns `a`, an address of the subnet, to the pool; an address
    /// already free stays there once.
    pub fn free_address(&mut self, a: u32)
        requires
            old(self).wf(),
            old(self).spec_network() <= a <= old(self).spec_broadcast(),
        ensures
            final(self).wf(),
            final(self).spec_broadcast() == old(self).spec_broadcast(),
            final(self).spec_network() == old(self).spec_network(),
            forall|b: u32| #![trigger final(self).has(b)] final(self).has(b) <==> (old(self).has(b) || b == a),
    {
        let ghost s = self.free@;
        let mut i: usize = 0;
        while i < self.free.len() && self.free[i] < a
            invariant
                i <= self.free@.len(),
                self.free@ == s,
                forall|j: int| 0 <= j < i ==> s[j] < a,
            decreases self.free@.len() - i,
        {
            i = i + 1;
        }
        if i < self.free.len() && self.free[i] == a {
            assert(self.has(a));
            return;
        }
        self.free.insert(i, a);
        assert(self.free@ =~= s.insert(i as int, a));
        assert(strictly_sorted(self.free@)) by {
            assert forall|x: int, y: int| 0 <= x < y < self.free@.len() implies self.free@[x] < self.free@[y] by {
                if y < i {
                } else if x < i && y == i {
                } else if x < i && y > i {
                    assert(self.free@[y] == s[y - 1]);
                    if i < s.len() {
                        assert(s[i as int] > a);
                        assert(s[i as int] <= s[y - 1]);
                    }
                } else if x == i {
                    assert(self.free@[y] == s[y - 1]);
                    assert(s[i as int] > a);
                    assert(s[i as int] <= s[y - 1]);
                } else {
                    assert(self.free@[x] == s[x - 1] && self.free@[y] == s[y - 1]);
                }
            }
        }
        assert forall|b: u32| #![trigger self.has(b)] self.has(b) <==> (s.contains(b) || b == a) by {
            if s.contains(b) {
                let j = choose|j: int| 0 <= j < s.len() && s[j] == b;
                if j < i {
                    assert(self.free@[j] == b);
                } else {
                    assert(self.free@[j + 1] == b);
                }
            }
            if b == a {
                assert(self.free@[i as int] == a);
            }
            if self.has(b) {
                let j = choose|j: int| 0 <= j < self.free@.len() && self.free@[j] == b;
                if j < i {
                    assert(s[j] == b);
                } else if j > i {
                    assert(s[j - 1] == b);
                }
            }
        }
    }
}

/// A free address is held by the pool exactly once.
pub proof fn lemma_free_once(pool: AddressPool, a: u32)
    requires
        pool.wf(),
    ensures
        forall|i: int, j: int|
            0 <= i < pool.addresses().len() && 0 <= j < pool.addresses().len()
                && pool.addresses()[i] == a && pool.addresses()[j] == a ==> i == j,
{
    assert forall|i: int, j: int|
        0 <= i < pool.addresses().len() && 0 <= j < pool.addresses().len()
            && pool.addresses()[i] == a && pool.addresses()[j] == a implies i == j by {
        if i < j {
            assert(pool.addresses()[i] < pool.addresses()[j]);
        } else if j < i {
            assert(pool.addresses()[j] < pool.addresses()[i]);
        }
    }
}

/// The host and container addresses given to one container, and the
/// host-side interface that uses them.
pub struct Allocation {
    pub interface: String,
    pub host: u32,
    pub container: u32,
}

/// The address pool of the managed subnet and the allocation of each
/// container, by container id.
pub struct NetworkState {
    pub pool: AddressPool,
    pub allocations: Table<Allocation>,
}

/// Allocation `x` keeps clear of the pool: its two addresses differ, lie in
/// the subnet's range and are not free.
pub open spec fn clear_of_pool(x: Allocation, pool: AddressPool) -> bool {
    &&& x.host != x.container
    &&& !pool.has(x.host)
    &&& !pool.has(x.container)
    &&& pool.spec_network() <= x.host <= pool.spec_broadcast()
    &&& pool.spec_network() <= x.container <= pool.spec_broadcast()
}

/// The pool holds two addresses other than the broadcast address.
pub open spec fn two_free(pool: AddressPool) -> bool {
    exists|a: u32, b: u32|
        a != b && pool.has(a) && pool.has(b) && a != pool.spec_broadcast() && b
            != pool.spec_broadcast()
}

/// Two allocations share no address.
pub open spec fn apart(x: Allocation, y: Allocation) -> bool {
    x.host != y.host && x.host != y.container && x.container != y.host && x.container
        != y.container
}

impl NetworkState {
    pub open spec fn allocated(&self) -> Map<Seq<u8>, Allocation> {
        self.allocations.view()
    }

    /// The pool and the allocations partition the addresses handed out:
    /// no allocated address is free, and no two allocations share one.
    pub open spec fn wf(&self) -> bool {
        &&& self.pool.wf()
        &&& self.allocations.wf()
        &&& forall|k: Seq<u8>| #[trigger]
            self.allocated().contains_key(k) ==> clear_of_pool(self.allocated()[k], self.pool)
        &&& forall|k1: Seq<u8>, k2: Seq<u8>|
            #[trigger] self.allocated().contains_key(k1) && #[trigger] self.allocated().contains_key(
                k2,
            ) && k1 != k2 ==> apart(self.allocated()[k1], self.allocated()[k2])
    }

    /// All of `subnet` free, nothing allocated.
    pub fn new(subnet: Subnet) -> (r: NetworkState)
        requires
            subnet.prefix <= 32,
        ensures
            r.wf(),
            r.allocated() == Map::<Seq<u8>, Allocation>::empty(),
            forall|a: u32|
                r.pool.has(a) <==> network_of(subnet.addr, subnet.prefix) <= a <= broadcast_of(
                    subnet.addr,
                    subnet.prefix,
                ),
    {
        NetworkState { pool: AddressPool::range(subnet), allocations: Table::new() }
    }

    /// Takes a host and a container address for container `key`, whose
    /// host-side interface is `interface`, and records them.
    pub fn allocate(&mut self, key: &[u8], interface: String) -> (r: Result<
        (u32, u32),
        NetworkError,
    >)
        requires
            old(self).wf(),
        ensures
            final(self).wf(),
            old(self).allocated().contains_key(key@) ==> r == Err::<(u32, u32), NetworkError>(
                NetworkError::AlreadyAllocated,
            ) && *final(self) == *old(self),
            r is Err ==> final(self).allocated() == old(self).allocated(),
            !old(self).allocated().contains_key(key@) && two_free(old(self).pool) ==> r is Ok,
            r matches Ok(p) ==> {
                &&& old(self).pool.has(p.0) && old(self).pool.has(p.1) && p.0 != p.1
                &&& !final(self).pool.has(p.0) && !final(self).pool.has(p.1)
                &&& forall|b: u32| final(self).pool.has(b) ==> old(self).pool.has(b)
                &&& final(self).allocated().contains_key(key@)
                &&& final(self).allocated()[key@].host == p.0
                &&& final(self).allocated()[key@].container == p.1
                &&& final(self).allocated()[key@].interface == interface
                &&& final(self).allocated().remove(key@) == old(self).allocated()
            },
    {
        if self.allocations.contains(key) {
            return Err(NetworkError::AlreadyAllocated);
        }
        let ghost p0 = self.pool;
        let host = match self.pool.get_address() {
            Ok(a) => a,
            Err(e) => return Err(e),
        };
        let ghost p1 = self.pool;
        proof {
            if two_free(p0) {
                let (a, b) = choose|a: u32, b: u32|
                    a != b && p0.has(a) && p0.has(b) && a != p0.spec_broadcast() && b
                        != p0.spec_broadcast();
                let c = if a != host { a } else { b };
                assert(p1.has(c) && c != p1.spec_broadcast());
            }
        }
        let container = match self.pool.get_address() {
            Ok(a) => a,
            Err(e) => {
                self.pool.free_address(host);
                assert forall|k: Seq<u8>| #[trigger] self.allocated().contains_key(k) implies clear_of_pool(self.allocated()[k], self.pool) by {
                    assert(old(self).allocated().contains_key(k));
                    assert(clear_of_pool(self.allocated()[k], p0));
                    assert(self.allocated()[k].host != host) by {
                        assert(p0.has(host));
                    }
                    assert(self.allocated()[k].container != host) by {
                        assert(p0.has(host));
                    }
                }
                assert forall|k1: Seq<u8>, k2: Seq<u8>|
                    #[trigger] self.allocated().contains_key(k1) && #[trigger] self.allocated().contains_key(k2) && k1 != k2 implies apart(self.allocated()[k1], self.allocated()[k2]) by {
                    assert(old(self).allocated().contains_key(k1) && old(self).allocated().contains_key(k2));
                }
                return Err(e);
            },
        };
        let ghost x = Allocation { interface, host, container };
        self.allocations.insert(key, Allocation { interface, host, container });
        assert(self.wf()) by {
            assert forall|k: Seq<u8>| #[trigger] self.allocated().contains_key(k) implies clear_of_pool(self.allocated()[k], self.pool) by {
                if k != key@ {
                    assert(old(self).allocated().contains_key(k));
                    assert(clear_of_pool(old(self).allocated()[k], p0));
                }
            }
            assert forall|k1: Seq<u8>, k2: Seq<u8>|
                #[trigger] self.allocated().contains_key(k1) && #[trigger] self.allocated().contains_key(k2) && k1 != k2 implies apart(self.allocated()[k1], self.allocated()[k2]) by {
                if k1 == key@ {
                    assert(clear_of_pool(old(self).allocated()[k2], p0));
                    assert(p0.has(host) && p0.has(container));
                } else if k2 == key@ {
                    assert(clear_of_pool(old(self).allocated()[k1], p0));
                    assert(p0.has(host) && p0.has(container));
                } else {
                    assert(old(self).allocated().contains_key(k1) && old(self).allocated().contains_key(k2));
                }
            }
        }
        assert(self.allocated().remove(key@) =~= old(self).allocated());
        Ok((host, container))
    }

    /// Releases the allocation of container `key`: its record goes and both
    /// addresses are free again, each once.
    pub fn teardown(&mut self, key: &[u8]) -> (r: Result<Allocation, NetworkError>)
        requires
            old(self).wf(),
        ensures
            final(self).wf(),
            !old(self).allocated().contains_key(key@) ==> r == Err::<Allocation, NetworkError>(
                NetworkError::NotFound,
            ) && *final(self) == *old(self),
            old(self).allocated().contains_key(key@) ==> {
                &&& r matches Ok(x) && x == old(self).allocated()[key@]
                &&& final(self).allocated() == old(self).allocated().remove(key@)
                &&& forall|b: u32|
                    final(self).pool.has(b) <==> (old(self).pool.has(b) || b == old(self).allocated()[key@].host || b == old(self).allocated()[key@].container)
            },
    {
        if !self.allocations.contains(key) {
            return Err(NetworkError::NotFound);
        }
        let (host, container) = match self.allocations.get(key) {
            Some(x) => (x.host, x.container),
            None => return Err(NetworkError::NotFound),
        };
        let ghost x = self.allocated()[key@];
        let ghost p0 = self.pool;
        let ghost m0 = self.allocated();
        let interface = match self.allocations.get(key) {
            Some(x) => x.interface.clone(),
            None => return Err(NetworkError::NotFound),
        };
        self.allocations.remove(key);
        self.pool.free_address(host);
        self.pool.free_address(container);
        assert(self.wf()) by {
            assert forall|k: Seq<u8>| #[trigger] self.allocated().contains_key(k) implies clear_of_pool(self.allocated()[k], self.pool) by {
                assert(m0.contains_key(k) && k != key@);
                assert(clear_of_pool(m0[k], p0));
                assert(apart(m0[k], m0[key@]));
            }
            assert forall|k1: Seq<u8>, k2: Seq<u8>|
                #[trigger] self.allocated().contains_key(k1) && #[trigger] self.allocated().contains_key(k2) && k1 != k2 implies apart(self.allocated()[k1], self.allocated()[k2]) by {
                assert(m0.contains_key(k1) && m0.contains_key(k2));
            }
        }
        Ok(Allocation { interface, host, container })
    }
}

/// An allocated address is never free at the same time.
pub proof fn lemma_allocated_not_free(st: NetworkState, key: Seq<u8>)
    requires
        st.wf(),
        st.allocated().contains_key(key),
    ensures
        !st.pool.has(st.allocated()[key].host),
        !st.pool.has(st.allocated()[key].container),
{
}

} // verus!
