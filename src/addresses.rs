//! Pool of guest IPv4 addresses over one network; addresses are `u32` in
//! network order (`192.168.1.2` is `0xC0A8_0102`).
use vstd::prelude::*;

verus! {

/// Why a pool could not be built.
#[derive(Debug, Clone, Copy, PartialEq, Eq, Structural)]
pub enum AddressError {
    /// The prefix length is 0 or above 32.
    InvalidPrefix,
}

/// `2` raised to `k`.
pub open spec fn pow2(k: nat) -> nat
    decreases k,
{
    if k == 0 {
        1
    } else {
        2 * pow2((k - 1) as nat)
    }
}

/// Number of addresses of a network with this prefix length.
pub open spec fn net_size(prefix: nat) -> nat {
    pow2((32 - prefix) as nat)
}

/// The lowest address of the network of `prefix` bits that holds `addr`.
pub open spec fn net_base(addr: nat, prefix: nat) -> nat {
    (addr - addr % net_size(prefix)) as nat
}

/// The usable hosts of a network, lowest first: every address but the
/// network's own and the broadcast address.
pub open spec fn usable_hosts(base: nat, size: nat) -> Seq<u32> {
    Seq::new((if size >= 2 { size - 2 } else { 0 }) as nat, |i: int| (base + 1 + i) as u32)
}

proof fn lemma_pow2_pos(k: nat)
    ensures
        pow2(k) >= 1,
    decreases k,
{
    if k > 0 {
        lemma_pow2_pos((k - 1) as nat);
    }
}

proof fn lemma_pow2_bounds(k: nat)
    requires
        k <= 32,
    ensures
        1 <= pow2(k) <= 0x1_0000_0000,
    decreases 32 - k,
{
    lemma_pow2_pos(k);
    if k < 32 {
        lemma_pow2_bounds(k + 1);
        assert(pow2(k + 1) == 2 * pow2(k));
    } else {
        reveal_with_fuel(pow2, 33);
    }
}

/// Addresses handed to guests: free ones are popped from the top and a released
/// one is pushed back.
pub struct Addresses {
    base: u32,
    prefix: u8,
    size: u64,
    available: Vec<u32>,
    /// Addresses handed out by `get` and not yet released.
    leased: Ghost<Set<u32>>,
}

impl Addresses {
    /// Lowest address of the network.
    pub closed spec fn network(&self) -> nat {
        self.base as nat
    }

    /// Prefix length of the network.
    pub closed spec fn prefix_len(&self) -> nat {
        self.prefix as nat
    }

    /// Free addresses; the last one is handed out next.
    pub closed spec fn free(&self) -> Seq<u32> {
        self.available@
    }

    /// Addresses handed out and not released since.
    pub closed spec fn leased(&self) -> Set<u32> {
        self.leased@
    }

    /// Whether `ip` lies in the pool's network.
    pub open spec fn in_network(&self, ip: u32) -> bool {
        self.network() <= ip < self.network() + net_size(self.prefix_len())
    }

    pub closed spec fn wf(&self) -> bool {
        &&& 1 <= self.prefix <= 32
        &&& self.size == net_size(self.prefix as nat)
        &&& self.base as nat % self.size as nat == 0
        &&& self.base + self.size <= 0x1_0000_0000
        &&& self.available@.no_duplicates()
        &&& forall|i: int| 0 <= i < self.available@.len() ==> self.in_network(#[trigger] self.available@[i])
        &&& forall|i: int| 0 <= i < self.available@.len() ==> !self.leased@.contains(#[trigger] self.available@[i])
    }

    /// Pool of every usable host of the network of `prefix` bits holding `addr`.
    pub fn new(addr: u32, prefix: u8) -> (r: Result<Addresses, AddressError>)
        ensures
            r is Err <==> prefix == 0 || prefix > 32,
            r is Err ==> r == Err::<Addresses, _>(AddressError::InvalidPrefix),
            r matches Ok(p) ==> {
                &&& p.wf()
                &&& p.prefix_len() == prefix
                &&& p.network() == net_base(addr as nat, prefix as nat)
                &&& p.free() == usable_hosts(p.network(), net_size(prefix as nat))
                &&& p.leased() == Set::<u32>::empty()
            },
    {
        if prefix == 0 || prefix > 32 {
            return Err(AddressError::InvalidPrefix);
        }
        let host_bits: u8 = 32 - prefix;
        let mut size: u64 = 1;
        let mut k: u8 = 0;
        while k < host_bits
            invariant
                0 <= k <= host_bits <= 31,
                size == pow2(k as nat),
            decreases host_bits - k,
        {
            proof {
                lemma_pow2_bounds(k as nat + 1);
            }
            size = size * 2;
            k = k + 1;
        }
        proof {
            lemma_pow2_bounds(host_bits as nat);
        }
        let rem: u64 = addr as u64 % size;
        assert(rem <= addr) by {
            vstd::arithmetic::div_mod::lemma_fundamental_div_mod(addr as int, size as int);
            assert(size as int * (addr as int / size as int) >= 0) by (nonlinear_arith)
                requires
                    size >= 1,
                    addr >= 0,
            ;
        }
        let base: u32 = (addr as u64 - rem) as u32;
        assert(base as nat % size as nat == 0) by {
            vstd::arithmetic::div_mod::lemma_fundamental_div_mod(addr as int, size as int);
            vstd::arithmetic::div_mod::lemma_mod_multiples_basic(addr as int / size as int, size as int);
            assert(base as int == (addr as int / size as int) * size as int) by (nonlinear_arith)
                requires
                    addr as int == size as int * (addr as int / size as int) + addr as int % size as int,
                    base as int == addr as int - addr as int % size as int,
            ;
        }
        assert(base + size <= 0x1_0000_0000) by {
            lemma_aligned_fits(base as nat, size as nat, host_bits as nat);
        }
        let mut available: Vec<u32> = Vec::new();
        let mut i: u64 = 1;
        let last: u64 = if size >= 2 { size - 1 } else { 1 };
        while i < last
            invariant
                1 <= i <= last,
                last == (if size >= 2 { size - 1 } else { 1 }),
                base + size <= 0x1_0000_0000,
                available@ == usable_hosts(base as nat, size as nat).subrange(0, i - 1),
            decreases last - i,
        {
            available.push((base as u64 + i) as u32);
            i = i + 1;
            assert(available@ == usable_hosts(base as nat, size as nat).subrange(0, i - 1));
        }
        assert(available@ == usable_hosts(base as nat, size as nat));
        let r = Addresses { base, prefix, size, available, leased: Ghost(Set::empty()) };
        assert(r.available@.no_duplicates()) by {
            assert forall|a: int, b: int|
                0 <= a < r.available@.len() && 0 <= b < r.available@.len() && a != b implies r.available@[a] != r.available@[b] by {
            }
        }
        Ok(r)
    }

    /// Hand out the next free address, if any.
    pub fn get(&mut self) -> (r: Option<u32>)
        requires
            old(self).wf(),
        ensures
            final(self).wf(),
            final(self).network() == old(self).network(),
            final(self).prefix_len() == old(self).prefix_len(),
            old(self).free().len() == 0 ==> r is None && *final(self) == *old(self),
            old(self).free().len() > 0 ==> {
                &&& r == Some(old(self).free().last())
                &&& final(self).free() == old(self).free().drop_last()
                &&& !old(self).leased().contains(old(self).free().last())
                &&& final(self).leased() == old(self).leased().insert(old(self).free().last())
            },
    {
        if self.available.len() == 0 {
            return None;
        }
        match self.available.pop() {
            Some(ip) => {
                let ghost before = self.available@.push(ip);
                self.leased = Ghost(self.leased@.insert(ip));
                assert forall|i: int| 0 <= i < self.available@.len() implies !self.leased@.contains(#[trigger] self.available@[i]) by {
                    assert(before[i] == self.available@[i]);
                    assert(before[before.len() - 1] == ip);
                }
                assert forall|i: int| 0 <= i < self.available@.len() implies self.in_network(#[trigger] self.available@[i]) by {
                    assert(before[i] == self.available@[i]);
                }
                Some(ip)
            },
            None => None,
        }
    }

    /// Put `ip` back among the free addresses, unless it lies outside the
    /// network or is already free.
    pub fn release(&mut self, ip: u32)
        requires
            old(self).wf(),
        ensures
            final(self).wf(),
            final(self).network() == old(self).network(),
            final(self).prefix_len() == old(self).prefix_len(),
            old(self).in_network(ip) && !old(self).free().contains(ip) ==> {
                &&& final(self).free() == old(self).free().push(ip)
                &&& final(self).leased() == old(self).leased().remove(ip)
            },
            !(old(self).in_network(ip) && !old(self).free().contains(ip)) ==> *final(self) == *old(self),
    {
        let inside = self.base as u64 <= ip as u64 && (ip as u64) < self.base as u64 + self.size;
        if inside && !self.is_free(ip) {
            let ghost before = self.available@;
            self.available.push(ip);
            self.leased = Ghost(self.leased@.remove(ip));
            assert forall|i: int| 0 <= i < self.available@.len() implies self.in_network(#[trigger] self.available@[i]) by {
                if i < before.len() {
                    assert(before[i] == self.available@[i]);
                }
            }
            assert forall|i: int| 0 <= i < self.available@.len() implies !self.leased@.contains(#[trigger] self.available@[i]) by {
                if i < before.len() {
                    assert(before[i] == self.available@[i]);
                }
            }
            assert(self.available@.no_duplicates()) by {
                assert forall|a: int, b: int|
                    0 <= a < self.available@.len() && 0 <= b < self.available@.len() && a != b implies self.available@[a] != self.available@[b] by {
                    if a < before.len() && b < before.len() {
                        assert(before[a] == self.available@[a]);
                        assert(before[b] == self.available@[b]);
                    } else if a < before.len() {
                        assert(before[a] == self.available@[a]);
                    } else if b < before.len() {
                        assert(before[b] == self.available@[b]);
                    }
                }
            }
        }
    }

    fn is_free(&self, ip: u32) -> (r: bool)
        ensures
            r == self.available@.contains(ip),
    {
        let mut i: usize = 0;
        while i < self.available.len()
            invariant
                0 <= i <= self.available@.len(),
                forall|k: int| 0 <= k < i ==> self.available@[k] != ip,
            decreases self.available@.len() - i,
        {
            if self.available[i] == ip {
                return true;
            }
            i = i + 1;
        }
        false
    }

    /// The gateway handed to guests: the network's first host, or the network's
    /// own address for a single-address network.
    pub fn get_gateway(&self) -> (r: u32)
        requires
            self.wf(),
        ensures
            r == (if net_size(self.prefix_len()) > 1 { self.network() + 1 } else { self.network() }),
    {
        if self.size > 1 {
            self.base + 1
        } else {
            self.base
        }
    }

    /// The network mask: the prefix's bits set, the host bits clear.
    pub fn get_netmask(&self) -> (r: u32)
        requires
            self.wf(),
        ensures
            r == 0x1_0000_0000 - net_size(self.prefix_len()),
    {
        proof {
            lemma_pow2_bounds((32 - self.prefix) as nat);
        }
        (0x1_0000_0000u64 - self.size) as u32
    }
}

proof fn lemma_aligned_fits(base: nat, size: nat, bits: nat)
    requires
        bits <= 31,
        size == pow2(bits),
        base % size == 0,
        base < 0x1_0000_0000,
    ensures
        base + size <= 0x1_0000_0000,
{
    lemma_pow2_divides(bits);
    let q = 0x1_0000_0000int / size as int;
    assert(q * size == 0x1_0000_0000);
    let b = base as int / size as int;
    vstd::arithmetic::div_mod::lemma_fundamental_div_mod(base as int, size as int);
    assert(base == size * b);
    assert(b < q) by (nonlinear_arith)
        requires
            base == size * b,
            base < 0x1_0000_0000,
            q * size == 0x1_0000_0000,
            size >= 1,
    ;
    assert(base + size <= 0x1_0000_0000) by (nonlinear_arith)
        requires
            base == size * b,
            b + 1 <= q,
            q * size == 0x1_0000_0000,
            size >= 1,
    ;
}

proof fn lemma_pow2_divides(bits: nat)
    requires
        bits <= 32,
    ensures
        (0x1_0000_0000int / pow2(bits) as int) * pow2(bits) == 0x1_0000_0000,
        pow2(bits) >= 1,
    decreases 32 - bits,
{
    lemma_pow2_bounds(bits);
    if bits == 32 {
        reveal_with_fuel(pow2, 33);
        assert(pow2(32) == 0x1_0000_0000);
        assert(0x1_0000_0000int / 0x1_0000_0000int == 1);
    } else {
        lemma_pow2_divides(bits + 1);
        let p = pow2(bits) as int;
        let q = 0x1_0000_0000int / (2 * p);
        assert(pow2(bits + 1) == 2 * p);
        assert(q * (2 * p) == 0x1_0000_0000);
        assert((q * 2) * p == 0x1_0000_0000) by (nonlinear_arith)
            requires
                q * (2 * p) == 0x1_0000_0000,
        ;
        vstd::arithmetic::div_mod::lemma_div_multiples_vanish(q * 2, p);
        assert((q * 2) * p == p * (q * 2)) by (nonlinear_arith);
        assert(0x1_0000_0000int / p == q * 2);
        assert((0x1_0000_0000int / p) * p == 0x1_0000_0000);
    }
}

/// An address handed out by `get` and not yet released is not among the free
/// ones, so no later `get` hands it out again before it is released.
pub proof fn lemma_leased_not_free(p: &Addresses, ip: u32)
    requires
        p.wf(),
        p.leased().contains(ip),
    ensures
        !p.free().contains(ip),
{
}

} // verus!
