//! Bookkeeping for the host's bridge and TAP devices; the kernel calls that
//! create and attach them take the values prepared here.
use vstd::prelude::*;
use crate::framing::utf8_of;

verus! {

/// Room for an interface name in the kernel's request structure, with its
/// terminating zero.
pub const IFNAMSIZ: usize = 16;

/// Whether `name` fits the kernel's interface names: not empty and shorter
/// than `IFNAMSIZ` bytes.
pub fn is_valid_ifname(name: &str) -> (r: bool)
    ensures
        r == (0 < utf8_of(name@).len() < IFNAMSIZ),
{
    let n = name.as_bytes().len();
    0 < n && n < IFNAMSIZ
}

/// A bridge to create and the interface indices to attach to it.
pub struct BridgeBuilder {
    name: String,
    interfaces: Vec<i32>,
}

/// `s` without any occurrence of `x`.
pub open spec fn without(s: Seq<i32>, x: i32) -> Seq<i32> {
    s.filter(|y: i32| y != x)
}

impl BridgeBuilder {
    /// The bridge's name.
    pub closed spec fn spec_name(&self) -> Seq<char> {
        self.name@
    }

    /// Interface indices to attach, in order.
    pub closed spec fn spec_interfaces(&self) -> Seq<i32> {
        self.interfaces@
    }

    /// A bridge named `name` with no interface.
    pub fn new(name: &str) -> (r: BridgeBuilder)
        ensures
            r.spec_name() == name@,
            r.spec_interfaces() == Seq::<i32>::empty(),
    {
        BridgeBuilder { name: name.to_owned(), interfaces: Vec::new() }
    }

    /// The same bridge under another name.
    pub fn name(self, name: &str) -> (r: BridgeBuilder)
        ensures
            r.spec_name() == name@,
            r.spec_interfaces() == self.spec_interfaces(),
    {
        BridgeBuilder { name: name.to_owned(), interfaces: self.interfaces }
    }

    /// Attach the interface with index `index`; an interface whose index could
    /// not be looked up (`None`) is ignored.
    pub fn interface(self, index: Option<i32>) -> (r: BridgeBuilder)
        ensures
            r.spec_name() == self.spec_name(),
            index matches Some(i) ==> r.spec_interfaces() == self.spec_interfaces().push(i),
            index is None ==> r.spec_interfaces() == self.spec_interfaces(),
    {
        match index {
            Some(i) => {
                let mut ifs = self.interfaces;
                ifs.push(i);
                BridgeBuilder { name: self.name, interfaces: ifs }
            },
            None => self,
        }
    }

    /// Stop attaching the interface with index `index`; an interface whose
    /// index could not be looked up (`None`) is ignored.
    pub fn remove_interface(self, index: Option<i32>) -> (r: BridgeBuilder)
        ensures
            r.spec_name() == self.spec_name(),
            index matches Some(i) ==> r.spec_interfaces() == without(self.spec_interfaces(), i),
            index is None ==> r.spec_interfaces() == self.spec_interfaces(),
    {
        match index {
            Some(x) => {
                let mut kept: Vec<i32> = Vec::new();
                let mut k: usize = 0;
                while k < self.interfaces.len()
                    invariant
                        0 <= k <= self.interfaces@.len(),
                        kept@ == without(self.interfaces@.subrange(0, k as int), x),
                    decreases self.interfaces@.len() - k,
                {
                    let y = self.interfaces[k];
                    proof {
                        let s = self.interfaces@.subrange(0, k + 1);
                        assert(s.drop_last() == self.interfaces@.subrange(0, k as int));
                        reveal(Seq::filter);
                    }
                    if y != x {
                        kept.push(y);
                    }
                    k = k + 1;
                }
                assert(self.interfaces@.subrange(0, self.interfaces@.len() as int) == self.interfaces@);
                BridgeBuilder { name: self.name, interfaces: kept }
            },
            None => self,
        }
    }

    /// The bridge's name.
    pub fn bridge_name(&self) -> (r: &String)
        ensures
            r@ == self.spec_name(),
    {
        &self.name
    }

    /// Interface indices to attach, in order.
    pub fn interfaces(&self) -> (r: &Vec<i32>)
        ensures
            r@ == self.spec_interfaces(),
    {
        &self.interfaces
    }
}

/// A persistent TAP interface, known by its name.
pub struct Tap {
    ifname: String,
}

/// Why a network device name was refused.
#[derive(Debug, Clone, Copy, PartialEq, Eq, Structural)]
pub enum NetError {
    /// Empty, or too long for the kernel.
    InvalidName,
}

impl Tap {
    /// The interface's name.
    pub closed spec fn spec_name(&self) -> Seq<char> {
        self.ifname@
    }

    /// The TAP interface called `name`, if the kernel can take that name.
    pub fn named(name: &str) -> (r: Result<Tap, NetError>)
        ensures
            r is Ok <==> 0 < utf8_of(name@).len() < IFNAMSIZ,
            r matches Ok(t) ==> t.spec_name() == name@,
            r is Err ==> r == Err::<Tap, _>(NetError::InvalidName),
    {
        if is_valid_ifname(name) {
            Ok(Tap { ifname: name.to_owned() })
        } else {
            Err(NetError::InvalidName)
        }
    }

    /// The interface's name.
    pub fn name(&self) -> (r: &str)
        ensures
            r@ == self.spec_name(),
    {
        self.ifname.as_str()
    }
}

} // verus!
