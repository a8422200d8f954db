use vstd::prelude::*;

verus! {

/// A 32-byte account address, held as four little-endian 64-bit words:
/// `w0` covers bytes 0..8 of the address, `w3` covers bytes 24..32.
#[derive(Clone, Copy, Debug, PartialEq, Eq, Structural)]
pub struct Address {
    pub w0: u64,
    pub w1: u64,
    pub w2: u64,
    pub w3: u64,
}

impl Address {
    /// The all-zero address marks an unset optional account slot.
    pub open spec fn is_zero_spec(self) -> bool {
        self.w0 == 0 && self.w1 == 0 && self.w2 == 0 && self.w3 == 0
    }

    pub fn is_zero(&self) -> (r: bool)
        ensures
            r == self.is_zero_spec(),
    {
        self.w0 == 0 && self.w1 == 0 && self.w2 == 0 && self.w3 == 0
    }
}

/// One account reference of a settlement instruction.
#[derive(Clone, Copy, Debug, PartialEq, Eq, Structural)]
pub struct AccountMeta {
    pub address: Address,
    pub is_signer: bool,
    pub is_writable: bool,
}

/// The well-known system clock account address.
pub open spec fn clock_address() -> Address {
    Address { w0: 0x515c2c1917d5a706, w1: 0x7ff14a3d4cc98c21, w2: 0x44fda19b08eeda58, w3: 0x8ad9dbe3 }
}

/// The well-known token-transfer program address.
pub open spec fn token_program_address() -> Address {
    Address { w0: 0x93a165d7e1f6dd06, w1: 0xac79ebce46e1cbd9, w2: 0x91375b5fed85b41c, w3: 0xa900ff7e85f58c3a }
}

/// The well-known system program address.
pub open spec fn system_program_address() -> Address {
    Address { w0: 0, w1: 0, w2: 0, w3: 0 }
}

pub fn clock_address_value() -> (r: Address)
    ensures
        r == clock_address(),
{
    Address { w0: 0x515c2c1917d5a706, w1: 0x7ff14a3d4cc98c21, w2: 0x44fda19b08eeda58, w3: 0x8ad9dbe3 }
}

pub fn token_program_address_value() -> (r: Address)
    ensures
        r == token_program_address(),
{
    Address { w0: 0x93a165d7e1f6dd06, w1: 0xac79ebce46e1cbd9, w2: 0x91375b5fed85b41c, w3: 0xa900ff7e85f58c3a }
}

pub fn system_program_address_value() -> (r: Address)
    ensures
        r == system_program_address(),
{
    Address { w0: 0, w1: 0, w2: 0, w3: 0 }
}

/// Whether a sequence of addresses contains `a`.
pub fn contains_address(v: &Vec<Address>, a: Address) -> (r: bool)
    ensures
        r == v@.contains(a),
{
    let mut i: usize = 0;
    let n: usize = v.len();
    while i < n
        invariant
            0 <= i <= n,
            n == v@.len(),
            forall|j: int| 0 <= j < i ==> v@[j] != a,
        decreases n - i,
    {
        if v[i] == a {
            assert(v@[i as int] == a);
            return true;
        }
        i = i + 1;
    }
    assert(forall|j: int| 0 <= j < v@.len() ==> v@[j] != a);
    false
}

} // verus!
