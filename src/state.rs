use vstd::prelude::*;

verus! {

/// The number of bytes in an identity.
pub const KEY_LEN: usize = 32;

/// Whether `a` comes before `b` in lexicographic byte order, the order in
/// which pool pairs are made canonical.
pub open spec fn key_lt(a: Seq<u8>, b: Seq<u8>) -> bool {
    exists|i: int|
        0 <= i < a.len() && i < b.len() && #[trigger] a.take(i) == b.take(i) && a[i] < b[i]
}

/// A 32-byte account or asset identity.
#[derive(Debug, Clone, Copy)]
pub struct Pubkey {
    pub bytes: [u8; 32],
}

impl View for Pubkey {
    type V = Seq<u8>;

    open spec fn view(&self) -> Seq<u8> {
        self.bytes@
    }
}

impl Pubkey {
    pub fn new_from_array(bytes: [u8; 32]) -> (r: Pubkey)
        ensures
            r@ == bytes@,
    {
        Pubkey { bytes }
    }

    pub fn to_bytes(&self) -> (r: [u8; 32])
        ensures
            r@ == self@,
    {
        self.bytes
    }

    /// Lexicographic "strictly before" on the bytes of two identities.
    pub fn precedes(&self, other: &Pubkey) -> (r: bool)
        ensures
            r == key_lt(self@, other@),
    {
        let mut i: usize = 0;
        while i < KEY_LEN
            invariant
                0 <= i <= KEY_LEN,
                self@.len() == KEY_LEN,
                other@.len() == KEY_LEN,
                forall|j: int| 0 <= j < i ==> self@[j] == other@[j],
            decreases KEY_LEN - i,
        {
            let x = self.bytes[i];
            let y = other.bytes[i];
            if x != y {
                proof {
                    assert(self@.take(i as int) =~= other@.take(i as int));
                    if x > y {
                        assert forall|k: int|
                            0 <= k < self@.len() && k < other@.len() && #[trigger] self@.take(k)
                                == other@.take(k) implies !(self@[k] < other@[k]) by {
                            if k > i {
                                assert(self@.take(k)[i as int] == other@.take(k)[i as int]);
                            }
                        }
                    }
                }
                return x < y;
            }
            i = i + 1;
        }
        proof {
            assert forall|k: int|
                0 <= k < self@.len() && k < other@.len() && #[trigger] self@.take(k) == other@.take(
                    k,
                ) implies !(self@[k] < other@[k]) by {}
        }
        false
    }
}

impl PartialEq for Pubkey {
    fn eq(&self, other: &Pubkey) -> (r: bool) {
        let mut i: usize = 0;
        while i < KEY_LEN
            invariant
                0 <= i <= KEY_LEN,
                self@.len() == KEY_LEN,
                other@.len() == KEY_LEN,
                forall|j: int| 0 <= j < i ==> self@[j] == other@[j],
            decreases KEY_LEN - i,
        {
            if self.bytes[i] != other.bytes[i] {
                return false;
            }
            i = i + 1;
        }
        assert(self@ =~= other@);
        true
    }
}

impl vstd::std_specs::cmp::PartialEqSpecImpl for Pubkey {
    open spec fn obeys_eq_spec() -> bool {
        true
    }

    open spec fn eq_spec(&self, other: &Pubkey) -> bool {
        self@ == other@
    }
}

/// The admin record: the one identity allowed to create pools and to hand
/// the role on.
#[derive(Debug, Clone, Copy)]
pub struct AdminSettings {
    pub admin: Pubkey,
}

/// A pool for one ordered pair of assets and its outstanding claim supply.
#[derive(Debug, Clone, Copy)]
pub struct Pool {
    pub token0: Pubkey,
    pub token1: Pubkey,
    pub liquidity: u64,
}

} // verus!
