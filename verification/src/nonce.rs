use vstd::prelude::*;

verus! {

/// A 32-byte public key.
#[derive(Clone, Copy, Debug, PartialEq, Eq)]
pub struct Pubkey(pub [u8; 32]);

/// The position of a signer among a command's signers.
pub type SignerIndex = usize;

/// The signers of a command, each known by its public key; the first one is
/// the default signer.
#[derive(Clone, Debug, PartialEq, Eq)]
pub struct CliSignerInfo {
    pub signers: Vec<Pubkey>,
}

/// The nonce account of a command and the position of the signer that is its
/// authority.
#[derive(Clone, Copy, Debug, PartialEq, Eq)]
pub struct NonceSignerInfo {
    pub account: Pubkey,
    pub signer_index: SignerIndex,
}

/// Whether two keys hold the same bytes.
pub open spec fn same_key(a: Pubkey, b: Pubkey) -> bool {
    a.0@ == b.0@
}

/// Whether `i` is the position of the first signer with key `pubkey`.
pub open spec fn is_first_position(signers: Seq<Pubkey>, pubkey: Pubkey, i: int) -> bool {
    &&& 0 <= i < signers.len()
    &&& same_key(signers[i], pubkey)
    &&& forall|j: int| 0 <= j < i ==> !same_key(#[trigger] signers[j], pubkey)
}

/// The position of the first signer with key `pubkey`, or `None` when no
/// signer has it.
pub open spec fn spec_position(signers: Seq<Pubkey>, pubkey: Pubkey) -> Option<int> {
    if exists|i: int| #[trigger] is_first_position(signers, pubkey, i) {
        Some(choose|i: int| #[trigger] is_first_position(signers, pubkey, i))
    } else {
        None
    }
}

/// The position of the signer for `pubkey`: the first signer with that key,
/// or the default signer (position zero) when no key is given.
pub open spec fn spec_index_of(signers: Seq<Pubkey>, pubkey: Option<Pubkey>) -> Option<int> {
    match pubkey {
        Some(pk) => spec_position(signers, pk),
        None => Some(0),
    }
}

/// Whether two keys hold the same bytes.
pub fn keys_equal(a: &Pubkey, b: &Pubkey) -> (r: bool)
    ensures
        r == same_key(*a, *b),
{
    let mut i: usize = 0;
    while i < 32
        invariant
            i <= 32,
            forall|j: int| 0 <= j < i ==> a.0@[j] == b.0@[j],
        decreases 32 - i,
    {
        if a.0[i] != b.0[i] {
            return false;
        }
        i = i + 1;
    }
    assert(a.0@ =~= b.0@);
    true
}

impl CliSignerInfo {
    /// The position of the signer for `pubkey`: the first signer with that
    /// key (`None` when there is none), or the default signer, position zero,
    /// when no key is given.
    pub fn index_of(&self, pubkey: Option<Pubkey>) -> (r: Option<usize>)
        ensures
            spec_index_of(self.signers@, pubkey) is None ==> r is None,
            spec_index_of(self.signers@, pubkey) matches Some(i) ==> r == Some(i as usize),
    {
        match pubkey {
            Some(pk) => {
                let n = self.signers.len();
                let mut i: usize = 0;
                while i < n
                    invariant
                        i <= n,
                        n == self.signers@.len(),
                        pubkey == Some(pk),
                        forall|j: int| 0 <= j < i ==> !same_key(#[trigger] self.signers@[j], pk),
                    decreases n - i,
                {
                    if keys_equal(&self.signers[i], &pk) {
                        proof {
                            assert(is_first_position(self.signers@, pk, i as int));
                            let w = choose|w: int| #[trigger] is_first_position(self.signers@, pk, w);
                            if w < i {
                                assert(!same_key(self.signers@[w], pk));
                            } else if w > i {
                                assert(!same_key(self.signers@[i as int], pk));
                            }
                        }
                        return Some(i);
                    }
                    i = i + 1;
                }
                proof {
                    if exists|w: int| #[trigger] is_first_position(self.signers@, pk, w) {
                        let w = choose|w: int| #[trigger] is_first_position(self.signers@, pk, w);
                        assert(!same_key(self.signers@[w], pk));
                    }
                }
                None
            },
            None => Some(0),
        }
    }
}

impl NonceSignerInfo {
    /// The nonce account together with the position of its authority among
    /// the signers (the default signer when no authority is given); nothing
    /// when no nonce account is given. The authority must be one of the
    /// signers.
    pub fn new(nonce_account: Option<Pubkey>, nonce_authority: Option<Pubkey>, signer_info: &CliSignerInfo) -> (r: Option<NonceSignerInfo>)
        requires
            nonce_account is Some ==> spec_index_of(signer_info.signers@, nonce_authority) is Some,
        ensures
            match nonce_account {
                Some(account) => r == Some(NonceSignerInfo {
                    account,
                    signer_index: spec_index_of(signer_info.signers@, nonce_authority)->0 as usize,
                }),
                None => r is None,
            },
    {
        match nonce_account {
            Some(account) => {
                let signer_index = match signer_info.index_of(nonce_authority) {
                    Some(i) => i,
                    None => 0,
                };
                Some(NonceSignerInfo { account, signer_index })
            },
            None => None,
        }
    }
}

} // verus!
