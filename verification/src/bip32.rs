use crate::text::{chars_of, parse_unsigned, spec_parse_unsigned, split_chars, split_on};
use derivation_path::{ChildIndex, DerivationPath};
use ed25519_dalek_bip32::{Error as KeyDerivationError, ExtendedSecretKey};
use vstd::prelude::*;
use vstd::string::*;

verus! {

#[verifier::external_type_specification]
#[verifier::external_body]
pub struct ExDerivationPath(DerivationPath);

#[verifier::external_type_specification]
#[verifier::external_body]
pub struct ExExtendedSecretKey(ExtendedSecretKey);

#[verifier::external_type_specification]
#[verifier::external_body]
pub struct ExBip32DalekError(KeyDerivationError);

/// The bit that marks a BIP32 index as hardened.
pub const HARDENED_BIT: u32 = 0x8000_0000;

/// An error of the wallet layer.
#[derive(Clone, Debug, PartialEq, Eq)]
pub enum RemoteWalletError {
    InvalidDerivationPath(String),
}

/// An error of BIP32 path handling or key derivation.
#[derive(Clone, Debug, PartialEq, Eq)]
pub enum Bip32Error {
    Ed25519DalekBip32Error(String),
    RemoteWalletError(RemoteWalletError),
}

/// One component of a derivation path; its value always carries the
/// hardened bit.
#[derive(Clone, Copy, Debug, PartialEq, Eq, Structural)]
pub struct DerivationPathComponent(pub u32);

/// A signing key pair: the secret key and its public key.
#[derive(Clone, Copy, Debug, PartialEq, Eq)]
pub struct Keypair {
    pub secret: [u8; 32],
    pub public: [u8; 32],
}

// ---------------------------------------------------------------------------
// Trusted items
// ---------------------------------------------------------------------------

/// The indices of a derivation path, in order, each as (hardened, number).
pub uninterp spec fn derivation_path_indices(p: DerivationPath) -> Seq<(bool, u32)>;

/// The text that Rust's `Debug` formatting writes for a string.
pub uninterp spec fn debug_text(s: Seq<char>) -> Seq<char>;

/// The root extended key that BIP32 derives from a seed.
pub uninterp spec fn bip32_master_key(seed: Seq<u8>) -> ExtendedSecretKey;

/// The extended key that BIP32 derives from `key` along `path`.
pub uninterp spec fn bip32_derived_key(key: ExtendedSecretKey, path: Seq<(bool, u32)>) -> ExtendedSecretKey;

/// How many derivations an extended key is from its root.
pub uninterp spec fn extended_key_depth(key: ExtendedSecretKey) -> u8;

/// The 32 bytes of an extended key's secret key.
pub uninterp spec fn extended_secret_bytes(key: ExtendedSecretKey) -> Seq<u8>;

/// The 32 bytes of the public key of an extended key's secret key.
pub uninterp spec fn extended_public_bytes(key: ExtendedSecretKey) -> Seq<u8>;

/// The message that a derivation error displays.
pub uninterp spec fn bip32_error_text(e: KeyDerivationError) -> Seq<char>;

/// The decimal digits of `n`, most significant first, as `Display` writes an
/// unsigned integer.
pub open spec fn decimal_text(n: nat) -> Seq<char>
    decreases n,
{
    let digit = (('0' as nat) + n % 10) as char;
    if n < 10 {
        seq![digit]
    } else {
        decimal_text(n / 10).push(digit)
    }
}

/// The position of the first index of a path that is not hardened.
pub open spec fn first_normal(indices: Seq<(bool, u32)>) -> int {
    choose|i: int| 0 <= i < indices.len() && !(#[trigger] indices[i]).0 && forall|j: int| 0 <= j < i ==> (#[trigger] indices[j]).0
}

/// The message of the error that deriving along `indices` fails with: it
/// names the first index that is not hardened.
pub open spec fn expected_hardened_text(indices: Seq<(bool, u32)>) -> Seq<char> {
    "expected hardened child index: "@ + decimal_text(indices[first_normal(indices)].1 as nat)
}

/// `DerivationPath::new` on hardened indices: the path holds exactly the
/// given numbers, in order, each as a hardened index.
#[verifier::external_body]
fn derivation_path_hardened(indexes: Vec<u32>) -> (p: DerivationPath)
    ensures
        derivation_path_indices(p) == indexes@.map_values(|i: u32| (true, i)),
{
    DerivationPath::new(indexes.into_iter().map(ChildIndex::Hardened).collect::<Vec<ChildIndex>>())
}

/// `format!("{:?}", s)` on a string: its `Debug` text, a function of the
/// string alone.
#[verifier::external_body]
fn debug_string(s: &String) -> (r: String)
    ensures
        r@ == debug_text(s@),
{
    format!("{:?}", s)
}

/// Collecting characters into a `String` gives the string of exactly those
/// characters.
#[verifier::external_body]
fn string_from_chars(v: &Vec<char>) -> (r: String)
    ensures
        r@ == v@,
{
    v.iter().collect::<String>()
}

/// `ExtendedSecretKey::from_seed`: the root key for the seed. Its source
/// only fails when a 32-byte slice has another length, so it always succeeds.
#[verifier::external_body]
fn extended_key_from_seed(seed: &[u8]) -> (r: Result<ExtendedSecretKey, KeyDerivationError>)
    ensures
        r is Ok,
        r->Ok_0 == bip32_master_key(seed@),
        extended_key_depth(r->Ok_0) == 0,
{
    ExtendedSecretKey::from_seed(seed)
}

/// `ExtendedSecretKey::derive`: the key derived along the path; the source
/// fails exactly when some index of the path is not hardened, with
/// `Error::ExpectedHardenedIndex` of the first such index, whose `Display`
/// writes that index in decimal after a fixed text. Each step adds one to
/// the key's depth, a `u8`, which overflows (a panic in builds with overflow
/// checks) past 255; `requires` rules that out.
#[verifier::external_body]
fn extended_key_derive(key: &ExtendedSecretKey, path: &DerivationPath) -> (r: Result<ExtendedSecretKey, KeyDerivationError>)
    requires
        extended_key_depth(*key) + derivation_path_indices(*path).len() <= 255,
    ensures
        r is Ok <==> (forall|i: int|
            0 <= i < derivation_path_indices(*path).len() ==> (#[trigger] derivation_path_indices(*path)[i]).0),
        r is Ok ==> r->Ok_0 == bip32_derived_key(*key, derivation_path_indices(*path)),
        r is Err ==> bip32_error_text(r->Err_0) == expected_hardened_text(derivation_path_indices(*path)),
{
    key.derive(path)
}

/// The bytes of the extended key's secret key (`SecretKey::to_bytes`).
#[verifier::external_body]
fn extended_key_secret(key: &ExtendedSecretKey) -> (r: [u8; 32])
    ensures
        r@ == extended_secret_bytes(*key),
{
    key.secret_key.to_bytes()
}

/// The bytes of the extended key's public key (`ExtendedSecretKey::public_key`).
#[verifier::external_body]
fn extended_key_public(key: &ExtendedSecretKey) -> (r: [u8; 32])
    ensures
        r@ == extended_public_bytes(*key),
{
    key.public_key().to_bytes()
}

/// The text of a derivation error (`to_string` on its `Display`).
#[verifier::external_body]
fn bip32_error_string(e: &KeyDerivationError) -> (r: String)
    ensures
        r@ == bip32_error_text(*e),
{
    e.to_string()
}

// ---------------------------------------------------------------------------
// Path components
// ---------------------------------------------------------------------------

/// The number written by a path component: an optional trailing `'` is
/// dropped and the rest must be an unsigned 32-bit decimal number.
pub open spec fn spec_component_number(s: Seq<char>) -> Option<nat> {
    let t = if s.len() > 0 && s.last() == '\'' { s.drop_last() } else { s };
    spec_parse_unsigned(t, u32::MAX as nat)
}

/// The BIP32 index that a parsed component stands for: its number without
/// the hardened bit.
pub open spec fn spec_child_number(n: nat) -> u32 {
    (n % 0x8000_0000) as u32
}

/// The message of a component that does not parse.
pub open spec fn spec_component_error(s: Seq<char>) -> Seq<char> {
    "failed to parse path component: "@ + debug_text(s)
}

/// The message of a path with more than four components.
pub open spec fn spec_too_deep_error(key_path: Seq<char>) -> Seq<char> {
    "key path `"@ + key_path + "` too deep, only <account>/<change> supported"@
}

impl DerivationPathComponent {
    /// The component's value, hardened bit included.
    pub fn as_u32(&self) -> (r: u32)
        ensures
            r == self.0,
    {
        self.0
    }

    /// Parses a component: an optional trailing `'`, before it an unsigned
    /// 32-bit decimal number, which gets the hardened bit.
    pub fn from_chars(s: &Vec<char>) -> (r: Result<DerivationPathComponent, RemoteWalletError>)
        ensures
            r is Ok <==> spec_component_number(s@) is Some,
            r matches Ok(c) ==> c.0 % 0x8000_0000 == spec_child_number(spec_component_number(s@)->0)
                && c.0 >= 0x8000_0000,
            r matches Err(e) ==> e == RemoteWalletError::InvalidDerivationPath(e->InvalidDerivationPath_0)
                && e->InvalidDerivationPath_0@ == spec_component_error(s@),
    {
        let n = s.len();
        let mut t: Vec<char> = Vec::new();
        let end: usize = if n > 0 && s[n - 1] == '\'' { n - 1 } else { n };
        let mut i: usize = 0;
        while i < end
            invariant
                i <= end <= n,
                n == s@.len(),
                t@ == s@.take(i as int),
            decreases end - i,
        {
            t.push(s[i]);
            i = i + 1;
        }
        proof {
            let tt = if s@.len() > 0 && s@.last() == '\'' { s@.drop_last() } else { s@ };
            assert(t@ =~= tt);
        }
        match parse_unsigned(&t, 0xFFFF_FFFF) {
            Some(v) => {
                let v32 = v as u32;
                let c = v32 | HARDENED_BIT;
                assert(c % 0x8000_0000 == v32 % 0x8000_0000 && c >= 0x8000_0000) by (bit_vector)
                    requires
                        c == v32 | 0x8000_0000u32,
                ;
                Ok(DerivationPathComponent(c))
            },
            None => {
                let text = string_from_chars(s);
                let debug = debug_string(&text);
                let mut message = "failed to parse path component: ".to_owned();
                message.append(debug.as_str());
                proof {
                    reveal_strlit("failed to parse path component: ");
                }
                Err(RemoteWalletError::InvalidDerivationPath(message))
            },
        }
    }
}

/// The BIP32 index of a component: its value without the hardened bit.
pub fn component_to_child_index(component: &DerivationPathComponent) -> (r: u32)
    ensures
        r == component.0 % 0x8000_0000,
{
    let v = component.as_u32();
    let r = v & !HARDENED_BIT;
    assert(r == v % 0x8000_0000) by (bit_vector)
        requires
            r == v & !0x8000_0000u32,
    ;
    r
}


// ---------------------------------------------------------------------------
// Paths
// ---------------------------------------------------------------------------

/// The components of a key path: the pieces between `/`, without the first
/// one (the `m` of the path).
pub open spec fn spec_path_components(key_path: Seq<char>) -> Seq<Seq<char>> {
    split_on(key_path, '/').drop_first()
}

/// The number of components that are parsed: at most four.
pub open spec fn spec_parsed_count(key_path: Seq<char>) -> int {
    let n = spec_path_components(key_path).len() as int;
    if n < 4 { n } else { 4 }
}

/// The position of the first component among `comps[j..k]` that does not
/// parse, or `k` when all of them parse.
pub open spec fn spec_first_invalid(comps: Seq<Seq<char>>, j: int, k: int) -> int
    decreases k - j,
{
    if j >= k {
        k
    } else if spec_component_number(comps[j]) is None {
        j
    } else {
        spec_first_invalid(comps, j + 1, k)
    }
}

/// The path indices of a key path whose components all parse: each
/// component's number, hardened.
pub open spec fn spec_parsed_indices(key_path: Seq<char>) -> Seq<(bool, u32)> {
    let comps = spec_path_components(key_path);
    Seq::new(comps.len(), |i: int| (true, spec_child_number(spec_component_number(comps[i])->0)))
}

/// The first invalid position stays within `[j, k]`, and every component
/// before it parses.
pub proof fn lemma_first_invalid(comps: Seq<Seq<char>>, j: int, k: int)
    requires
        0 <= j <= k <= comps.len(),
    ensures
        j <= spec_first_invalid(comps, j, k) <= k,
        forall|i: int| j <= i < spec_first_invalid(comps, j, k) ==> spec_component_number(comps[i]) is Some,
        spec_first_invalid(comps, j, k) < k ==> spec_component_number(comps[spec_first_invalid(comps, j, k)]) is None,
    decreases k - j,
{
    if j < k && spec_component_number(comps[j]) is Some {
        lemma_first_invalid(comps, j + 1, k);
    }
}

/// Parses a BIP32 key path `m/<purpose>/<coin>/<account>/<change>` (each
/// part optional): the first piece is not read; up to four components
/// follow, each a number with an optional trailing `'`, and each becomes a
/// hardened index. The first component that does not parse is reported;
/// then a path with more than four components is refused as too deep.
pub fn parse_derivation_input(key_path: &str) -> (r: Result<DerivationPath, Bip32Error>)
    ensures
        ({
            let comps = spec_path_components(key_path@);
            let k = spec_parsed_count(key_path@);
            let bad = spec_first_invalid(comps, 0, k);
            &&& bad < k ==> (r matches Err(
                Bip32Error::RemoteWalletError(RemoteWalletError::InvalidDerivationPath(m)),
            ) && m@ == spec_component_error(comps[bad]))
            &&& bad == k && comps.len() > 4 ==> (r matches Err(
                Bip32Error::RemoteWalletError(RemoteWalletError::InvalidDerivationPath(m)),
            ) && m@ == spec_too_deep_error(key_path@))
            &&& bad == k && comps.len() <= 4 ==> (r matches Ok(p) && derivation_path_indices(p)
                == spec_parsed_indices(key_path@))
        }),
{
    let chars = chars_of(key_path);
    let parts = split_chars(&chars, '/');
    let ghost comps = spec_path_components(key_path@);
    let ghost k = spec_parsed_count(key_path@);
    proof {
        crate::text::lemma_split_nonempty(key_path@, '/');
        lemma_first_invalid(comps, 0, k);
    }
    let mut child_indexes: Vec<u32> = Vec::new();
    let mut j: usize = 1;
    while j < parts.len() && j <= 4
        invariant
            1 <= j <= 5,
            parts@.len() == split_on(key_path@, '/').len(),
            parts@.len() >= 1,
            comps == split_on(key_path@, '/').drop_first(),
            forall|i: int| 0 <= i < parts@.len() ==> (#[trigger] parts@[i])@ == split_on(key_path@, '/')[i],
            k == (if comps.len() < 4 { comps.len() as int } else { 4 }),
            j - 1 <= k,
            spec_first_invalid(comps, 0, k) == spec_first_invalid(comps, j - 1, k),
            child_indexes@.len() == j - 1,
            forall|i: int| 0 <= i < j - 1 ==> spec_component_number(#[trigger] comps[i]) is Some,
            forall|i: int|
                0 <= i < j - 1 ==> #[trigger] child_indexes@[i] == spec_child_number(
                    spec_component_number(comps[i])->0,
                ),
        decreases 5 - j,
    {
        assert(parts@[j as int]@ == comps[j - 1]);
        match DerivationPathComponent::from_chars(&parts[j]) {
            Ok(component) => {
                child_indexes.push(component_to_child_index(&component));
                proof {
                    lemma_first_invalid(comps, j - 1, k);
                }
            },
            Err(e) => {
                proof {
                    lemma_first_invalid(comps, j - 1, k);
                }
                return Err(Bip32Error::RemoteWalletError(e));
            },
        }
        j = j + 1;
    }
    proof {
        lemma_first_invalid(comps, j - 1, k);
    }
    if parts.len() > 5 {
        let mut message = "key path `".to_owned();
        message.append(key_path);
        message.append("` too deep, only <account>/<change> supported");
        proof {
            reveal_strlit("key path `");
            reveal_strlit("` too deep, only <account>/<change> supported");
        }
        return Err(Bip32Error::RemoteWalletError(RemoteWalletError::InvalidDerivationPath(message)));
    }
    let ghost expected = spec_parsed_indices(key_path@);
    let path = derivation_path_hardened(child_indexes);
    proof {
        assert(child_indexes@.map_values(|i: u32| (true, i)) =~= expected);
    }
    Ok(path)
}

/// Whether every index of a path is hardened.
pub open spec fn all_hardened(indices: Seq<(bool, u32)>) -> bool {
    forall|i: int| 0 <= i < indices.len() ==> (#[trigger] indices[i]).0
}

/// Derives the key pair for `derivation_path` from `seed` by BIP32 over
/// ed25519; derivation fails exactly when the path holds an index that is
/// not hardened, and the error carries the derivation error's message, which
/// names the first such index. Paths longer than 255 indices overflow the key
/// depth and are ruled out.
pub fn derive_keypair(seed: &[u8], derivation_path: &DerivationPath) -> (r: Result<Keypair, Bip32Error>)
    requires
        derivation_path_indices(*derivation_path).len() <= 255,
    ensures
        r is Ok <==> all_hardened(derivation_path_indices(*derivation_path)),
        r matches Ok(kp) ==> kp.secret@ == extended_secret_bytes(
            bip32_derived_key(bip32_master_key(seed@), derivation_path_indices(*derivation_path)),
        ) && kp.public@ == extended_public_bytes(
            bip32_derived_key(bip32_master_key(seed@), derivation_path_indices(*derivation_path)),
        ),
        r matches Err(e) ==> e is Ed25519DalekBip32Error && e->Ed25519DalekBip32Error_0@ == expected_hardened_text(
            derivation_path_indices(*derivation_path),
        ),
{
    let root = match extended_key_from_seed(seed) {
        Ok(key) => key,
        Err(err) => {
            return Err(Bip32Error::Ed25519DalekBip32Error(bip32_error_string(&err)));
        },
    };
    let extended = match extended_key_derive(&root, derivation_path) {
        Ok(key) => key,
        Err(err) => {
            return Err(Bip32Error::Ed25519DalekBip32Error(bip32_error_string(&err)));
        },
    };
    let public = extended_key_public(&extended);
    let secret = extended_key_secret(&extended);
    Ok(Keypair { secret, public })
}

/// Every path that `parse_derivation_input` builds holds only hardened
/// indices, so a key can always be derived along it.
pub proof fn law_parsed_paths_are_hardened(key_path: Seq<char>)
    ensures
        all_hardened(spec_parsed_indices(key_path)),
        spec_parsed_indices(key_path).len() == spec_path_components(key_path).len(),
{
}

} // verus!
