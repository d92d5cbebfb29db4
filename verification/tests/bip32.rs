use derivation_path::{ChildIndex, DerivationPath};
use tpu_toolkit::bip32::{
    component_to_child_index, derive_keypair, parse_derivation_input, Bip32Error,
    DerivationPathComponent, RemoteWalletError, HARDENED_BIT,
};

fn hex(s: &str) -> Vec<u8> {
    (0..s.len()).step_by(2).map(|i| u8::from_str_radix(&s[i..i + 2], 16).unwrap()).collect()
}

fn chars(s: &str) -> Vec<char> {
    s.chars().collect()
}

fn invalid_path(e: Bip32Error) -> String {
    match e {
        Bip32Error::RemoteWalletError(RemoteWalletError::InvalidDerivationPath(m)) => m,
        other => panic!("unexpected error {:?}", other),
    }
}

#[test]
fn parses_full_path() {
    let path = parse_derivation_input("m/44'/501'/0'/0'").unwrap();
    assert_eq!(
        path.path(),
        &[
            ChildIndex::Hardened(44),
            ChildIndex::Hardened(501),
            ChildIndex::Hardened(0),
            ChildIndex::Hardened(0)
        ]
    );
}

#[test]
fn unquoted_components_are_hardened_too() {
    let path = parse_derivation_input("m/44/501").unwrap();
    assert_eq!(path.path(), &[ChildIndex::Hardened(44), ChildIndex::Hardened(501)]);
}

#[test]
fn first_piece_is_not_read() {
    let path = parse_derivation_input("anything/7'").unwrap();
    assert_eq!(path.path(), &[ChildIndex::Hardened(7)]);
    assert!(parse_derivation_input("m").unwrap().path().is_empty());
    assert!(parse_derivation_input("").unwrap().path().is_empty());
}

#[test]
fn hardened_bit_is_dropped_from_large_numbers() {
    let path = parse_derivation_input("m/2147483649'").unwrap();
    assert_eq!(path.path(), &[ChildIndex::Hardened(1)]);
}

#[test]
fn too_deep_path_is_refused() {
    let err = parse_derivation_input("m/44'/501'/0'/0'/1'").unwrap_err();
    assert_eq!(
        invalid_path(err),
        "key path `m/44'/501'/0'/0'/1'` too deep, only <account>/<change> supported"
    );
}

#[test]
fn bad_component_is_reported_first() {
    let err = parse_derivation_input("m/44'/x1/0'/0'/1'/2'").unwrap_err();
    assert_eq!(invalid_path(err), "failed to parse path component: \"x1\"");
}

#[test]
fn empty_and_signed_components_are_refused() {
    let err = parse_derivation_input("m/44'/").unwrap_err();
    assert_eq!(invalid_path(err), "failed to parse path component: \"\"");
    let err = parse_derivation_input("m/-1").unwrap_err();
    assert_eq!(invalid_path(err), "failed to parse path component: \"-1\"");
    let err = parse_derivation_input("m/4294967296").unwrap_err();
    assert_eq!(invalid_path(err), "failed to parse path component: \"4294967296\"");
    let path = parse_derivation_input("m/+12'").unwrap();
    assert_eq!(path.path(), &[ChildIndex::Hardened(12)]);
}

#[test]
fn component_parsing() {
    let c = DerivationPathComponent::from_chars(&chars("44'")).unwrap();
    assert_eq!(c.as_u32(), 44 | HARDENED_BIT);
    assert_eq!(component_to_child_index(&c), 44);
    let c = DerivationPathComponent::from_chars(&chars("4294967295")).unwrap();
    assert_eq!(c.as_u32(), u32::MAX);
    assert_eq!(component_to_child_index(&c), 0x7fff_ffff);
    let err = DerivationPathComponent::from_chars(&chars("44''")).unwrap_err();
    assert_eq!(
        err,
        RemoteWalletError::InvalidDerivationPath("failed to parse path component: \"44''\"".to_string())
    );
}

#[test]
fn derives_bip32_test_vector() {
    let seed = hex("000102030405060708090a0b0c0d0e0f");
    let path = parse_derivation_input("m/0'/1'/2'/2'").unwrap();
    let keypair = derive_keypair(&seed, &path).unwrap();
    assert_eq!(
        keypair.secret.to_vec(),
        hex("30d1dc7e5fc04c31219ab25a27ae00b50f6fd66622f6e9c913253d6511d1e662")
    );
    assert_eq!(
        keypair.public.to_vec(),
        hex("8abae2d66361c879b900d204ad2cc4984fa2aa344dd7ddc46007329ac76c429c")
    );
}

#[test]
fn derives_root_key_for_empty_path() {
    let seed = hex("000102030405060708090a0b0c0d0e0f");
    let path = parse_derivation_input("m").unwrap();
    let keypair = derive_keypair(&seed, &path).unwrap();
    assert_eq!(
        keypair.secret.to_vec(),
        hex("2b4be7f19ee27bbf30c667b642d5f4aa69fd169872f8fc3059c08ebae2eb19e7")
    );
    assert_eq!(
        keypair.public.to_vec(),
        hex("a4b2856bfec510abab89753fac1ac0e1112364e7d250545963f135f2a33188ed")
    );
}

#[test]
fn normal_index_fails_derivation() {
    let seed = hex("000102030405060708090a0b0c0d0e0f");
    let path = DerivationPath::new(vec![ChildIndex::Hardened(0), ChildIndex::Normal(3)]);
    let err = derive_keypair(&seed, &path).unwrap_err();
    assert_eq!(
        err,
        Bip32Error::Ed25519DalekBip32Error("expected hardened child index: 3".to_string())
    );
}

#[test]
fn derivation_error_names_first_normal_index() {
    let seed = hex("000102030405060708090a0b0c0d0e0f");
    let path = DerivationPath::new(vec![
        ChildIndex::Hardened(44),
        ChildIndex::Normal(1234),
        ChildIndex::Normal(5),
    ]);
    let err = derive_keypair(&seed, &path).unwrap_err();
    assert_eq!(
        err,
        Bip32Error::Ed25519DalekBip32Error("expected hardened child index: 1234".to_string())
    );
}
