use std::time::{Duration, SystemTime};
use tpu_toolkit::bench_cli::{
    extract_args, funded_lamports_per_account, keypair_count, parse_option, ArgValues, Config,
    DEFAULT_TARGET_LAMPORTS_PER_SIGNATURE, LAMPORTS_PER_SOL, NUM_SIGNATURES_FOR_TXS,
};
use tpu_toolkit::bip32::Keypair;
use tpu_toolkit::nonce::{CliSignerInfo, NonceSignerInfo, Pubkey};
use tpu_toolkit::text::{parse_unsigned, split_chars};
use tpu_toolkit::timing::{duration_as_ms, millis_since, AtomicInterval, Measure};
use tpu_toolkit::upload_service::{UploadAction, UploadObservation, UploadProgress};

fn keypair() -> Keypair {
    Keypair { secret: [1; 32], public: [2; 32] }
}

fn no_args() -> ArgValues {
    ArgValues {
        threads: None,
        duration: None,
        tx_count: None,
        keypair_multiplier: None,
        thread_batch_sleep_ms: None,
        sustained: false,
        write_client_keys: None,
        read_client_keys: None,
        target_lamports_per_signature: None,
        num_lamports_per_account: None,
        target_slots_per_epoch: None,
    }
}

#[test]
fn default_config() {
    let c = Config::default_with_id(keypair());
    assert_eq!(c.json_rpc_url, "https://api.mainnet-beta.solana.com");
    assert_eq!(c.websocket_url, "");
    assert_eq!(c.threads, 4);
    assert_eq!(c.duration_secs, u64::MAX);
    assert_eq!(c.tx_count, 50_000);
    assert_eq!(c.keypair_multiplier, 8);
    assert_eq!(c.thread_batch_sleep_ms, 1000);
    assert_eq!(c.target_lamports_per_signature, DEFAULT_TARGET_LAMPORTS_PER_SIGNATURE);
    assert_eq!(c.num_lamports_per_account, LAMPORTS_PER_SOL);
    assert_eq!(c.target_slots_per_epoch, 0);
}

#[test]
fn extract_args_takes_given_values() {
    let mut a = no_args();
    a.threads = Some("12".to_string());
    a.duration = Some("30".to_string());
    a.tx_count = Some("+100".to_string());
    a.keypair_multiplier = Some("2".to_string());
    a.sustained = true;
    a.read_client_keys = Some("keys.yml".to_string());
    a.target_slots_per_epoch = Some("32".to_string());
    let c = extract_args(&a, "http://x".to_string(), "ws://x".to_string(), keypair());
    assert_eq!(c.json_rpc_url, "http://x");
    assert_eq!(c.websocket_url, "ws://x");
    assert_eq!(c.threads, 12);
    assert_eq!(c.duration_secs, 30);
    assert_eq!(c.tx_count, 100);
    assert_eq!(c.keypair_multiplier, 2);
    assert!(c.sustained);
    assert!(c.read_from_client_file);
    assert!(!c.write_to_client_file);
    assert_eq!(c.client_ids_and_stake_file, "keys.yml");
    assert_eq!(c.target_slots_per_epoch, 32);
    assert_eq!(c.num_lamports_per_account, LAMPORTS_PER_SOL);
    assert_eq!(keypair_count(&c), 200);
}

#[test]
fn parse_option_reports_bad_values() {
    assert_eq!(parse_option(&None, 10), None);
    assert_eq!(parse_option(&Some("7".to_string()), 10), Some(Some(7)));
    assert_eq!(parse_option(&Some("11".to_string()), 10), Some(None));
    assert_eq!(parse_option(&Some("x".to_string()), 10), Some(None));
}

#[test]
fn funding_share_rounds_up() {
    assert_eq!(funded_lamports_per_account(1, 1, 5), NUM_SIGNATURES_FOR_TXS + 5);
    assert_eq!(funded_lamports_per_account(7, 1, 0), (NUM_SIGNATURES_FOR_TXS + 6) / 7);
    assert_eq!(funded_lamports_per_account(3, 0, 9), 9);
}

#[test]
fn text_parsing() {
    let v: Vec<char> = "00042".chars().collect();
    assert_eq!(parse_unsigned(&v, 100), Some(42));
    let v: Vec<char> = "+".chars().collect();
    assert_eq!(parse_unsigned(&v, 100), None);
    let v: Vec<char> = "18446744073709551615".chars().collect();
    assert_eq!(parse_unsigned(&v, u64::MAX), Some(u64::MAX));
    let v: Vec<char> = "18446744073709551616".chars().collect();
    assert_eq!(parse_unsigned(&v, u64::MAX), None);
    let v: Vec<char> = "a/b//c/".chars().collect();
    let parts: Vec<String> = split_chars(&v, '/').iter().map(|p| p.iter().collect()).collect();
    assert_eq!(parts, vec!["a", "b", "", "c", ""]);
}

#[test]
fn upload_loop_decisions() {
    let mut p = UploadProgress::new(10);
    let obs = |exit, complete, root| UploadObservation {
        exit,
        max_complete_transaction_status_slot: complete,
        root,
    };
    assert_eq!(p.next_action(&obs(true, 50, 50)), UploadAction::Stop);
    assert_eq!(p.next_action(&obs(false, 0, 50)), UploadAction::Sleep(1));
    assert_eq!(
        p.next_action(&obs(false, 50, 7)),
        UploadAction::Upload { start_slot: 0, end_slot: 7 }
    );
    assert_eq!(
        p.next_action(&obs(false, 50, 50)),
        UploadAction::Upload { start_slot: 0, end_slot: 10 }
    );
    assert_eq!(p.record_upload(10, false), Some(2));
    assert_eq!(p.start_slot, 0);
    assert_eq!(p.record_upload(10, true), None);
    assert_eq!(p.start_slot, 10);
    assert_eq!(
        p.next_action(&obs(false, 15, 50)),
        UploadAction::Upload { start_slot: 10, end_slot: 15 }
    );
    let big = UploadProgress { start_slot: u64::MAX - 1, max_num_slots_to_check: 10 };
    assert_eq!(big.end_slot(&obs(false, u64::MAX, u64::MAX)), u64::MAX);
}

#[test]
fn nonce_signer_info() {
    let a = Pubkey([1; 32]);
    let b = Pubkey([2; 32]);
    let c = Pubkey([3; 32]);
    let signers = CliSignerInfo { signers: vec![a, b, b] };
    assert_eq!(signers.index_of(Some(b)), Some(1));
    assert_eq!(signers.index_of(None), Some(0));
    assert_eq!(signers.index_of(Some(c)), None);
    assert_eq!(
        NonceSignerInfo::new(Some(c), Some(b), &signers),
        Some(NonceSignerInfo { account: c, signer_index: 1 })
    );
    assert_eq!(
        NonceSignerInfo::new(Some(c), None, &signers),
        Some(NonceSignerInfo { account: c, signer_index: 0 })
    );
    assert_eq!(NonceSignerInfo::new(None, Some(a), &signers), None);
}

#[test]
fn interval_limiter() {
    let mut i = AtomicInterval::new();
    assert!(!i.should_update_at(5000, 2000, true));
    assert!(!i.should_update_at(6000, 2000, true));
    assert!(i.should_update_at(7001, 2000, true));
    assert!(!i.should_update_at(7002, 2000, true));
    let mut j = AtomicInterval::new();
    assert!(j.should_update_at(5000, 2000, false));
}

#[test]
fn measure_and_durations() {
    let mut m = Measure::start("m");
    m.stop();
    assert_eq!(m.name(), "m");
    assert!(m.as_ms() < 60_000);
    assert_eq!(duration_as_ms(&std::time::Duration::from_millis(2500)), Some(2500));
    assert_eq!(duration_as_ms(&std::time::Duration::from_secs(u64::MAX)), None);
}

#[test]
fn millis_since_counts_whole_milliseconds() {
    let epoch = SystemTime::UNIX_EPOCH;
    let t = epoch + Duration::new(3, 999_999_999);
    assert_eq!(millis_since(&t, &epoch), Some(3999));
    assert_eq!(millis_since(&epoch, &epoch), Some(0));
    assert_eq!(millis_since(&epoch, &t), None);
    let now = SystemTime::now();
    let expected = now.duration_since(epoch).unwrap().as_millis() as u64;
    assert_eq!(millis_since(&now, &epoch), Some(expected));
}
