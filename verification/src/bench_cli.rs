use crate::bip32::Keypair;
use crate::text::{chars_of, parse_unsigned, spec_parse_unsigned};
use vstd::prelude::*;

verus! {

/// Lamports in one SOL.
pub const LAMPORTS_PER_SOL: u64 = 1_000_000_000;

/// Default target cost, in lamports, of verifying one signature.
pub const DEFAULT_TARGET_LAMPORTS_PER_SIGNATURE: u64 = 10_000;

/// Default JSON RPC URL.
pub const DEFAULT_JSON_RPC_URL: &'static str = "https://api.mainnet-beta.solana.com";

/// Number of signatures for all transactions in about a week at about 100K TPS.
pub const NUM_SIGNATURES_FOR_TXS: u64 = 60_480_000_000;

/// The configuration of one benchmark run.
#[derive(Clone, Debug, PartialEq, Eq)]
pub struct Config {
    pub json_rpc_url: String,
    pub websocket_url: String,
    pub id: Keypair,
    pub threads: usize,
    pub duration_secs: u64,
    pub tx_count: usize,
    pub keypair_multiplier: usize,
    pub thread_batch_sleep_ms: usize,
    pub sustained: bool,
    pub client_ids_and_stake_file: String,
    pub write_to_client_file: bool,
    pub read_from_client_file: bool,
    pub target_lamports_per_signature: u64,
    pub num_lamports_per_account: u64,
    pub target_slots_per_epoch: u64,
}

/// The raw values of the benchmark's command-line options, as given.
#[derive(Clone, Debug, PartialEq, Eq)]
pub struct ArgValues {
    pub threads: Option<String>,
    pub duration: Option<String>,
    pub tx_count: Option<String>,
    pub keypair_multiplier: Option<String>,
    pub thread_batch_sleep_ms: Option<String>,
    pub sustained: bool,
    pub write_client_keys: Option<String>,
    pub read_client_keys: Option<String>,
    pub target_lamports_per_signature: Option<String>,
    pub num_lamports_per_account: Option<String>,
    pub target_slots_per_epoch: Option<String>,
}

/// Whether an option, when given, is a decimal number no larger than `max`.
pub open spec fn parses_within(v: Option<String>, max: nat) -> bool {
    v matches Some(s) ==> spec_parse_unsigned(s@, max) is Some
}

/// The option's number when given and valid, else `default`.
pub open spec fn value_or(v: Option<String>, max: nat, default: nat) -> nat {
    match v {
        Some(s) => match spec_parse_unsigned(s@, max) {
            Some(n) => n,
            None => default,
        },
        None => default,
    }
}

/// The option values that a run accepts: every numeric option that is given
/// is a number that fits its field, a given keypair multiplier is at least
/// two, and client keys are not both written and read.
pub open spec fn args_valid(a: ArgValues) -> bool {
    &&& parses_within(a.threads, usize::MAX as nat)
    &&& parses_within(a.duration, u64::MAX as nat)
    &&& parses_within(a.tx_count, usize::MAX as nat)
    &&& parses_within(a.keypair_multiplier, usize::MAX as nat)
    &&& (a.keypair_multiplier matches Some(s) ==> spec_parse_unsigned(s@, usize::MAX as nat)->0 >= 2)
    &&& parses_within(a.thread_batch_sleep_ms, usize::MAX as nat)
    &&& !(a.write_client_keys is Some && a.read_client_keys is Some)
    &&& parses_within(a.target_lamports_per_signature, u64::MAX as nat)
    &&& parses_within(a.num_lamports_per_account, u64::MAX as nat)
    &&& parses_within(a.target_slots_per_epoch, u64::MAX as nat)
}

/// Parses an optional decimal number no larger than `max`; `None` when the
/// option is absent, `Some(None)` when it is given but not such a number.
pub fn parse_option(v: &Option<String>, max: u64) -> (r: Option<Option<u64>>)
    ensures
        v is None ==> r is None,
        v matches Some(s) ==> (r matches Some(p) && (p is None <==> spec_parse_unsigned(s@, max as nat) is None)
            && (p matches Some(n) ==> spec_parse_unsigned(s@, max as nat) == Some(n as nat))),
{
    match v {
        Some(s) => {
            let chars = chars_of(s.as_str());
            Some(parse_unsigned(&chars, max))
        },
        None => None,
    }
}

impl Config {
    /// The default configuration, run under the identity `id`: four threads,
    /// no time limit, 50 000 transactions per batch, eight keypairs per
    /// transaction, 1 s between batches, peak mode, no client key file, the
    /// default signature cost, one SOL per account and no epoch target.
    pub fn default_with_id(id: Keypair) -> (c: Config)
        ensures
            c.json_rpc_url@ == DEFAULT_JSON_RPC_URL@,
            c.websocket_url@ == Seq::<char>::empty(),
            c.id == id,
            c.threads == 4,
            c.duration_secs == u64::MAX,
            c.tx_count == 50_000,
            c.keypair_multiplier == 8,
            c.thread_batch_sleep_ms == 1000,
            !c.sustained,
            c.client_ids_and_stake_file@ == Seq::<char>::empty(),
            !c.write_to_client_file,
            !c.read_from_client_file,
            c.target_lamports_per_signature == DEFAULT_TARGET_LAMPORTS_PER_SIGNATURE,
            c.num_lamports_per_account == LAMPORTS_PER_SOL,
            c.target_slots_per_epoch == 0,
    {
        Config {
            json_rpc_url: DEFAULT_JSON_RPC_URL.to_owned(),
            websocket_url: String::new(),
            id,
            threads: 4,
            duration_secs: u64::MAX,
            tx_count: 50_000,
            keypair_multiplier: 8,
            thread_batch_sleep_ms: 1000,
            sustained: false,
            client_ids_and_stake_file: String::new(),
            write_to_client_file: false,
            read_from_client_file: false,
            target_lamports_per_signature: DEFAULT_TARGET_LAMPORTS_PER_SIGNATURE,
            num_lamports_per_account: LAMPORTS_PER_SOL,
            target_slots_per_epoch: 0,
        }
    }
}

/// Builds the run's configuration from the option values: each numeric option
/// that is given replaces its default, `sustained` is taken as given, and a
/// client key file to write or to read sets the file and its flag. The RPC
/// and websocket URLs and the identity come already resolved.
pub fn extract_args(values: &ArgValues, json_rpc_url: String, websocket_url: String, id: Keypair) -> (c: Config)
    requires
        args_valid(*values),
    ensures
        c.json_rpc_url == json_rpc_url,
        c.websocket_url == websocket_url,
        c.id == id,
        c.threads == value_or(values.threads, usize::MAX as nat, 4),
        c.duration_secs == value_or(values.duration, u64::MAX as nat, u64::MAX as nat),
        c.tx_count == value_or(values.tx_count, usize::MAX as nat, 50_000),
        c.keypair_multiplier == value_or(values.keypair_multiplier, usize::MAX as nat, 8),
        c.thread_batch_sleep_ms == value_or(values.thread_batch_sleep_ms, usize::MAX as nat, 1000),
        c.sustained == values.sustained,
        c.write_to_client_file == values.write_client_keys is Some,
        c.read_from_client_file == values.read_client_keys is Some,
        values.write_client_keys matches Some(f) ==> c.client_ids_and_stake_file == f,
        values.read_client_keys matches Some(f) ==> c.client_ids_and_stake_file == f,
        values.write_client_keys is None && values.read_client_keys is None ==> c.client_ids_and_stake_file@
            == Seq::<char>::empty(),
        c.target_lamports_per_signature == value_or(
            values.target_lamports_per_signature,
            u64::MAX as nat,
            DEFAULT_TARGET_LAMPORTS_PER_SIGNATURE as nat,
        ),
        c.num_lamports_per_account == value_or(values.num_lamports_per_account, u64::MAX as nat, LAMPORTS_PER_SOL as nat),
        c.target_slots_per_epoch == value_or(values.target_slots_per_epoch, u64::MAX as nat, 0),
        values.threads matches Some(s) ==> c.threads == spec_parse_unsigned(s@, usize::MAX as nat)->0,
        values.duration matches Some(s) ==> c.duration_secs == spec_parse_unsigned(s@, u64::MAX as nat)->0,
        values.tx_count matches Some(s) ==> c.tx_count == spec_parse_unsigned(s@, usize::MAX as nat)->0,
        values.keypair_multiplier matches Some(s) ==> c.keypair_multiplier == spec_parse_unsigned(
            s@,
            usize::MAX as nat,
        )->0,
        values.thread_batch_sleep_ms matches Some(s) ==> c.thread_batch_sleep_ms == spec_parse_unsigned(
            s@,
            usize::MAX as nat,
        )->0,
        values.target_lamports_per_signature matches Some(s) ==> c.target_lamports_per_signature
            == spec_parse_unsigned(s@, u64::MAX as nat)->0,
        values.num_lamports_per_account matches Some(s) ==> c.num_lamports_per_account == spec_parse_unsigned(
            s@,
            u64::MAX as nat,
        )->0,
        values.target_slots_per_epoch matches Some(s) ==> c.target_slots_per_epoch == spec_parse_unsigned(
            s@,
            u64::MAX as nat,
        )->0,
{
    let mut args = Config::default_with_id(id);
    args.json_rpc_url = json_rpc_url;
    args.websocket_url = websocket_url;
    let usize_max = usize::MAX as u64;
    if let Some(Some(t)) = parse_option(&values.threads, usize_max) {
        args.threads = t as usize;
    }
    if let Some(Some(d)) = parse_option(&values.duration, u64::MAX) {
        args.duration_secs = d;
    }
    if let Some(Some(n)) = parse_option(&values.tx_count, usize_max) {
        args.tx_count = n as usize;
    }
    if let Some(Some(m)) = parse_option(&values.keypair_multiplier, usize_max) {
        args.keypair_multiplier = m as usize;
    }
    if let Some(Some(t)) = parse_option(&values.thread_batch_sleep_ms, usize_max) {
        args.thread_batch_sleep_ms = t as usize;
    }
    args.sustained = values.sustained;
    if let Some(s) = &values.write_client_keys {
        args.write_to_client_file = true;
        args.client_ids_and_stake_file = s.clone();
    }
    if let Some(s) = &values.read_client_keys {
        args.read_from_client_file = true;
        args.client_ids_and_stake_file = s.clone();
    }
    if let Some(Some(v)) = parse_option(&values.target_lamports_per_signature, u64::MAX) {
        args.target_lamports_per_signature = v;
    }
    if let Some(Some(v)) = parse_option(&values.num_lamports_per_account, u64::MAX) {
        args.num_lamports_per_account = v;
    }
    if let Some(Some(t)) = parse_option(&values.target_slots_per_epoch, u64::MAX) {
        args.target_slots_per_epoch = t;
    }
    args
}

/// The number of keypairs a run needs: transactions per batch times keypairs
/// per transaction.
pub fn keypair_count(config: &Config) -> (r: usize)
    requires
        config.tx_count * config.keypair_multiplier <= usize::MAX,
    ensures
        r == config.tx_count * config.keypair_multiplier,
{
    config.tx_count * config.keypair_multiplier
}

/// Lamports to give each of `num_accounts` accounts: its share of the fees of
/// `NUM_SIGNATURES_FOR_TXS` signatures at `max_fee` each, rounded up, plus
/// `num_lamports_per_account`.
pub fn funded_lamports_per_account(num_accounts: u64, max_fee: u64, num_lamports_per_account: u64) -> (r: u64)
    requires
        num_accounts >= 1,
        num_accounts - 1 + NUM_SIGNATURES_FOR_TXS * max_fee <= u64::MAX,
        (num_accounts - 1 + NUM_SIGNATURES_FOR_TXS * max_fee) / (num_accounts as int) + num_lamports_per_account
            <= u64::MAX,
    ensures
        r == (num_accounts - 1 + NUM_SIGNATURES_FOR_TXS * max_fee) / (num_accounts as int) + num_lamports_per_account,
{
    (num_accounts - 1 + NUM_SIGNATURES_FOR_TXS * max_fee) / num_accounts + num_lamports_per_account
}

/// The fee share given to each account covers the fees of all signatures:
/// the accounts together hold at least `NUM_SIGNATURES_FOR_TXS * max_fee`
/// beyond their base amount, and less than one lamport per account more.
pub proof fn law_fee_share_covers_fees(num_accounts: nat, max_fee: nat)
    requires
        num_accounts >= 1,
    ensures
        ({
            let total = NUM_SIGNATURES_FOR_TXS * max_fee;
            let share = (num_accounts - 1 + total) / (num_accounts as int);
            &&& share * num_accounts >= total
            &&& share * num_accounts < total + num_accounts
        }),
{
    let total = NUM_SIGNATURES_FOR_TXS * max_fee;
    let n = num_accounts as int;
    let x = n - 1 + total;
    let share = x / n;
    vstd::arithmetic::div_mod::lemma_fundamental_div_mod(x, n);
    vstd::arithmetic::mul::lemma_mul_is_commutative(share, n);
    assert(0 <= x % n < n);
}

/// A given option that parses to `n` sets its field to `n`, whatever `n` is
/// (zero included); an absent option leaves the default.
pub proof fn law_given_option_wins(v: Option<String>, max: nat, default: nat)
    ensures
        v matches Some(s) ==> (spec_parse_unsigned(s@, max) matches Some(n) ==> value_or(v, max, default) == n),
        v is None ==> value_or(v, max, default) == default,
{
}

} // verus!
