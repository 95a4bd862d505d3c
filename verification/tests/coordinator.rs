use mining_core::config::{parse_u64, MiningKeyConfig};
use mining_core::dispatch::{
    attempt_result, mined_poke, startup_plan, DispatcherState, KeySetupState, RetryAction, Worker,
};
use mining_core::pool::{warm_target, KernelLease, KernelPool, POOL_MAX};
use mining_core::stats::{due_milestones, MiningMilestone, MiningStats, SimpleMiningStats};
use mining_core::wire::{
    enable_mining_poke, find_command_effect, mine_candidate, set_mining_key_advanced_poke,
    set_mining_key_poke, MiningWire, Noun,
};

fn num(n: u64) -> Noun {
    Noun::Num(n)
}

fn text(s: &str) -> Noun {
    Noun::text(s)
}

fn cell(head: Noun, tail: Noun) -> Noun {
    Noun::cell(head, tail)
}

fn poke3(verb: &str, payload: Noun) -> Noun {
    cell(text("command"), cell(text(verb), payload))
}

fn config(share: u64, m: u64, keys: &[&str]) -> MiningKeyConfig {
    MiningKeyConfig {
        share,
        m,
        keys: keys.iter().map(|k| k.to_string()).collect(),
    }
}

#[test]
fn wire_verbs() {
    assert_eq!(MiningWire::Mined.verb(), "mined");
    assert_eq!(MiningWire::Candidate.verb(), "candidate");
    assert_eq!(MiningWire::SetPubKey.verb(), "setpubkey");
    assert_eq!(MiningWire::Enable.verb(), "enable");
}

#[test]
fn wire_headers_carry_source_version_and_tag() {
    let (source, version, tags) = MiningWire::Mined.to_wire();
    assert_eq!(source, "miner");
    assert_eq!(version, 1);
    assert_eq!(tags, vec!["mined".to_string()]);
    let (_, _, tags) = MiningWire::Enable.to_wire();
    assert_eq!(tags, vec!["enable".to_string()]);
}

#[test]
fn enable_mining_sense_is_inverted() {
    let on = enable_mining_poke(true);
    let off = enable_mining_poke(false);
    assert!(on.same(&poke3("enable-mining", num(0))));
    assert!(off.same(&poke3("enable-mining", num(1))));
}

#[test]
fn set_mining_key_carries_the_key() {
    let poke = set_mining_key_poke("KEY_A");
    assert!(poke.same(&poke3("set-mining-key", text("KEY_A"))));
}

#[test]
fn advanced_key_list_is_reversed_on_the_wire() {
    // Two entries: the first ends up deepest in the nil-terminated list,
    // and each key list is likewise built by prepending.
    let configs = vec![config(2, 3, &["K1", "K2"]), config(1, 1, &["K3"])];
    let poke = set_mining_key_advanced_poke(&configs);

    let keys1 = cell(text("K2"), cell(text("K1"), num(0)));
    let triple1 = cell(num(2), cell(num(3), keys1));
    let keys2 = cell(text("K3"), num(0));
    let triple2 = cell(num(1), cell(num(1), keys2));
    let list = cell(triple2, cell(triple1, num(0)));
    assert!(poke.same(&poke3("set-mining-key-advanced", list)));
}

#[test]
fn parse_simple_config() {
    let cfg = MiningKeyConfig::from_str("1,1:KEY_A").unwrap();
    assert_eq!(cfg.share, 1);
    assert_eq!(cfg.m, 1);
    assert_eq!(cfg.keys, vec!["KEY_A".to_string()]);
}

#[test]
fn parse_multi_key_config() {
    let cfg = MiningKeyConfig::from_str("2,3:K1,K2").unwrap();
    assert_eq!(cfg.share, 2);
    assert_eq!(cfg.m, 3);
    assert_eq!(cfg.keys, vec!["K1".to_string(), "K2".to_string()]);
}

#[test]
fn parse_keeps_empty_keys() {
    let cfg = MiningKeyConfig::from_str("10,20:").unwrap();
    assert_eq!(cfg.share, 10);
    assert_eq!(cfg.m, 20);
    assert_eq!(cfg.keys, vec![String::new()]);

    let cfg = MiningKeyConfig::from_str("1,2:a,,c").unwrap();
    assert_eq!(cfg.keys, vec!["a".to_string(), String::new(), "c".to_string()]);
}

#[test]
fn parse_rejects_wrong_shapes() {
    assert_eq!(
        MiningKeyConfig::from_str("no-colon-here").unwrap_err(),
        "Invalid format. Expected 'share,m:key1,key2,key3'"
    );
    assert_eq!(
        MiningKeyConfig::from_str("1,1:a:b").unwrap_err(),
        "Invalid format. Expected 'share,m:key1,key2,key3'"
    );
    assert_eq!(
        MiningKeyConfig::from_str("1:KEY").unwrap_err(),
        "Invalid share,m format"
    );
    assert_eq!(
        MiningKeyConfig::from_str("1,2,3:KEY").unwrap_err(),
        "Invalid share,m format"
    );
}

#[test]
fn parse_rejects_bad_numbers() {
    assert_eq!(
        MiningKeyConfig::from_str("x,1:K").unwrap_err(),
        "invalid digit found in string"
    );
    assert_eq!(
        MiningKeyConfig::from_str(",1:K").unwrap_err(),
        "cannot parse integer from empty string"
    );
    assert_eq!(
        MiningKeyConfig::from_str("1,99999999999999999999:K").unwrap_err(),
        "number too large to fit in target type"
    );
}

#[test]
fn parse_u64_bounds() {
    assert_eq!(parse_u64("0").unwrap(), 0);
    assert_eq!(parse_u64("18446744069414584321").unwrap(), 18446744069414584321);
    assert_eq!(parse_u64("18446744073709551615").unwrap(), u64::MAX);
    assert_eq!(
        parse_u64("18446744073709551616").unwrap_err(),
        "number too large to fit in target type"
    );
}

#[test]
fn startup_without_config_only_disables_mining() {
    // Expected: a single enable-mining poke with the disable flag, no
    // workers, no main loop.
    let plan = startup_plan(&None, false, 4);
    assert_eq!(plan.pokes.len(), 1);
    assert!(matches!(plan.pokes[0].wire, MiningWire::Enable));
    assert!(plan.pokes[0].payload.same(&poke3("enable-mining", num(1))));
    assert_eq!(plan.workers, 0);
    assert!(!plan.enter_loop);
}

#[test]
fn startup_with_simple_config_sets_the_single_key() {
    // Expected pokes in order: set-mining-key("KEY_A"), enable-mining(0);
    // then the driver enters the main loop.
    let cfgs = vec![config(1, 1, &["KEY_A"])];
    let plan = startup_plan(&Some(cfgs), true, 4);
    assert_eq!(plan.pokes.len(), 2);
    assert!(matches!(plan.pokes[0].wire, MiningWire::SetPubKey));
    assert!(plan.pokes[0].payload.same(&poke3("set-mining-key", text("KEY_A"))));
    assert!(matches!(plan.pokes[1].wire, MiningWire::Enable));
    assert!(plan.pokes[1].payload.same(&poke3("enable-mining", num(0))));
    assert_eq!(plan.workers, 4);
    assert!(plan.enter_loop);
}

#[test]
fn startup_with_two_configs_uses_the_advanced_poke() {
    // Expected: set-mining-key-advanced with both triples, the first config
    // deepest in the encoded list, then enable-mining(0).
    let cfgs = vec![config(2, 3, &["K1", "K2"]), config(1, 1, &["K3"])];
    let expected = set_mining_key_advanced_poke(&cfgs);
    let plan = startup_plan(&Some(cfgs), true, 16);
    assert_eq!(plan.pokes.len(), 2);
    assert!(matches!(plan.pokes[0].wire, MiningWire::SetPubKey));
    assert!(plan.pokes[0].payload.same(&expected));
    assert!(matches!(plan.pokes[1].wire, MiningWire::Enable));
    assert!(plan.pokes[1].payload.same(&poke3("enable-mining", num(0))));
    assert_eq!(plan.workers, 8);
    assert!(plan.enter_loop);
}

#[test]
fn startup_with_mining_off_spawns_no_workers() {
    let cfgs = vec![config(1, 1, &["KEY_A"])];
    let plan = startup_plan(&Some(cfgs), false, 4);
    assert_eq!(plan.workers, 0);
    assert!(!plan.enter_loop);
    assert!(plan.pokes[1].payload.same(&poke3("enable-mining", num(1))));
}

#[test]
fn four_candidates_round_robin_over_two_workers() {
    // Four mine effects, two workers: targets 0, 1, 0, 1, and one mined
    // poke per command effect relayed unchanged.
    let mut dispatcher = DispatcherState::new(2);
    let mut targets = Vec::new();
    let mut pokes = Vec::new();
    for i in 0..4u64 {
        let effect = cell(text("mine"), num(100 + i));
        let (worker, candidate) = dispatcher.on_effect(&effect).unwrap();
        targets.push(worker);
        assert!(candidate.same(&num(100 + i)));
        // the kernel answers with one command effect per submission
        let effects = vec![cell(text("command"), candidate)];
        let result = attempt_result(Some(&effects)).unwrap();
        let poke = mined_poke(result);
        assert!(matches!(poke.wire, MiningWire::Mined));
        pokes.push(poke);
    }
    assert_eq!(targets, vec![0, 1, 0, 1]);
    assert_eq!(pokes.len(), 4);
    for (i, poke) in pokes.iter().enumerate() {
        assert!(poke.payload.same(&cell(text("command"), num(100 + i as u64))));
    }
}

#[test]
fn non_mine_effects_are_ignored() {
    let mut dispatcher = DispatcherState::new(3);
    assert!(dispatcher.on_effect(&text("tick")).is_none());
    assert!(dispatcher.on_effect(&cell(text("other"), num(1))).is_none());
    assert_eq!(dispatcher.cursor, 0);
    let (worker, _) = dispatcher.on_effect(&cell(text("mine"), num(7))).unwrap();
    assert_eq!(worker, 0);
    assert_eq!(dispatcher.cursor, 1);
}

#[test]
fn key_setup_retries_twice_then_succeeds() {
    // Two failures then a success: three attempts, five seconds between
    // them, and the setup still completes.
    let mut setup = KeySetupState::new();
    assert_eq!(setup.on_attempt(false), RetryAction::Backoff(5));
    assert_eq!(setup.on_attempt(false), RetryAction::Backoff(5));
    assert_eq!(setup.on_attempt(true), RetryAction::Proceed);
    assert_eq!(setup.attempts, 3);
    assert!(setup.done);
}

#[test]
fn key_setup_gives_up_after_three_failures() {
    let mut setup = KeySetupState::new();
    assert_eq!(setup.on_attempt(false), RetryAction::Backoff(5));
    assert_eq!(setup.on_attempt(false), RetryAction::Backoff(5));
    assert_eq!(setup.on_attempt(false), RetryAction::Abandon);
    assert!(!setup.done);
}

#[test]
fn failed_kernel_construction_counts_a_failed_attempt() {
    // The pool is empty, constructing a kernel fails, so the attempt yields
    // no result and the failure counter moves; the driver carries on.
    let mut pool = KernelPool::new();
    assert!(pool.lease().is_none());
    let result = attempt_result(None);
    assert!(result.is_none());

    let mut stats = MiningStats::new(2, 0);
    stats.record_attempt(0, 250, false, 1000);
    assert_eq!(stats.total_attempts, 1);
    assert_eq!(stats.failed_attempts, 1);
    assert_eq!(stats.successful_blocks, 0);
    assert!(stats.last_block_time.is_none());
}

#[test]
fn pool_is_fifo_and_bounded() {
    let mut pool = KernelPool::new();
    for i in 0..10u64 {
        let lease = KernelLease { kernel_id: i, scratch_id: i };
        pool.register(&lease);
        let kept = pool.release(lease);
        // the ninth and tenth idle leases are dropped
        assert_eq!(kept, i < POOL_MAX as u64);
    }
    assert_eq!(pool.idle_len(), POOL_MAX);
    let first = pool.lease().unwrap();
    assert_eq!(first.kernel_id, 0);
    let second = pool.lease().unwrap();
    assert_eq!(second.kernel_id, 1);
    assert_eq!(pool.idle_len(), POOL_MAX - 2);
}

#[test]
fn warm_target_is_twice_cores_capped() {
    assert_eq!(warm_target(1), 2);
    assert_eq!(warm_target(3), 6);
    assert_eq!(warm_target(4), 8);
    assert_eq!(warm_target(64), 8);
}

#[test]
fn worker_holds_at_most_one_lease() {
    let mut worker = Worker::new(3);
    assert_eq!(worker.id(), 3);
    worker.take_lease(KernelLease { kernel_id: 1, scratch_id: 1 });
    let back = worker.give_back().unwrap();
    assert_eq!(back.kernel_id, 1);
    assert!(worker.give_back().is_none());
    worker.take_lease(KernelLease { kernel_id: 2, scratch_id: 2 });
    let again = worker.give_back().unwrap();
    assert_eq!(again.kernel_id, 2);
}

#[test]
fn command_scan_takes_the_first_match_only() {
    let effects = vec![
        cell(text("log"), num(1)),
        cell(text("command"), num(42)),
        cell(text("command"), num(43)),
        num(7),
    ];
    let found = find_command_effect(&effects).unwrap();
    assert!(found.same(&cell(text("command"), num(42))));

    let none = vec![cell(text("log"), num(1)), num(7)];
    assert!(find_command_effect(&none).is_none());
    assert!(find_command_effect(&Vec::new()).is_none());
}

#[test]
fn mine_candidate_reads_the_tail() {
    let effect = cell(text("mine"), cell(num(1), num(2)));
    let candidate = mine_candidate(&effect).unwrap();
    assert!(candidate.same(&cell(num(1), num(2))));

    assert!(mine_candidate(&cell(text("fact"), num(1))).is_none());
    assert!(mine_candidate(&num(5)).is_none());
}

#[test]
fn simple_stats_count_attempts_and_successes() {
    let mut stats = SimpleMiningStats::new(17);
    assert_eq!(stats.start_time, 17);
    stats.record_attempt();
    stats.record_attempt();
    stats.record_success();
    assert_eq!(stats.total_attempts, 2);
    assert_eq!(stats.successful_blocks, 1);
}

#[test]
fn stats_running_mean_is_exact() {
    let mut stats = MiningStats::new(1, 0);
    stats.record_attempt(0, 100, false, 10);
    stats.record_attempt(0, 200, true, 20);
    assert_eq!(stats.average_attempt_time, 150);
    assert_eq!(stats.worker_stats[0].average_time_per_attempt, 150);
    assert_eq!(stats.worker_stats[0].attempts, 2);
    assert_eq!(stats.worker_stats[0].successes, 1);
    assert_eq!(stats.worker_stats[0].last_attempt_time, Some(20));
    assert_eq!(stats.last_block_time, Some(20));
    assert_eq!(stats.successful_blocks, 1);
    assert_eq!(stats.failed_attempts, 1);
}

#[test]
fn milestones_fire_on_their_multiples() {
    assert_eq!(due_milestones(0, 0, 0), Vec::<MiningMilestone>::new());
    assert_eq!(
        due_milestones(1000, 1, 0),
        vec![MiningMilestone::FirstBlock, MiningMilestone::AttemptCount(1000)]
    );
    assert_eq!(
        due_milestones(5, 10, 2),
        vec![MiningMilestone::BlockCount(10), MiningMilestone::UptimeHours(2)]
    );
    assert_eq!(due_milestones(999, 3, 0), Vec::<MiningMilestone>::new());
}
