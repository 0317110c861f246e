use kamichain::bridge::{
    admin_authorized, admit_demo_request, check_demo_balance, demo_affordable, demo_recipient_address, demo_transfer, on_event, retry_after,
    starting_line, stderr_line, DemoLedger, NodeConfig as BridgeConfig, NodeEvent, RecentLines, SupervisorAction,
    RECENT_LOG_CAPACITY,
};
use kamichain::config::NodeConfig;
use kamichain::Wallet;

fn bridge_config(difficulty: &str, miner: &str) -> BridgeConfig {
    BridgeConfig {
        node_bin_path: "./node".to_string(),
        rpc_addr: "127.0.0.1:9332".to_string(),
        bind_addr: "127.0.0.1:9333".to_string(),
        difficulty: difficulty.to_string(),
        data_dir: "/tmp/bridge".to_string(),
        miner_address: miner.to_string(),
    }
}

#[test]
fn node_args_list_every_flag_in_order() {
    let args = bridge_config("3", "abc").node_args();
    assert_eq!(
        args,
        vec![
            "--rpc", "127.0.0.1:9332", "--bind", "127.0.0.1:9333", "--difficulty", "3",
            "--data-dir", "/tmp/bridge", "--miner", "abc"
        ]
    );
}

#[test]
fn node_reads_back_bridge_settings() {
    let mut full = vec!["node".to_string()];
    full.extend(bridge_config("3", "abc").node_args());
    let cfg = NodeConfig::from_slice(&full).unwrap();
    assert_eq!(cfg.rpc_addr, "127.0.0.1:9332");
    assert_eq!(cfg.bind_addr, "127.0.0.1:9333");
    assert_eq!(cfg.difficulty, 3);
    assert_eq!(cfg.data_dir, "/tmp/bridge");
    assert_eq!(cfg.miner_addr, "abc");
    assert!(cfg.peer.is_none());
}

#[test]
fn node_refuses_bad_bridge_difficulty() {
    let mut full = vec!["node".to_string()];
    full.extend(bridge_config("zero", "abc").node_args());
    assert!(NodeConfig::from_slice(&full).is_err());
}

#[test]
fn recent_lines_keep_newest_within_capacity() {
    let mut r = RecentLines::new();
    assert!(r.lines().is_empty());
    for i in 0..(RECENT_LOG_CAPACITY + 5) {
        r.push(format!("line {}", i));
    }
    let lines = r.lines();
    assert_eq!(lines.len(), RECENT_LOG_CAPACITY);
    assert_eq!(lines[0], "line 5");
    assert_eq!(lines[RECENT_LOG_CAPACITY - 1], format!("line {}", RECENT_LOG_CAPACITY + 4));
}

#[test]
fn retry_after_counts_whole_seconds_left() {
    assert_eq!(retry_after(None, 60), None);
    assert_eq!(retry_after(Some(0), 60), Some(60));
    assert_eq!(retry_after(Some(1_500_000_000), 60), Some(58));
    assert_eq!(retry_after(Some(59_999_999_999), 60), Some(0));
    assert_eq!(retry_after(Some(60_000_000_000), 60), None);
    assert_eq!(retry_after(Some(5), 0), None);
}

#[test]
fn demo_affordable_needs_amount_and_fee() {
    assert!(!demo_affordable(0));
    assert!(!demo_affordable(1));
    assert!(demo_affordable(2));
}

#[test]
fn demo_recipient_is_digest_of_label() {
    let a = demo_recipient_address();
    assert_eq!(a, kamichain::codec::sha256_hex(b"kamichain-demo-faucet-sink"));
    assert_eq!(a.len(), 64);
}

#[test]
fn demo_transfer_is_signed_by_wallet() {
    let w = Wallet::new();
    let to = demo_recipient_address();
    let tx = demo_transfer(&w, &to);
    assert_eq!(tx.amount, 1);
    assert_eq!(tx.fee, 1);
    assert_eq!(tx.recipient, to);
    assert!(Wallet::verify_transaction(&tx, &w.public_key_hex()).unwrap());
}

#[test]
fn admin_token_must_be_sent_as_bearer() {
    assert!(admin_authorized(Some("Bearer s3cret"), "s3cret"));
    assert!(!admin_authorized(Some("Bearer s3cre"), "s3cret"));
    assert!(!admin_authorized(Some("s3cret"), "s3cret"));
    assert!(!admin_authorized(Some("bearer s3cret"), "s3cret"));
    assert!(!admin_authorized(None, "s3cret"));
}

#[test]
fn supervisor_decides_on_each_event() {
    let cfg = bridge_config("5", "m");
    assert_eq!(starting_line(&cfg), "[bridge] starting kamichain-node (difficulty=5)");
    let (line, action) = on_event(&NodeEvent::SpawnFailed { error: "no such file".to_string() });
    assert_eq!(line, "[bridge] failed to spawn kamichain-node: no such file");
    assert_eq!(action, SupervisorAction::RetryAfterSecs(5));
    let (line, action) = on_event(&NodeEvent::Exited { status: "Ok(1)".to_string() });
    assert_eq!(line, "[bridge] kamichain-node exited unexpectedly: Ok(1) — restarting");
    assert_eq!(action, SupervisorAction::Restart);
    let (line, action) = on_event(&NodeEvent::ResetRequested);
    assert_eq!(line, "[bridge] reset requested — restarting with a fresh chain");
    assert_eq!(action, SupervisorAction::KillAndRestart);
    let (line, action) = on_event(&NodeEvent::WipeFailed { error: "denied".to_string() });
    assert_eq!(line, "[bridge] warning: failed to wipe data dir: denied");
    assert_eq!(action, SupervisorAction::Proceed);
    assert_eq!(stderr_line("boom"), "[stderr] boom");
}

#[test]
fn rate_limit_message_names_the_wait() {
    assert_eq!(kamichain::bridge::rate_limited_message(17), "rate limited — try again in 17s");
}

#[test]
fn demo_requests_are_rate_limited_per_client() {
    let mut ledger = DemoLedger::new();
    let sec: u128 = 1_000_000_000;
    assert_eq!(admit_demo_request(&mut ledger, "1.2.3.4", 5 * sec, 20), Ok(()));
    assert_eq!(ledger.last_seen("1.2.3.4"), Some(5 * sec));
    assert_eq!(admit_demo_request(&mut ledger, "1.2.3.4", 10 * sec + 1, 20), Err(14));
    assert_eq!(ledger.last_seen("1.2.3.4"), Some(5 * sec));
    assert_eq!(admit_demo_request(&mut ledger, "5.6.7.8", 10 * sec, 20), Ok(()));
    assert_eq!(admit_demo_request(&mut ledger, "1.2.3.4", 25 * sec, 20), Ok(()));
    assert_eq!(ledger.last_seen("1.2.3.4"), Some(25 * sec));
    assert_eq!(ledger.last_seen("9.9.9.9"), None);
}

#[test]
fn demo_balance_check_names_the_reason() {
    assert_eq!(check_demo_balance(2), Ok(()));
    assert_eq!(
        check_demo_balance(1),
        Err("the demo wallet hasn't mined enough coins yet — try again shortly".to_string())
    );
}
