use kamichain::cli::{ChainCmd, NodeCmd, TxCmd, WalletCmd};

#[test]
fn chain_block_request_carries_index() {
    let r = ChainCmd::Block { index: 7, node: "127.0.0.1:8332".to_string() }.request();
    assert_eq!(r.method, "chain_block");
    assert_eq!(r.node, "127.0.0.1:8332");
    assert_eq!(r.params.index, Some(7));
}

#[test]
fn chain_info_and_validate_requests() {
    let info = ChainCmd::Info { node: "n".to_string() }.request();
    assert_eq!(info.method, "chain_info");
    assert!(info.params.index.is_none());
    let v = ChainCmd::Validate { node: "n".to_string() }.request();
    assert_eq!(v.method, "chain_validate");
}

#[test]
fn node_start_config_copies_flags() {
    let cmd = NodeCmd::Start {
        bind: "b".to_string(),
        rpc: "r".to_string(),
        difficulty: 5,
        data_dir: "d".to_string(),
        miner: "m".to_string(),
        peer: Some("p".to_string()),
    };
    let cfg = cmd.config();
    assert_eq!(cfg.bind_addr, "b");
    assert_eq!(cfg.rpc_addr, "r");
    assert_eq!(cfg.difficulty, 5);
    assert_eq!(cfg.data_dir, "d");
    assert_eq!(cfg.miner_addr, "m");
    assert_eq!(cfg.peer, Some("p".to_string()));
}

#[test]
fn tx_and_wallet_lookups() {
    let get = TxCmd::Get { id: "abc".to_string(), node: "n".to_string() }.lookup().unwrap();
    assert_eq!(get.method, "tx_get");
    assert_eq!(get.params.id, Some("abc".to_string()));
    let send = TxCmd::Send {
        keyfile: "k".to_string(),
        to: "t".to_string(),
        amount: 1,
        fee: 0,
        node: "n".to_string(),
    };
    assert!(send.lookup().is_none());
    let bal = WalletCmd::Balance { address: "a".to_string(), node: "n".to_string() }.lookup().unwrap();
    assert_eq!(bal.method, "wallet_balance");
    assert_eq!(bal.params.address, Some("a".to_string()));
    assert!(WalletCmd::New { keyfile: "k".to_string() }.lookup().is_none());
}
