//! The demo bridge's own rules: the arguments it starts a node with, the
//! recent log lines it keeps, and the small transfers it hands out.
use crate::codec::{digest_hex, push_utf8, sha256_hex};
use crate::config::{config_from_args, parsed_usize, ConfigView};
use crate::transaction::{transaction_id, Transaction, TxType};
use crate::wallet::{ed25519_signature, signing_message, Wallet};
use vstd::prelude::*;
use vstd::string::StringExecFns;

verus! {

/// How many log lines the bridge keeps for late readers.
pub const RECENT_LOG_CAPACITY: usize = 300;

/// The amount of each demo transfer.
pub const DEMO_AMOUNT: u64 = 1;

/// The fee of each demo transfer.
pub const DEMO_FEE: u64 = 1;

/// How the bridge starts its node.
#[derive(Clone)]
pub struct NodeConfig {
    pub node_bin_path: String,
    pub rpc_addr: String,
    pub bind_addr: String,
    pub difficulty: String,
    pub data_dir: String,
    pub miner_address: String,
}

/// The arguments the bridge passes to the node for these settings.
pub open spec fn node_arg_texts(rpc: Seq<char>, bind: Seq<char>, difficulty: Seq<char>, data_dir: Seq<char>, miner: Seq<char>) -> Seq<Seq<char>> {
    seq![
        "--rpc"@,
        rpc,
        "--bind"@,
        bind,
        "--difficulty"@,
        difficulty,
        "--data-dir"@,
        data_dir,
        "--miner"@,
        miner,
    ]
}

impl NodeConfig {
    /// The node's command-line arguments, flag by flag.
    pub fn node_args(&self) -> (args: Vec<String>)
        ensures
            crate::config::arg_texts(args@) == node_arg_texts(
                self.rpc_addr@,
                self.bind_addr@,
                self.difficulty@,
                self.data_dir@,
                self.miner_address@,
            ),
    {
        let mut args: Vec<String> = Vec::new();
        args.push(String::from_str("--rpc"));
        args.push(self.rpc_addr.clone());
        args.push(String::from_str("--bind"));
        args.push(self.bind_addr.clone());
        args.push(String::from_str("--difficulty"));
        args.push(self.difficulty.clone());
        args.push(String::from_str("--data-dir"));
        args.push(self.data_dir.clone());
        args.push(String::from_str("--miner"));
        args.push(self.miner_address.clone());
        assert(crate::config::arg_texts(args@) =~= node_arg_texts(
            self.rpc_addr@,
            self.bind_addr@,
            self.difficulty@,
            self.data_dir@,
            self.miner_address@,
        ));
        args
    }
}

/// The flag names differ from one another.
proof fn lemma_flags_differ()
    ensures
        "--rpc"@ != "--bind"@,
        "--rpc"@ != "--difficulty"@,
        "--rpc"@ != "--data-dir"@,
        "--rpc"@ != "--miner"@,
        "--rpc"@ != "--peer"@,
        "--bind"@ != "--difficulty"@,
        "--bind"@ != "--data-dir"@,
        "--bind"@ != "--miner"@,
        "--bind"@ != "--peer"@,
        "--difficulty"@ != "--data-dir"@,
        "--difficulty"@ != "--miner"@,
        "--difficulty"@ != "--peer"@,
        "--data-dir"@ != "--miner"@,
        "--data-dir"@ != "--peer"@,
        "--miner"@ != "--peer"@,
{
    reveal_strlit("--rpc");
    reveal_strlit("--bind");
    reveal_strlit("--difficulty");
    reveal_strlit("--data-dir");
    reveal_strlit("--miner");
    reveal_strlit("--peer");
    assert("--rpc"@.len() == 5);
    assert("--bind"@.len() == 6);
    assert("--difficulty"@.len() == 12);
    assert("--data-dir"@.len() == 10);
    assert("--miner"@.len() == 7);
    assert("--peer"@.len() == 6);
    assert("--bind"@[2] != "--peer"@[2]);
}

/// The node reads back the settings the bridge starts it with: the bind and
/// RPC addresses, the difficulty, the data directory and the miner address,
/// with no peer. This holds whenever the difficulty text is a positive
/// number and the miner address is not empty; otherwise the node refuses
/// to start.
pub proof fn lemma_node_reads_bridge_settings(
    program: Seq<char>,
    rpc: Seq<char>,
    bind: Seq<char>,
    difficulty: Seq<char>,
    data_dir: Seq<char>,
    miner: Seq<char>,
)
    requires
        parsed_usize(difficulty) matches Some(d) && d > 0,
        miner.len() > 0,
    ensures
        config_from_args(seq![program] + node_arg_texts(rpc, bind, difficulty, data_dir, miner))
            == Ok::<ConfigView, Seq<char>>(
            ConfigView {
                bind_addr: bind,
                rpc_addr: rpc,
                difficulty: parsed_usize(difficulty)->0,
                data_dir: data_dir,
                miner_addr: miner,
                peer: None,
            },
        ),
{
    lemma_flags_differ();
    let args = seq![program] + node_arg_texts(rpc, bind, difficulty, data_dir, miner);
    assert(args[1] == "--rpc"@);
    assert(args[2] == rpc);
    assert(args[3] == "--bind"@);
    assert(args[4] == bind);
    assert(args[5] == "--difficulty"@);
    assert(args[6] == difficulty);
    assert(args[7] == "--data-dir"@);
    assert(args[8] == data_dir);
    assert(args[9] == "--miner"@);
    assert(args[10] == miner);
    assert(args.len() == 11);
    let c0 = crate::config::default_view();
    let c1 = ConfigView { rpc_addr: rpc, ..c0 };
    let c2 = ConfigView { bind_addr: bind, ..c1 };
    let c3 = ConfigView { difficulty: parsed_usize(difficulty)->0, ..c2 };
    let c4 = ConfigView { data_dir: data_dir, ..c3 };
    let c5 = ConfigView { miner_addr: miner, ..c4 };
    assert(crate::config::parse_from(args, 11, c5) == Ok::<ConfigView, Seq<char>>(c5));
    assert(crate::config::parse_from(args, 9, c4) == crate::config::parse_from(args, 11, c5));
    assert(crate::config::parse_from(args, 7, c3) == crate::config::parse_from(args, 9, c4));
    assert(crate::config::parse_from(args, 5, c2) == crate::config::parse_from(args, 7, c3));
    assert(crate::config::parse_from(args, 3, c1) == crate::config::parse_from(args, 5, c2));
    assert(crate::config::parse_from(args, 1, c0) == crate::config::parse_from(args, 3, c1));
}

/// What happens to the supervised node process.
pub enum NodeEvent {
    /// The data directory could not be wiped, for a reason other than its absence.
    WipeFailed { error: String },
    /// The node process could not be started.
    SpawnFailed { error: String },
    /// The node process ended on its own; `status` describes how.
    Exited { status: String },
    /// A reset was asked for while the node ran.
    ResetRequested,
}

/// What the supervisor does after an event.
#[derive(Clone, Copy, Debug, PartialEq, Eq, Structural)]
pub enum SupervisorAction {
    /// Go on starting the node.
    Proceed,
    /// Wait this many seconds, then start over.
    RetryAfterSecs(u64),
    /// Start over at once.
    Restart,
    /// Stop the running node, then start over.
    KillAndRestart,
}

/// The log line the supervisor writes for an event, and what it does next.
pub open spec fn event_outcome(event: NodeEvent) -> (Seq<char>, SupervisorAction) {
    match event {
        NodeEvent::WipeFailed { error } => (
            "[bridge] warning: failed to wipe data dir: "@ + error@,
            SupervisorAction::Proceed,
        ),
        NodeEvent::SpawnFailed { error } => (
            "[bridge] failed to spawn kamichain-node: "@ + error@,
            SupervisorAction::RetryAfterSecs(5),
        ),
        NodeEvent::Exited { status } => (
            "[bridge] kamichain-node exited unexpectedly: "@ + status@ + " — restarting"@,
            SupervisorAction::Restart,
        ),
        NodeEvent::ResetRequested => (
            "[bridge] reset requested — restarting with a fresh chain"@,
            SupervisorAction::KillAndRestart,
        ),
    }
}

/// The line the supervisor logs each time it starts the node.
pub fn starting_line(cfg: &NodeConfig) -> (line: String)
    ensures
        line@ == "[bridge] starting kamichain-node (difficulty="@ + cfg.difficulty@ + ")"@,
{
    let mut line = String::from_str("[bridge] starting kamichain-node (difficulty=");
    line.append(cfg.difficulty.as_str());
    line.append(")");
    line
}

/// How a line the node wrote to its error stream appears in the log.
pub fn stderr_line(line: &str) -> (r: String)
    ensures
        r@ == "[stderr] "@ + line@,
{
    let mut r = String::from_str("[stderr] ");
    r.append(line);
    r
}

/// Decides what the supervisor logs and does after an event.
pub fn on_event(event: &NodeEvent) -> (r: (String, SupervisorAction))
    ensures
        r.0@ == event_outcome(*event).0,
        r.1 == event_outcome(*event).1,
{
    match event {
        NodeEvent::WipeFailed { error } => {
            let mut line = String::from_str("[bridge] warning: failed to wipe data dir: ");
            line.append(error.as_str());
            (line, SupervisorAction::Proceed)
        },
        NodeEvent::SpawnFailed { error } => {
            let mut line = String::from_str("[bridge] failed to spawn kamichain-node: ");
            line.append(error.as_str());
            (line, SupervisorAction::RetryAfterSecs(5))
        },
        NodeEvent::Exited { status } => {
            let mut line = String::from_str("[bridge] kamichain-node exited unexpectedly: ");
            line.append(status.as_str());
            line.append(" — restarting");
            (line, SupervisorAction::Restart)
        },
        NodeEvent::ResetRequested => (
            String::from_str("[bridge] reset requested — restarting with a fresh chain"),
            SupervisorAction::KillAndRestart,
        ),
    }
}

/// The newest log lines, at most `RECENT_LOG_CAPACITY` of them, oldest first.
pub struct RecentLines {
    lines: Vec<String>,
}

impl View for RecentLines {
    type V = Seq<Seq<char>>;

    closed spec fn view(&self) -> Seq<Seq<char>> {
        crate::merkle::texts(self.lines@)
    }
}

impl RecentLines {
    #[verifier::type_invariant]
    spec fn bounded(self) -> bool {
        self.lines@.len() <= RECENT_LOG_CAPACITY
    }

    /// No lines yet.
    pub fn new() -> (r: RecentLines)
        ensures
            r@ == Seq::<Seq<char>>::empty(),
    {
        let r = RecentLines { lines: Vec::new() };
        assert(r@ =~= Seq::<Seq<char>>::empty());
        r
    }

    /// Keeps `line` as the newest line, dropping the oldest one when the
    /// buffer is full.
    pub fn push(&mut self, line: String)
        ensures
            old(self)@.len() >= RECENT_LOG_CAPACITY ==> final(self)@ == old(self)@.drop_first().push(
                line@,
            ),
            old(self)@.len() < RECENT_LOG_CAPACITY ==> final(self)@ == old(self)@.push(line@),
            final(self)@.len() <= RECENT_LOG_CAPACITY,
    {
        proof {
            use_type_invariant(&*self);
        }
        let mut lines = Vec::new();
        std::mem::swap(&mut lines, &mut self.lines);
        let ghost before = lines@;
        if lines.len() >= RECENT_LOG_CAPACITY {
            lines.remove(0);
        }
        let ghost middle = lines@;
        lines.push(line);
        proof {
            assert(crate::merkle::texts(lines@) =~= crate::merkle::texts(middle).push(line@));
            if before.len() >= RECENT_LOG_CAPACITY {
                assert(crate::merkle::texts(middle) =~= crate::merkle::texts(before).drop_first());
            }
        }
        self.lines = lines;
    }

    /// The kept lines, oldest first.
    pub fn lines(&self) -> (r: Vec<String>)
        ensures
            crate::merkle::texts(r@) == self@,
    {
        let n = self.lines.len();
        let mut r: Vec<String> = Vec::new();
        for i in 0..n
            invariant
                n == self.lines@.len(),
                r@.len() == i,
                forall|k: int| 0 <= k < i ==> r@[k]@ == self.lines@[k]@,
        {
            r.push(self.lines[i].clone());
        }
        assert(crate::merkle::texts(r@) =~= self@);
        r
    }
}

/// The fixed address that receives demo transfers: the hex digest of a
/// fixed label. Nothing can sign for it.
pub fn demo_recipient_address() -> (a: String)
    ensures
        a@ == digest_hex(vstd::utf8::encode_utf8("kamichain-demo-faucet-sink"@)),
{
    let mut data: Vec<u8> = Vec::new();
    push_utf8(&mut data, "kamichain-demo-faucet-sink");
    assert(data@ =~= vstd::utf8::encode_utf8("kamichain-demo-faucet-sink"@));
    sha256_hex(data.as_slice())
}

/// How long, in whole seconds, a caller must still wait before its next demo
/// transfer, when `elapsed_nanos` have passed since its last one and the
/// cooldown is `limit_secs` seconds; `None` when it may go ahead (also when
/// it never asked before).
pub open spec fn wait_after(elapsed_nanos: Option<u128>, limit_secs: u64) -> Option<u64> {
    match elapsed_nanos {
        None => None,
        Some(e) => if e < limit_secs * 1_000_000_000 {
            Some(((limit_secs * 1_000_000_000 - e) / 1_000_000_000) as u64)
        } else {
            None
        },
    }
}

/// Computes `wait_after`.
pub fn retry_after(elapsed_nanos: Option<u128>, limit_secs: u64) -> (r: Option<u64>)
    ensures
        r == wait_after(elapsed_nanos, limit_secs),
{
    match elapsed_nanos {
        None => None,
        Some(e) => {
            let limit: u128 = limit_secs as u128 * 1_000_000_000u128;
            if e < limit {
                Some(((limit - e) / 1_000_000_000u128) as u64)
            } else {
                None
            }
        },
    }
}

/// The time recorded for `key` in `m`, if any.
pub open spec fn lookup(m: Map<Seq<char>, u128>, key: Seq<char>) -> Option<u128> {
    if m.dom().contains(key) {
        Some(m[key])
    } else {
        None
    }
}

/// The time passed since `last` at `now`, in nanoseconds (0 if `now` is
/// earlier); `None` when there is no `last`.
pub open spec fn elapsed_since(last: Option<u128>, now: u128) -> Option<u128> {
    match last {
        None => None,
        Some(l) => Some(if now >= l {
            (now - l) as u128
        } else {
            0
        }),
    }
}

/// The map that a list of (client, time) entries stands for; a later entry
/// for a client overrides an earlier one.
pub open spec fn ledger_map(e: Seq<(String, u128)>) -> Map<Seq<char>, u128>
    decreases e.len(),
{
    if e.len() == 0 {
        Map::empty()
    } else {
        ledger_map(e.drop_last()).insert(e.last().0@, e.last().1)
    }
}

proof fn lemma_ledger_found(e: Seq<(String, u128)>, i: int, key: Seq<char>)
    requires
        0 <= i < e.len(),
        e[i].0@ == key,
        forall|j: int| i < j < e.len() ==> #[trigger] e[j].0@ != key,
    ensures
        ledger_map(e).dom().contains(key),
        ledger_map(e)[key] == e[i].1,
    decreases e.len(),
{
    if i < e.len() - 1 {
        let init = e.drop_last();
        assert forall|j: int| i < j < init.len() implies #[trigger] init[j].0@ != key by {
            assert(init[j] == e[j]);
        }
        lemma_ledger_found(init, i, key);
        assert(e.last().0@ != key) by {
            assert(e[e.len() - 1].0@ != key);
        }
    }
}

proof fn lemma_ledger_absent(e: Seq<(String, u128)>, key: Seq<char>)
    requires
        forall|j: int| 0 <= j < e.len() ==> #[trigger] e[j].0@ != key,
    ensures
        !ledger_map(e).dom().contains(key),
    decreases e.len(),
{
    if e.len() > 0 {
        let init = e.drop_last();
        assert forall|j: int| 0 <= j < init.len() implies #[trigger] init[j].0@ != key by {
            assert(init[j] == e[j]);
        }
        lemma_ledger_absent(init, key);
        assert(e[e.len() - 1].0@ != key);
    }
}

proof fn lemma_ledger_update(e: Seq<(String, u128)>, i: int, entry: (String, u128))
    requires
        0 <= i < e.len(),
        e[i].0@ == entry.0@,
        forall|j: int| i < j < e.len() ==> #[trigger] e[j].0@ != entry.0@,
    ensures
        ledger_map(e.update(i, entry)) == ledger_map(e).insert(entry.0@, entry.1),
    decreases e.len(),
{
    let u = e.update(i, entry);
    if i == e.len() - 1 {
        assert(u.drop_last() =~= e.drop_last());
        assert(ledger_map(u) =~= ledger_map(e).insert(entry.0@, entry.1));
    } else {
        let init = e.drop_last();
        assert forall|j: int| i < j < init.len() implies #[trigger] init[j].0@ != entry.0@ by {
            assert(init[j] == e[j]);
        }
        lemma_ledger_update(init, i, entry);
        assert(u.drop_last() =~= init.update(i, entry));
        assert(e.last().0@ != entry.0@) by {
            assert(e[e.len() - 1].0@ != entry.0@);
        }
        assert(u.last() == e.last());
        assert(ledger_map(u) =~= ledger_map(e).insert(entry.0@, entry.1));
    }
}

/// When each client last had a demo transfer admitted, in nanoseconds on the
/// bridge's clock.
pub struct DemoLedger {
    entries: Vec<(String, u128)>,
}

impl View for DemoLedger {
    type V = Map<Seq<char>, u128>;

    closed spec fn view(&self) -> Map<Seq<char>, u128> {
        ledger_map(self.entries@)
    }
}

impl DemoLedger {
    /// No client has asked yet.
    pub fn new() -> (r: DemoLedger)
        ensures
            r@ == Map::<Seq<char>, u128>::empty(),
    {
        DemoLedger { entries: Vec::new() }
    }

    /// The position of the last entry for `client`, if there is one.
    fn last_position(&self, client: &str) -> (r: Option<usize>)
        ensures
            match r {
                Some(i) => i < self.entries@.len() && self.entries@[i as int].0@ == client@ && forall|j: int|
                    i < j < self.entries@.len() ==> #[trigger] self.entries@[j].0@ != client@,
                None => forall|j: int|
                    0 <= j < self.entries@.len() ==> #[trigger] self.entries@[j].0@ != client@,
            },
    {
        let wanted = String::from_str(client);
        let mut k: usize = self.entries.len();
        while k > 0
            invariant
                k <= self.entries@.len(),
                wanted@ == client@,
                forall|j: int| k <= j < self.entries@.len() ==> #[trigger] self.entries@[j].0@ != client@,
            decreases k,
        {
            k = k - 1;
            if self.entries[k].0 == wanted {
                return Some(k);
            }
        }
        None
    }

    /// When `client` last had a demo transfer admitted, if ever.
    pub fn last_seen(&self, client: &str) -> (r: Option<u128>)
        ensures
            r == lookup(self@, client@),
    {
        match self.last_position(client) {
            Some(i) => {
                proof {
                    lemma_ledger_found(self.entries@, i as int, client@);
                }
                Some(self.entries[i].1)
            },
            None => {
                proof {
                    lemma_ledger_absent(self.entries@, client@);
                }
                None
            },
        }
    }

    /// Records `now` as the time `client` last had a demo transfer admitted.
    pub fn record(&mut self, client: &str, now: u128)
        ensures
            final(self)@ == old(self)@.insert(client@, now),
    {
        let entry = (String::from_str(client), now);
        match self.last_position(client) {
            Some(i) => {
                proof {
                    lemma_ledger_update(self.entries@, i as int, entry);
                }
                self.entries.set(i, entry);
            },
            None => {
                let ghost before = self.entries@;
                self.entries.push(entry);
                proof {
                    assert(self.entries@.drop_last() =~= before);
                }
            },
        }
    }
}

/// Decides a demo-transfer request from `client` at time `now_nanos`, with a
/// cooldown of `limit_secs` seconds per client. A client inside its cooldown
/// is refused with the whole seconds it must still wait, and nothing is
/// recorded; any other request is admitted and `now_nanos` becomes the
/// client's last time.
pub fn admit_demo_request(ledger: &mut DemoLedger, client: &str, now_nanos: u128, limit_secs: u64) -> (r: Result<(), u64>)
    ensures
        match wait_after(elapsed_since(lookup(old(ledger)@, client@), now_nanos), limit_secs) {
            Some(wait) => r == Err::<(), u64>(wait) && final(ledger)@ == old(ledger)@,
            None => r is Ok && final(ledger)@ == old(ledger)@.insert(client@, now_nanos),
        },
{
    let elapsed = match ledger.last_seen(client) {
        None => None,
        Some(last) => Some(
            if now_nanos >= last {
                now_nanos - last
            } else {
                0
            },
        ),
    };
    match retry_after(elapsed, limit_secs) {
        Some(wait) => Err(wait),
        None => {
            ledger.record(client, now_nanos);
            Ok(())
        },
    }
}

/// Whether an `Authorization` header carries the admin token as a bearer
/// token: the header is exactly `Bearer ` followed by the token.
pub fn admin_authorized(header: Option<&str>, token: &str) -> (r: bool)
    ensures
        r == (header matches Some(h) && h@ == "Bearer "@ + token@),
{
    let mut expected = String::from_str("Bearer ");
    expected.append(token);
    match header {
        Some(h) => String::from_str(h) == expected,
        None => false,
    }
}

/// The error text for a caller that must still wait `wait_secs` seconds.
pub fn rate_limited_message(wait_secs: u64) -> (m: String)
    ensures
        m@ == "rate limited — try again in "@ + crate::codec::decimal_text(wait_secs as nat) + "s"@,
{
    let mut m = String::from_str("rate limited — try again in ");
    crate::codec::push_decimal_text(&mut m, wait_secs);
    m.append("s");
    m
}

/// Whether a balance pays for one demo transfer and its fee.
pub fn demo_affordable(balance: u64) -> (r: bool)
    ensures
        r == (balance >= DEMO_AMOUNT + DEMO_FEE),
{
    balance >= DEMO_AMOUNT + DEMO_FEE
}

/// Refuses a demo transfer the demo wallet cannot pay for yet, with the text
/// shown to the caller.
pub fn check_demo_balance(balance: u64) -> (r: Result<(), String>)
    ensures
        r is Ok <==> balance >= DEMO_AMOUNT + DEMO_FEE,
        r matches Err(m) ==> m@ == "the demo wallet hasn't mined enough coins yet — try again shortly"@,
{
    if demo_affordable(balance) {
        Ok(())
    } else {
        Err(String::from_str("the demo wallet hasn't mined enough coins yet — try again shortly"))
    }
}

/// A demo transfer from the wallet to `recipient`, signed by the wallet.
pub fn demo_transfer(wallet: &Wallet, recipient: &str) -> (tx: Transaction)
    ensures
        tx.tx_type == TxType::Transfer,
        tx.sender@ == wallet.spec_address(),
        tx.recipient@ == recipient@,
        tx.amount == DEMO_AMOUNT,
        tx.fee == DEMO_FEE,
        tx.id@ == transaction_id(wallet.spec_address(), recipient@, DEMO_AMOUNT, tx.nonce),
        tx.pub_key matches Some(k) && k@ == crate::codec::hex_lower(wallet.public_key()),
        crate::wallet::transaction_verifies(tx, crate::codec::hex_lower(wallet.public_key())),
{
    wallet.signed_transfer(recipient, DEMO_AMOUNT, DEMO_FEE)
}

} // verus!
