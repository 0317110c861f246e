//! Node settings read from command-line arguments.
use crate::error::NodeError;
use vstd::prelude::*;
use vstd::string::{StringExecFns, StrSliceExecFns};

verus! {

/// Whether every character of `d` is an ASCII decimal digit.
pub open spec fn all_digits(d: Seq<char>) -> bool {
    forall|i: int| 0 <= i < d.len() ==> '0' <= #[trigger] d[i] <= '9'
}

/// The value of a numeral made of decimal digits.
pub open spec fn digits_value(d: Seq<char>) -> nat
    decreases d.len(),
{
    if d.len() == 0 {
        0
    } else {
        digits_value(d.drop_last()) * 10 + (d.last() as nat - 48) as nat
    }
}

/// What `usize::from_str` accepts: an optional `+`, then at least one
/// decimal digit and nothing else, with a value that fits in `usize`.
pub open spec fn parsed_usize(s: Seq<char>) -> Option<usize> {
    let d = if s.len() > 0 && s[0] == '+' {
        s.drop_first()
    } else {
        s
    };
    if d.len() > 0 && all_digits(d) && digits_value(d) <= usize::MAX {
        Some(digits_value(d) as usize)
    } else {
        None
    }
}

proof fn lemma_digits_value_grows(d: Seq<char>, j: int, k: int)
    requires
        all_digits(d),
        0 <= j <= k <= d.len(),
    ensures
        digits_value(d.take(j)) <= digits_value(d.take(k)),
    decreases k - j,
{
    if j < k {
        lemma_digits_value_grows(d, j, k - 1);
        assert(d.take(k).drop_last() =~= d.take(k - 1));
        assert('0' <= d[k - 1] <= '9');
    }
}

/// Parses a decimal `usize` as `str::parse::<usize>` does.
pub fn parse_usize(s: &str) -> (r: Option<usize>)
    ensures
        r == parsed_usize(s@),
{
    let len = s.unicode_len();
    let mut start: usize = 0;
    if len > 0 && s.get_char(0) == '+' {
        start = 1;
    }
    let ghost d = if s@.len() > 0 && s@[0] == '+' {
        s@.drop_first()
    } else {
        s@
    };
    assert(d =~= s@.skip(start as int));
    if start >= len {
        return None;
    }
    let mut value: usize = 0;
    let mut i: usize = start;
    while i < len
        invariant
            len == s@.len(),
            d == s@.skip(start as int),
            d == (if s@.len() > 0 && s@[0] == '+' {
                s@.drop_first()
            } else {
                s@
            }),
            start <= i <= len,
            forall|k: int| start <= k < i ==> '0' <= #[trigger] s@[k] <= '9',
            value == digits_value(d.take(i - start)),
        decreases len - i,
    {
        let c = s.get_char(i);
        assert(d.take(i - start + 1).drop_last() =~= d.take(i - start));
        assert(d[i - start] == s@[i as int]);
        if c < '0' || c > '9' {
            assert(!('0' <= d[i - start] <= '9'));
            assert(!all_digits(d));
            return None;
        }
        let digit = (c as u32 - 48) as usize;
        let ghost next = digits_value(d.take(i - start + 1));
        assert(d.take(i - start + 1).last() == c);
        assert(next == value * 10 + digit);
        match value.checked_mul(10) {
            Some(v) => match v.checked_add(digit) {
                Some(w) => {
                    value = w;
                },
                None => {
                    proof {
                        assert(next > usize::MAX);
                        if all_digits(d) {
                            lemma_digits_value_grows(d, i - start + 1, d.len() as int);
                            assert(d.take(d.len() as int) =~= d);
                        }
                    }
                    return None;
                },
            },
            None => {
                proof {
                    assert(value * 10 > usize::MAX);
                    assert(next > usize::MAX);
                    if all_digits(d) {
                        lemma_digits_value_grows(d, i - start + 1, d.len() as int);
                        assert(d.take(d.len() as int) =~= d);
                    }
                }
                return None;
            },
        }
        i = i + 1;
    }
    assert(d.take(d.len() as int) =~= d);
    assert(all_digits(d));
    Some(value)
}


/// The settings of a node, as text and numbers.
pub struct ConfigView {
    pub bind_addr: Seq<char>,
    pub rpc_addr: Seq<char>,
    pub difficulty: usize,
    pub data_dir: Seq<char>,
    pub miner_addr: Seq<char>,
    pub peer: Option<Seq<char>>,
}

/// The settings used where no flag says otherwise.
pub open spec fn default_view() -> ConfigView {
    ConfigView {
        bind_addr: "127.0.0.1:8333"@,
        rpc_addr: "127.0.0.1:8332"@,
        difficulty: 2,
        data_dir: "./data"@,
        miner_addr: "default_miner"@,
        peer: None,
    }
}

/// The error text for a flag given without a value.
pub open spec fn missing_value(flag: Seq<char>) -> Seq<char> {
    flag + " requires a value"@
}

/// Reads the flags of `args` from position `i` on, each followed by its
/// value, into `cfg`; the first problem met decides the error text.
pub open spec fn parse_from(args: Seq<Seq<char>>, i: int, cfg: ConfigView) -> Result<ConfigView, Seq<char>>
    decreases args.len() - i,
{
    if i < 0 || i >= args.len() {
        Ok(cfg)
    } else {
        let flag = args[i];
        if flag == "--bind"@ || flag == "--rpc"@ || flag == "--difficulty"@ || flag
            == "--data-dir"@ || flag == "--miner"@ || flag == "--peer"@ {
            if i + 1 >= args.len() {
                Err(missing_value(flag))
            } else {
                let value = args[i + 1];
                if flag == "--bind"@ {
                    parse_from(args, i + 2, ConfigView { bind_addr: value, ..cfg })
                } else if flag == "--rpc"@ {
                    parse_from(args, i + 2, ConfigView { rpc_addr: value, ..cfg })
                } else if flag == "--difficulty"@ {
                    match parsed_usize(value) {
                        Some(d) => parse_from(args, i + 2, ConfigView { difficulty: d, ..cfg }),
                        None => Err("invalid difficulty: "@ + value),
                    }
                } else if flag == "--data-dir"@ {
                    parse_from(args, i + 2, ConfigView { data_dir: value, ..cfg })
                } else if flag == "--miner"@ {
                    parse_from(args, i + 2, ConfigView { miner_addr: value, ..cfg })
                } else {
                    parse_from(args, i + 2, ConfigView { peer: Some(value), ..cfg })
                }
            }
        } else {
            Err("unknown flag: "@ + flag)
        }
    }
}

/// The check made once every flag is read.
pub open spec fn checked(cfg: ConfigView) -> Result<ConfigView, Seq<char>> {
    if cfg.difficulty == 0 {
        Err("difficulty must be >= 1"@)
    } else if cfg.miner_addr.len() == 0 {
        Err("miner address must not be empty"@)
    } else {
        Ok(cfg)
    }
}

/// The settings that an argument list gives (the first argument is the
/// program's name), or the text of why it gives none.
pub open spec fn config_from_args(args: Seq<Seq<char>>) -> Result<ConfigView, Seq<char>> {
    match parse_from(args, 1, default_view()) {
        Ok(cfg) => checked(cfg),
        Err(m) => Err(m),
    }
}

/// The texts held by a list of strings.
pub open spec fn arg_texts(args: Seq<String>) -> Seq<Seq<char>> {
    args.map_values(|a: String| a@)
}

/// The settings of a node.
#[derive(Debug, Clone)]
pub struct NodeConfig {
    pub bind_addr: String,
    pub rpc_addr: String,
    pub difficulty: usize,
    pub data_dir: String,
    pub miner_addr: String,
    pub peer: Option<String>,
}

impl View for NodeConfig {
    type V = ConfigView;

    open spec fn view(&self) -> ConfigView {
        ConfigView {
            bind_addr: self.bind_addr@,
            rpc_addr: self.rpc_addr@,
            difficulty: self.difficulty,
            data_dir: self.data_dir@,
            miner_addr: self.miner_addr@,
            peer: match self.peer {
                Some(p) => Some(p@),
                None => None,
            },
        }
    }
}

impl Default for NodeConfig {
    fn default() -> (cfg: NodeConfig)
        ensures
            cfg@ == default_view(),
    {
        NodeConfig {
            bind_addr: String::from_str("127.0.0.1:8333"),
            rpc_addr: String::from_str("127.0.0.1:8332"),
            difficulty: 2,
            data_dir: String::from_str("./data"),
            miner_addr: String::from_str("default_miner"),
            peer: None,
        }
    }
}

/// The value that follows the flag at position `i`.
fn next_value(args: &[String], i: usize, flag: &str) -> (r: Result<String, NodeError>)
    ensures
        i + 1 < args@.len() ==> (r matches Ok(v) && v@ == args@[i + 1]@),
        i + 1 >= args@.len() ==> (r matches Err(e) && e matches NodeError::Config(m) && m@
            == missing_value(flag@)),
{
    if i < args.len() && i + 1 < args.len() {
        Ok(args[i + 1].clone())
    } else {
        let mut m = String::from_str(flag);
        m.append(" requires a value");
        Err(NodeError::Config(m))
    }
}

impl NodeConfig {
    /// Reads the settings from an argument list whose first item is the
    /// program's name: each flag is followed by its value.
    pub fn from_slice(args: &[String]) -> (r: Result<NodeConfig, NodeError>)
        ensures
            match config_from_args(arg_texts(args@)) {
                Ok(cfg) => r matches Ok(c) && c@ == cfg,
                Err(m) => r matches Err(e) && e matches NodeError::Config(mm) && mm@ == m,
            },
    {
        let ghost texts = arg_texts(args@);
        let mut cfg = NodeConfig::default();
        let bind = String::from_str("--bind");
        let rpc = String::from_str("--rpc");
        let difficulty = String::from_str("--difficulty");
        let data_dir = String::from_str("--data-dir");
        let miner = String::from_str("--miner");
        let peer = String::from_str("--peer");
        let n = args.len();
        let mut i: usize = 1;
        while i < n
            invariant
                n == args@.len(),
                texts == arg_texts(args@),
                1 <= i,
                parse_from(texts, 1, default_view()) == parse_from(texts, i as int, cfg@),
                bind@ == "--bind"@,
                rpc@ == "--rpc"@,
                difficulty@ == "--difficulty"@,
                data_dir@ == "--data-dir"@,
                miner@ == "--miner"@,
                peer@ == "--peer"@,
            decreases n - i,
        {
            let flag = &args[i];
            assert(texts[i as int] == flag@);
            if *flag == bind {
                cfg.bind_addr = next_value(args, i, "--bind")?;
            } else if *flag == rpc {
                cfg.rpc_addr = next_value(args, i, "--rpc")?;
            } else if *flag == difficulty {
                let raw = next_value(args, i, "--difficulty")?;
                match parse_usize(raw.as_str()) {
                    Some(d) => {
                        cfg.difficulty = d;
                    },
                    None => {
                        let mut m = String::from_str("invalid difficulty: ");
                        m.append(raw.as_str());
                        return Err(NodeError::Config(m));
                    },
                }
            } else if *flag == data_dir {
                cfg.data_dir = next_value(args, i, "--data-dir")?;
            } else if *flag == miner {
                cfg.miner_addr = next_value(args, i, "--miner")?;
            } else if *flag == peer {
                cfg.peer = Some(next_value(args, i, "--peer")?);
            } else {
                let mut m = String::from_str("unknown flag: ");
                m.append(flag.as_str());
                return Err(NodeError::Config(m));
            }
            i = i + 2;
        }
        cfg.validate()?;
        Ok(cfg)
    }

    /// Refuses a zero difficulty and an empty miner address.
    fn validate(&self) -> (r: Result<(), NodeError>)
        ensures
            match checked(self@) {
                Ok(_) => r is Ok,
                Err(m) => r matches Err(e) && e matches NodeError::Config(mm) && mm@ == m,
            },
    {
        if self.difficulty == 0 {
            return Err(NodeError::Config(String::from_str("difficulty must be >= 1")));
        }
        if self.miner_addr.as_str().unicode_len() == 0 {
            return Err(NodeError::Config(String::from_str("miner address must not be empty")));
        }
        Ok(())
    }

    /// Where the chain is kept: `chain.json` in the data directory.
    pub fn chain_path(&self) -> (p: String)
        ensures
            p@ == self.data_dir@ + "/chain.json"@,
    {
        let mut p = self.data_dir.clone();
        p.append("/chain.json");
        p
    }
}

} // verus!
