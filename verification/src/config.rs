//! Configuration: a single record holding the persistence-mode selector,
//! its canonical JSON form, and the config command executor.
//!
//! A missing config file silently yields the default configuration; a
//! file that exists but does not parse is `CorruptStore`.

use vstd::prelude::*;
use crate::{Error, Output};
use crate::codec::{matches_at, parse_lit, to_chars};
use crate::ids::str_eq;

verus! {

/// Arguments of the config namespace: one optional subcommand.
pub struct ConfigArgs {
    pub command: Option<Command>,
}

/// The config-namespace commands.
pub enum Command {
    Get { key: String },
    SetValue { key: String, value: String },
}

/// How state is stored. A single variant exists today; the tag is kept
/// so further backends can be added without changing the file format.
#[derive(Debug, Clone, Copy, PartialEq, Eq, Structural)]
pub enum PersistenceMode {
    JSON,
}

/// The configuration record.
pub struct Config {
    persistence_mode: PersistenceMode,
}

impl View for Config {
    type V = PersistenceMode;

    closed spec fn view(&self) -> PersistenceMode {
        self.persistence_mode
    }
}

/// The display label of a persistence mode.
pub open spec fn mode_label(m: PersistenceMode) -> Seq<char> {
    match m {
        PersistenceMode::JSON => "JSON"@,
    }
}

/// The canonical JSON form of a configuration record.
pub open spec fn config_json(m: PersistenceMode) -> Seq<char> {
    match m {
        PersistenceMode::JSON => "{\"persistence_mode\":\"JSON\"}"@,
    }
}

impl Config {
    /// The default configuration: JSON-backed persistence.
    pub fn default() -> (c: Config)
        ensures
            c@ == PersistenceMode::JSON,
    {
        Config { persistence_mode: PersistenceMode::JSON }
    }

    /// The persistence mode's display label.
    pub fn mode_text(&self) -> (r: &'static str)
        ensures
            r@ == mode_label(self@),
    {
        match self.persistence_mode {
            PersistenceMode::JSON => "JSON",
        }
    }
}

/// Is `c` insignificant whitespace between JSON tokens?
pub open spec fn is_ws(c: char) -> bool {
    c == ' ' || c == '\t' || c == '\n' || c == '\r'
}

/// The first position at or after `i` of `s` holding no whitespace, or
/// the end.
pub open spec fn skip_ws_spec(s: Seq<char>, i: int) -> int
    decreases s.len() - i when 0 <= i <= s.len()
{
    if 0 <= i < s.len() && is_ws(s[i]) {
        skip_ws_spec(s, i + 1)
    } else {
        i
    }
}

/// Does `s` hold a configuration object: a JSON object with the one
/// field `persistence_mode` set to a known mode, with insignificant
/// whitespace permitted around the tokens?
pub open spec fn config_accepts(s: Seq<char>) -> bool {
    let a = skip_ws_spec(s, 0);
    let b = skip_ws_spec(s, a + 1);
    let c = b + "\"persistence_mode\""@.len();
    let d = skip_ws_spec(s, c);
    let e = skip_ws_spec(s, d + 1);
    let f = e + "\"JSON\""@.len();
    let g = skip_ws_spec(s, f);
    let h = skip_ws_spec(s, g + 1);
    &&& a < s.len() && s[a] == '{'
    &&& matches_at(s, b, "\"persistence_mode\""@)
    &&& d < s.len() && s[d] == ':'
    &&& matches_at(s, e, "\"JSON\""@)
    &&& g < s.len() && s[g] == '}'
    &&& h == s.len()
}

/// The mode `s` selects, when `config_accepts(s)` holds.
pub open spec fn mode_of(s: Seq<char>) -> PersistenceMode {
    PersistenceMode::JSON
}

fn skip_ws(v: &Vec<char>, i: usize) -> (r: usize)
    requires
        i <= v@.len(),
    ensures
        i <= r <= v@.len(),
        r == skip_ws_spec(v@, i as int),
{
    let n = v.len();
    let mut cur: usize = i;
    while cur < n && (v[cur] == ' ' || v[cur] == '\t' || v[cur] == '\n' || v[cur] == '\r')
        invariant
            i <= cur <= n,
            n == v@.len(),
            skip_ws_spec(v@, i as int) == skip_ws_spec(v@, cur as int),
        decreases n - cur,
    {
        cur = cur + 1;
    }
    cur
}

/// Read the configuration out of the backing file's content, `None`
/// standing for a file that does not exist.
///
/// A missing file is the default configuration, not an error. Content
/// parses exactly when it holds the configuration object, whitespace and
/// all; anything else is `CorruptStore`.
pub fn load_config(content: Option<&str>) -> (r: Result<Config, Error>)
    ensures
        content is None ==> r is Ok && r->Ok_0@ == PersistenceMode::JSON,
        content matches Some(s) ==> {
            &&& r is Ok <==> config_accepts(s@)
            &&& r matches Ok(c) ==> c@ == mode_of(s@)
            &&& r is Err ==> r->Err_0 == Error::CorruptStore
        },
{
    match content {
        None => Ok(Config::default()),
        Some(s) => {
            let v = to_chars(s);
            let n = v.len();
            let a = skip_ws(&v, 0);
            if !(a < n && v[a] == '{') {
                proof {
                    assert(!config_accepts(s@));
                }
                return Err(Error::CorruptStore);
            }
            let b = skip_ws(&v, a + 1);
            let c = match parse_lit(&v, b, "\"persistence_mode\"") {
                Some(x) => x,
                None => {
                    proof {
                        assert(!config_accepts(s@));
                    }
                    return Err(Error::CorruptStore);
                },
            };
            let d = skip_ws(&v, c);
            if !(d < n && v[d] == ':') {
                proof {
                    assert(!config_accepts(s@));
                }
                return Err(Error::CorruptStore);
            }
            let e = skip_ws(&v, d + 1);
            let f = match parse_lit(&v, e, "\"JSON\"") {
                Some(x) => x,
                None => {
                    proof {
                        assert(!config_accepts(s@));
                    }
                    return Err(Error::CorruptStore);
                },
            };
            let g = skip_ws(&v, f);
            if !(g < n && v[g] == '}') {
                proof {
                    assert(!config_accepts(s@));
                }
                return Err(Error::CorruptStore);
            }
            let h = skip_ws(&v, g + 1);
            if h != n {
                proof {
                    assert(!config_accepts(s@));
                }
                return Err(Error::CorruptStore);
            }
            proof {
                assert(config_accepts(s@));
            }
            Ok(Config { persistence_mode: PersistenceMode::JSON })
        },
    }
}

/// Law: the canonical rendering of a configuration is accepted by the
/// reader, so a configuration saved in canonical form loads back.
pub proof fn lemma_canonical_config_accepted()
    ensures
        config_accepts(config_json(PersistenceMode::JSON)),
        mode_of(config_json(PersistenceMode::JSON)) == PersistenceMode::JSON,
{
    reveal_strlit("{\"persistence_mode\":\"JSON\"}");
    reveal_strlit("\"persistence_mode\"");
    reveal_strlit("\"JSON\"");
    let s = config_json(PersistenceMode::JSON);
    assert(s.subrange(1, 19) =~= "\"persistence_mode\""@);
    assert(s.subrange(20, 26) =~= "\"JSON\""@);
    assert(skip_ws_spec(s, 0) == 0);
    assert(skip_ws_spec(s, 1) == 1);
    assert(skip_ws_spec(s, 19) == 19);
    assert(skip_ws_spec(s, 20) == 20);
    assert(skip_ws_spec(s, 26) == 26);
    assert(skip_ws_spec(s, 27) == 27);
}

/// The full outcome contract of one config-namespace command: which
/// output is owed for which input. No command fails and none changes the
/// configuration.
pub open spec fn config_command_post(mode: PersistenceMode, cmd: Command, r: Result<Output, Error>) -> bool {
    &&& r is Ok
    &&& (cmd matches Command::Get { key } ==> {
        &&& key@ == "persistence_mode"@
            ==> (r->Ok_0 matches Output::ConfigValue(v) && v@ == mode_label(mode))
        &&& key@ != "persistence_mode"@ ==> r->Ok_0 is InvalidConfigKey
    })
    &&& (cmd matches Command::SetValue { key, value } ==> (r->Ok_0 matches Output::ConfigSetAck {
        key: k,
        value: v,
    } && k@ == key@ && v@ == value@))
}

/// Execute one config-namespace command. Never fails: an unknown key is
/// reported in the output, and `set` only acknowledges (the configuration
/// is not changed and nothing is persisted).
pub fn run_command(config: &Config, cmd: &Command) -> (r: Result<Output, Error>)
    ensures
        config_command_post(config@, *cmd, r),
{
    match cmd {
        Command::Get { key } => {
            if str_eq(key.as_str(), "persistence_mode") {
                Ok(Output::ConfigValue(String::from_str(config.mode_text())))
            } else {
                Ok(Output::InvalidConfigKey)
            }
        },
        Command::SetValue { key, value } => {
            Ok(Output::ConfigSetAck { key: key.clone(), value: value.clone() })
        },
    }
}

} // verus!
