//! The configuration of the listener, from the values of environment variables.
use vstd::prelude::*;
use vstd::string::*;
use crate::primitives::Address;
use crate::submitter;
use crate::submitter::{Submission, SubmitError, SubmitEvent, SubmitPhase, Submitter};
use crate::text;
use crate::text::{parse_address, text_equal};

verus! {

/// The values of the environment variables, each absent where the variable is not set.
#[derive(Clone, Debug)]
pub struct Environment {
    /// `TELOS_WS_URL`
    pub ws_url: Option<String>,
    /// `TELOS_TEMPO_WS_URL`
    pub tempo_ws_url: Option<String>,
    /// `TELOS_TEMPO_CONTRACT`
    pub tempo_contract: Option<String>,
    /// `TELOS_HL_WS_URL`
    pub hl_ws_url: Option<String>,
    /// `TELOS_HL_CONTRACT`
    pub hl_contract: Option<String>,
    /// `TELOS_TEMPO_FORK_URL`
    pub tempo_fork_url: Option<String>,
    /// `TELOS_HL_GATEWAY`
    pub hl_gateway: Option<String>,
    /// `TELOS_SUBMIT_RPC_URL`
    pub submit_rpc_url: Option<String>,
    /// `TELOS_SIGNER_KEY`
    pub signer_key: Option<String>,
    /// `TELOS_BROADCAST`
    pub broadcast: Option<String>,
    /// `TELOS_DB_URL`
    pub db_url: Option<String>,
}

/// The configuration of the listener.
#[derive(Clone, Debug)]
pub struct Config {
    pub fallback_url: String,
    pub tempo_url: Option<String>,
    pub tempo_contract: Option<Address>,
    pub hl_url: Option<String>,
    pub hl_contract: Option<Address>,
    pub fork_url: Option<String>,
    pub hedge_venue: Option<Address>,
    pub submit_rpc: Option<String>,
    pub signer_key: Option<String>,
    pub broadcast: bool,
    pub db_url: Option<String>,
}

/// A variable that should hold an address and does not.
#[derive(Clone, Debug, PartialEq, Eq)]
pub struct ConfigError {
    pub var: String,
}

impl ConfigError {
    /// What is said of the variable.
    pub fn message(&self) -> (s: String)
        ensures
            s@ == self.var@ + " must be a hex address"@,
    {
        let mut s: String = self.var.clone();
        s.append(" must be a hex address");
        s
    }
}

/// What the listener subscribes to.
#[derive(Clone, Debug, PartialEq, Eq)]
pub enum Mode {
    Headers { url: String },
    Intents { url: String, contract: Address },
    Fills { url: String, contract: Address },
    Both { tempo_url: String, tempo_contract: Address, hl_url: String, hl_contract: Address },
}

/// The contents of a [`Mode`].
pub enum ModeView {
    Headers { url: Seq<char> },
    Intents { url: Seq<char>, contract: Seq<u8> },
    Fills { url: Seq<char>, contract: Seq<u8> },
    Both {
        tempo_url: Seq<char>,
        tempo_contract: Seq<u8>,
        hl_url: Seq<char>,
        hl_contract: Seq<u8>,
    },
}

impl View for Mode {
    type V = ModeView;

    open spec fn view(&self) -> ModeView {
        match self {
            Mode::Headers { url } => ModeView::Headers { url: url@ },
            Mode::Intents { url, contract } => ModeView::Intents {
                url: url@,
                contract: contract@,
            },
            Mode::Fills { url, contract } => ModeView::Fills { url: url@, contract: contract@ },
            Mode::Both { tempo_url, tempo_contract, hl_url, hl_contract } => ModeView::Both {
                tempo_url: tempo_url@,
                tempo_contract: tempo_contract@,
                hl_url: hl_url@,
                hl_contract: hl_contract@,
            },
        }
    }
}

/// The public endpoint that is used where none is configured.
pub open spec fn default_url() -> Seq<char> {
    "wss://ethereum-rpc.publicnode.com"@
}

/// An optional address by its bytes.
pub open spec fn address_view(address: Option<Address>) -> Option<Seq<u8>> {
    match address {
        Some(a) => Some(a@),
        None => None,
    }
}

/// The address of an optional setting.
pub open spec fn setting_address(value: Option<String>) -> Option<Seq<u8>> {
    match value {
        Some(s) => text::parsed_address(s@),
        None => None,
    }
}

/// Whether a setting should be an address and is not.
pub open spec fn is_bad_address(value: Option<String>) -> bool {
    value matches Some(s) && text::parsed_address(s@) is None
}

/// A text, or another one where it is absent.
pub open spec fn text_or(text: Option<String>, other: Seq<char>) -> Seq<char> {
    match text {
        Some(s) => s@,
        None => other,
    }
}

/// The first variable that should hold an address and does not.
pub open spec fn bad_variable(env: Environment) -> Option<Seq<char>> {
    if is_bad_address(env.tempo_contract) {
        Some("TELOS_TEMPO_CONTRACT"@)
    } else if is_bad_address(env.hl_contract) {
        Some("TELOS_HL_CONTRACT"@)
    } else if is_bad_address(env.hl_gateway) {
        Some("TELOS_HL_GATEWAY"@)
    } else {
        None
    }
}

/// Whether the environment asks for broadcasts: only the value `1` does.
pub open spec fn asks_broadcast(env: Environment) -> bool {
    env.broadcast matches Some(s) && s@ == "1"@
}

/// Reads an address setting.
pub fn parse_addr(var: &str, value: &Option<String>) -> (r: Result<Option<Address>, ConfigError>)
    ensures
        match r {
            Ok(address) => !is_bad_address(*value) && address_view(address) == setting_address(
                *value,
            ),
            Err(e) => is_bad_address(*value) && e.var@ == var@,
        },
        value is None ==> r is Ok && r->Ok_0 is None,
        value matches Some(s) ==> (r is Ok <==> text::parsed_address(s@) is Some),
        value matches Some(s) ==> r is Ok ==> r->Ok_0 is Some && Some(r->Ok_0->0@)
            == text::parsed_address(s@),
{
    match value {
        Some(s) => match parse_address(s.as_str()) {
            Some(address) => Ok(Some(address)),
            None => Err(ConfigError { var: String::from_str(var) }),
        },
        None => Ok(None),
    }
}

/// A text, or a copy of another one where it is absent.
fn copy_or(text: &Option<String>, other: &str) -> (r: String)
    ensures
        r@ == text_or(*text, other@),
{
    match text {
        Some(s) => s.clone(),
        None => String::from_str(other),
    }
}

impl Config {
    /// Reads the configuration. A setting that should be an address and is not is an error, the
    /// first such one where there are several.
    pub fn from_env(env: Environment) -> (r: Result<Self, ConfigError>)
        ensures
            match r {
                Ok(cfg) => {
                    &&& bad_variable(env) is None
                    &&& cfg.fallback_url@ == text_or(env.ws_url, default_url())
                    &&& cfg.tempo_url == env.tempo_ws_url
                    &&& address_view(cfg.tempo_contract) == setting_address(env.tempo_contract)
                    &&& cfg.hl_url == env.hl_ws_url
                    &&& address_view(cfg.hl_contract) == setting_address(env.hl_contract)
                    &&& cfg.fork_url == env.tempo_fork_url
                    &&& address_view(cfg.hedge_venue) == setting_address(env.hl_gateway)
                    &&& cfg.submit_rpc == env.submit_rpc_url
                    &&& cfg.signer_key == env.signer_key
                    &&& cfg.broadcast == asks_broadcast(env)
                    &&& cfg.db_url == env.db_url
                },
                Err(e) => bad_variable(env) == Some(e.var@),
            },
            r matches Ok(cfg) ==> {
                &&& cfg.broadcast <==> env.broadcast is Some && env.broadcast->0@ == "1"@
                &&& env.ws_url is Some ==> cfg.fallback_url@ == env.ws_url->0@
                &&& env.ws_url is None ==> cfg.fallback_url@
                    == "wss://ethereum-rpc.publicnode.com"@
                &&& cfg.tempo_contract is Some <==> env.tempo_contract is Some
                &&& cfg.hl_contract is Some <==> env.hl_contract is Some
                &&& cfg.hedge_venue is Some <==> env.hl_gateway is Some
                &&& cfg.tempo_contract matches Some(a) ==> Some(a@) == text::parsed_address(
                    env.tempo_contract->0@,
                )
                &&& cfg.hl_contract matches Some(a) ==> Some(a@) == text::parsed_address(
                    env.hl_contract->0@,
                )
                &&& cfg.hedge_venue matches Some(a) ==> Some(a@) == text::parsed_address(
                    env.hl_gateway->0@,
                )
            },
    {
        let fallback_url: String = copy_or(&env.ws_url, "wss://ethereum-rpc.publicnode.com");
        let tempo_contract: Option<Address> = match parse_addr(
            "TELOS_TEMPO_CONTRACT",
            &env.tempo_contract,
        ) {
            Ok(address) => address,
            Err(e) => {
                return Err(e);
            },
        };
        let hl_contract: Option<Address> = match parse_addr(
            "TELOS_HL_CONTRACT",
            &env.hl_contract,
        ) {
            Ok(address) => address,
            Err(e) => {
                return Err(e);
            },
        };
        let hedge_venue: Option<Address> = match parse_addr("TELOS_HL_GATEWAY", &env.hl_gateway) {
            Ok(address) => address,
            Err(e) => {
                return Err(e);
            },
        };
        let broadcast: bool = match &env.broadcast {
            Some(s) => text_equal(s.as_str(), "1"),
            None => false,
        };
        Ok(
            Config {
                fallback_url,
                tempo_url: env.tempo_ws_url,
                tempo_contract,
                hl_url: env.hl_ws_url,
                hl_contract,
                fork_url: env.tempo_fork_url,
                hedge_venue,
                submit_rpc: env.submit_rpc_url,
                signer_key: env.signer_key,
                broadcast,
                db_url: env.db_url,
            },
        )
    }

    /// What the listener subscribes to: whichever of the two contracts are configured, block
    /// headers where none is. A side without an endpoint of its own uses the fallback.
    pub open spec fn mode_view(&self) -> ModeView {
        match (self.tempo_contract, self.hl_contract) {
            (Some(tempo), Some(hl)) => ModeView::Both {
                tempo_url: text_or(self.tempo_url, self.fallback_url@),
                tempo_contract: tempo@,
                hl_url: text_or(self.hl_url, self.fallback_url@),
                hl_contract: hl@,
            },
            (Some(tempo), None) => ModeView::Intents {
                url: text_or(self.tempo_url, self.fallback_url@),
                contract: tempo@,
            },
            (None, Some(hl)) => ModeView::Fills {
                url: text_or(self.hl_url, self.fallback_url@),
                contract: hl@,
            },
            (None, None) => ModeView::Headers { url: self.fallback_url@ },
        }
    }

    /// What the listener subscribes to.
    pub fn mode(&self) -> (mode: Mode)
        ensures
            mode@ == self.mode_view(),
            mode matches Mode::Headers { url } ==> url@ == self.fallback_url@,
            mode matches Mode::Intents { url, contract } ==> Some(contract) == self.tempo_contract
                && url@ == (if self.tempo_url is Some {
                self.tempo_url->0@
            } else {
                self.fallback_url@
            }),
            mode matches Mode::Fills { url, contract } ==> Some(contract) == self.hl_contract && url@
                == (if self.hl_url is Some {
                self.hl_url->0@
            } else {
                self.fallback_url@
            }),
            mode matches Mode::Both { tempo_url, tempo_contract, hl_url, hl_contract } ==> Some(
                tempo_contract,
            ) == self.tempo_contract && Some(hl_contract) == self.hl_contract && tempo_url@ == (
            if self.tempo_url is Some {
                self.tempo_url->0@
            } else {
                self.fallback_url@
            }) && hl_url@ == (if self.hl_url is Some {
                self.hl_url->0@
            } else {
                self.fallback_url@
            }),
            mode is Both <==> self.tempo_contract is Some && self.hl_contract is Some,
            mode is Intents <==> self.tempo_contract is Some && self.hl_contract is None,
            mode is Fills <==> self.tempo_contract is None && self.hl_contract is Some,
    {
        match (self.tempo_contract, self.hl_contract) {
            (Some(tempo_contract), Some(hl_contract)) => Mode::Both {
                tempo_url: copy_or(&self.tempo_url, self.fallback_url.as_str()),
                tempo_contract,
                hl_url: copy_or(&self.hl_url, self.fallback_url.as_str()),
                hl_contract,
            },
            (Some(contract), None) => Mode::Intents {
                url: copy_or(&self.tempo_url, self.fallback_url.as_str()),
                contract,
            },
            (None, Some(contract)) => Mode::Fills {
                url: copy_or(&self.hl_url, self.fallback_url.as_str()),
                contract,
            },
            (None, None) => Mode::Headers { url: self.fallback_url.clone() },
        }
    }
}

/// Builds the submitter where both an RPC URL and a key are configured.
pub fn build_submitter(cfg: &Config) -> (r: Result<Option<Submitter>, SubmitError>)
    ensures
        cfg.submit_rpc is None || cfg.signer_key is None ==> r is Ok && r->Ok_0 is None,
        cfg.submit_rpc is Some && cfg.signer_key is Some ==> {
            let signer = submitter::signer_of(text::without_prefixes(cfg.signer_key->0@));
            &&& r is Ok <==> submitter::is_key(text::without_prefixes(cfg.signer_key->0@))
            &&& match r {
                Ok(built) => built is Some && signer == Some(built->0@.signer_address)
                    && built->0@.rpc_url == cfg.submit_rpc->0@ && built->0@.signer_key
                    == text::without_prefixes(cfg.signer_key->0@) && built->0@.broadcast
                    == cfg.broadcast,
                Err(e) => signer is None && e == SubmitError::InvalidSignerKey,
            }
        },
{
    match (&cfg.submit_rpc, &cfg.signer_key) {
        (Some(rpc), Some(key)) => match Submitter::new(rpc.clone(), key.as_str(), cfg.broadcast) {
            Ok(submitter) => Ok(Some(submitter)),
            Err(e) => Err(e),
        },
        _ => Ok(None),
    }
}

/// A hedge is sent only where the environment asks for it with the value `1`: a submission that
/// carries the flag of the configuration never comes to sending otherwise, whatever happens.
pub proof fn lemma_sending_needs_the_flag(
    env: Environment,
    submission: Submission,
    events: Seq<SubmitEvent>,
)
    requires
        submission.broadcast == asks_broadcast(env),
        submission.phase == SubmitPhase::Connecting,
    ensures
        submission.after_all(events).phase is Sending || submission.after_all(events).phase
            is Confirming ==> env.broadcast is Some && env.broadcast->0@ == "1"@,
{
    if !submission.broadcast {
        submitter::lemma_dry_run_never_sends(submission, events);
    }
}

/// The contract of the intents is listened to exactly where it is configured, and so is that of
/// the trades; headers are listened to where neither is.
pub proof fn lemma_mode_follows_contracts(cfg: Config)
    ensures
        cfg.tempo_contract is Some <==> cfg.mode_view() is Intents || cfg.mode_view() is Both,
        cfg.hl_contract is Some <==> cfg.mode_view() is Fills || cfg.mode_view() is Both,
        cfg.tempo_contract is None && cfg.hl_contract is None <==> cfg.mode_view() is Headers,
{
}

/// Broadcasts are asked for with the value `1` and with no other.
pub proof fn lemma_only_one_value_asks_for_broadcasts(env: Environment)
    ensures
        asks_broadcast(env) <==> env.broadcast is Some && env.broadcast->0@.len() == 1
            && env.broadcast->0@[0] == '1',
{
    reveal_strlit("1");
    if env.broadcast is Some && env.broadcast->0@.len() == 1 && env.broadcast->0@[0] == '1' {
        assert(env.broadcast->0@ =~= "1"@);
    }
}

/// A setting that should be an address and is not is named, the first of them where there are
/// several; a setting that is absent is never wrong.
pub proof fn lemma_the_first_bad_address_is_named(env: Environment)
    ensures
        bad_variable(env) is None <==> {
            &&& env.tempo_contract is Some ==> text::parsed_address(env.tempo_contract->0@) is Some
            &&& env.hl_contract is Some ==> text::parsed_address(env.hl_contract->0@) is Some
            &&& env.hl_gateway is Some ==> text::parsed_address(env.hl_gateway->0@) is Some
        },
        env.tempo_contract is Some && text::parsed_address(env.tempo_contract->0@) is None
            ==> bad_variable(env) == Some("TELOS_TEMPO_CONTRACT"@),
        (env.tempo_contract is Some ==> text::parsed_address(env.tempo_contract->0@) is Some)
            && env.hl_contract is Some && text::parsed_address(env.hl_contract->0@) is None
            ==> bad_variable(env) == Some("TELOS_HL_CONTRACT"@),
        (env.tempo_contract is Some ==> text::parsed_address(env.tempo_contract->0@) is Some) && (
        env.hl_contract is Some ==> text::parsed_address(env.hl_contract->0@) is Some)
            && env.hl_gateway is Some && text::parsed_address(env.hl_gateway->0@) is None
            ==> bad_variable(env) == Some("TELOS_HL_GATEWAY"@),
{
}

/// Each side is listened to at its own endpoint, and at the fallback where it has none; the
/// contracts are those that are configured.
pub proof fn lemma_each_side_has_an_endpoint(cfg: Config)
    ensures
        ({
            let tempo_url = if cfg.tempo_url is Some {
                cfg.tempo_url->0@
            } else {
                cfg.fallback_url@
            };
            let hl_url = if cfg.hl_url is Some {
                cfg.hl_url->0@
            } else {
                cfg.fallback_url@
            };
            &&& cfg.tempo_contract is Some && cfg.hl_contract is Some ==> cfg.mode_view() == (
            ModeView::Both {
                tempo_url,
                tempo_contract: cfg.tempo_contract->0@,
                hl_url,
                hl_contract: cfg.hl_contract->0@,
            })
            &&& cfg.tempo_contract is Some && cfg.hl_contract is None ==> cfg.mode_view() == (
            ModeView::Intents { url: tempo_url, contract: cfg.tempo_contract->0@ })
            &&& cfg.tempo_contract is None && cfg.hl_contract is Some ==> cfg.mode_view() == (
            ModeView::Fills { url: hl_url, contract: cfg.hl_contract->0@ })
            &&& cfg.tempo_contract is None && cfg.hl_contract is None ==> cfg.mode_view() == (
            ModeView::Headers { url: cfg.fallback_url@ })
        }),
{
}

} // verus!
