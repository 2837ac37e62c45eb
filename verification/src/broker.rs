use vstd::prelude::*;

use crate::manifest::broker;
use crate::manifest::broker::BrokerCfg;
use crate::manifest::hard_tools;
use crate::numeral;
use crate::text;

verus! {

/// How long the broker has to start listening, in seconds.
pub const BOOT_TIMEOUT_SECS: u64 = 5;

/// How long to wait between two probes of a broker that has been spawned, in milliseconds.
pub const PROBE_INTERVAL_MILLIS: u64 = 100;

/// How long one probe may take to connect, in milliseconds.
pub const PROBE_TIMEOUT_MILLIS: u64 = 300;

/// How many bytes of entropy a fresh token holds.
pub const TOKEN_BYTES: usize = 24;

/// The broker was spawned and never started to listen.
#[derive(Debug)]
pub struct BrokerBootTimeout {
    pub bin: String,
    pub probe: String,
    pub seconds: u64,
}

impl BrokerBootTimeout {
    /// The error in words.
    pub fn message(&self) -> (r: String)
        ensures
            r@ == "provisioning broker (`"@ + self.bin@ + "`) did not start listening on "@
                + self.probe@ + " within "@ + numeral::decimal(self.seconds as nat) + "s"@,
    {
        let head = text::concat3(
            "provisioning broker (`",
            self.bin.as_str(),
            "`) did not start listening on ",
        );
        let mid = text::concat3(head.as_str(), self.probe.as_str(), " within ");
        text::concat3(mid.as_str(), numeral::decimal_text(self.seconds).as_str(), "s")
    }
}

/// The loopback address of a bind port, or the bind address itself where it names no port.
pub open spec fn probe_address(bind: Seq<char>) -> Seq<char> {
    if bind.contains(':') {
        "127.0.0.1:"@ + bind.skip(text::last_index_of(bind, ':') + 1)
    } else {
        bind
    }
}

/// The address to probe for liveness. A broker bound to all interfaces listens on loopback too,
/// and connecting to `0.0.0.0` is not portable.
pub fn probe_addr(bind: &str) -> (r: String)
    ensures
        r@ == probe_address(bind@),
{
    let chars = text::chars_of(bind);
    let end: usize = chars.len();
    proof {
        text::lemma_last_index_of(chars@, ':');
    }
    match text::rfind_char(&chars, ':') {
        Some(i) => {
            let port = text::text_between(&chars, i + 1, end);
            assert(port@ == bind@.skip(i + 1));
            text::concat2("127.0.0.1:", port.as_str())
        },
        None => bind.to_owned(),
    }
}

/// An empty token counts as none.
pub open spec fn usable_token(value: Option<Seq<char>>) -> Option<Seq<char>> {
    match value {
        Some(token) if token.len() > 0 => Some(token),
        _ => None,
    }
}

/// The operator's token, from the value of `BROKER_TOKEN`.
pub fn operator_token(value: Option<String>) -> (r: Option<String>)
    ensures
        text::text_opt(r) == usable_token(text::text_opt(value)),
{
    match value {
        Some(token) => if token.as_str().unicode_len() > 0 {
            Some(token)
        } else {
            None
        },
        None => None,
    }
}

/// A bearer token: the entropy in hexadecimal.
pub fn mint_token(entropy: &[u8; TOKEN_BYTES]) -> (r: String)
    ensures
        r@ == numeral::hex(entropy@),
{
    numeral::hex_text(entropy.as_slice())
}

/// A fresh token has two hexadecimal digits for each byte, and tokens of different entropy differ.
pub proof fn minted_tokens_are_hex_and_unique(a: Seq<u8>, b: Seq<u8>)
    requires
        a.len() == TOKEN_BYTES,
        b.len() == TOKEN_BYTES,
    ensures
        numeral::hex(a).len() == 48,
        forall|i: int|
            0 <= i < 48 ==> ('0' <= #[trigger] numeral::hex(a)[i] <= '9' || 'a' <= numeral::hex(a)[i]
                <= 'f'),
        a != b ==> numeral::hex(a) != numeral::hex(b),
{
    numeral::hex_is_lower_case_pairs(a);
    if numeral::hex(a) == numeral::hex(b) {
        numeral::hex_is_injective(a, b);
    }
}

/// One environment entry.
pub open spec fn entry(key: Seq<char>, value: Seq<char>) -> Seq<(Seq<char>, Seq<char>)> {
    seq![(key, value)]
}

/// The entries but those under a name, in order.
pub open spec fn without_key(
    list: Seq<(Seq<char>, Seq<char>)>,
    key: Seq<char>,
) -> Seq<(Seq<char>, Seq<char>)> {
    list.filter(|e: (Seq<char>, Seq<char>)| e.0 != key)
}

/// What the broker's process is given on top of the inherited environment, in order; of two
/// entries with one name the later counts. The agent's environment comes last, and what it may
/// hold under `BROKER_TOKEN` is left out: the token is the one that the endpoint is guarded by.
pub open spec fn broker_env(
    cfg: BrokerCfg,
    token: Seq<char>,
    sandbox_name: Seq<char>,
    control_port: Option<u16>,
    agent_env: Seq<(Seq<char>, Seq<char>)>,
) -> Seq<(Seq<char>, Seq<char>)> {
    entry("BROKER_NAME"@, cfg.name@) + entry("BROKER_BIND"@, cfg.bind@) + entry(
        "BROKER_TOKEN"@,
        token,
    ) + entry("BROKER_SANDBOX_NAME"@, sandbox_name) + (if cfg.hard_tool@.len() > 0 {
        entry("BROKER_HARD_TOOLS"@, hard_tools::services_json(cfg.hard_tool@))
    } else {
        Seq::empty()
    }) + (match control_port {
        Some(port) => entry(
            "BROKER_CONTROL_ADDR"@,
            "127.0.0.1:"@ + numeral::decimal(port as nat),
        ),
        None => Seq::empty(),
    }) + (if cfg.build {
        entry("BROKER_BUILD"@, "1"@)
    } else {
        Seq::empty()
    }) + without_key(agent_env, "BROKER_TOKEN"@)
}

fn push_entry(list: &mut Vec<(String, String)>, key: &str, value: &str)
    ensures
        text::pairs(final(list)@) == text::pairs(old(list)@) + entry(key@, value@),
{
    list.push((key.to_owned(), value.to_owned()));
    assert(text::pairs(list@) =~= text::pairs(old(list)@) + entry(key@, value@));
}

/// The environment of the broker's process. The configured services go in as JSON, where there are
/// any. The agent's entries follow, without a token of theirs.
pub fn child_env(
    cfg: &BrokerCfg,
    token: &str,
    sandbox_name: &str,
    control_port: Option<u16>,
    agent_env: &Vec<(String, String)>,
) -> (r: Vec<(String, String)>)
    ensures
        text::pairs(r@) == broker_env(
            *cfg,
            token@,
            sandbox_name@,
            control_port,
            text::pairs(agent_env@),
        ),
{
    let mut list: Vec<(String, String)> = Vec::new();
    assert(text::pairs(list@) =~= Seq::empty());
    push_entry(&mut list, "BROKER_NAME", cfg.name.as_str());
    push_entry(&mut list, "BROKER_BIND", cfg.bind.as_str());
    push_entry(&mut list, "BROKER_TOKEN", token);
    push_entry(&mut list, "BROKER_SANDBOX_NAME", sandbox_name);
    if cfg.hard_tool.len() > 0 {
        let services = hard_tools::services_text(&cfg.hard_tool);
        push_entry(&mut list, "BROKER_HARD_TOOLS", services.as_str());
    }
    match control_port {
        Some(port) => {
            let addr = text::concat2("127.0.0.1:", numeral::decimal_text(port as u64).as_str());
            push_entry(&mut list, "BROKER_CONTROL_ADDR", addr.as_str());
        },
        None => {},
    }
    if cfg.build {
        push_entry(&mut list, "BROKER_BUILD", "1");
    }
    let ghost head = text::pairs(list@);
    let ghost given = text::pairs(agent_env@);
    assert(without_key(given.take(0), "BROKER_TOKEN"@) =~= Seq::empty()) by {
        reveal(Seq::filter);
    }
    assert(head + Seq::<(Seq<char>, Seq<char>)>::empty() =~= head);
    let mut i: usize = 0;
    while i < agent_env.len()
        invariant
            i <= agent_env@.len(),
            given == text::pairs(agent_env@),
            text::pairs(list@) == head + without_key(given.take(i as int), "BROKER_TOKEN"@),
        decreases agent_env@.len() - i,
    {
        let ghost before = without_key(given.take(i as int), "BROKER_TOKEN"@);
        let ghost one = given[i as int];
        proof {
            assert(given.take(i + 1).drop_last() =~= given.take(i as int));
            assert(given.take(i + 1).last() == one);
            assert(without_key(given.take(i + 1), "BROKER_TOKEN"@) == if one.0 != "BROKER_TOKEN"@ {
                before.push(one)
            } else {
                before
            }) by {
                reveal(Seq::filter);
            }
        }
        if !text::same_text(agent_env[i].0.as_str(), "BROKER_TOKEN") {
            push_entry(&mut list, agent_env[i].0.as_str(), agent_env[i].1.as_str());
            assert(head + before + entry(one.0, one.1) =~= head + before.push(one));
        }
        i = i + 1;
    }
    assert(given.take(i as int) =~= given);
    assert(text::pairs(list@) =~= broker_env(
        *cfg,
        token@,
        sandbox_name@,
        control_port,
        given,
    ));
    list
}

/// The last value under a name: what a process sees that was given the entries in order.
pub open spec fn env_value(list: Seq<(Seq<char>, Seq<char>)>, key: Seq<char>) -> Option<Seq<char>>
    decreases list.len(),
{
    if list.len() == 0 {
        None
    } else if list.last().0 == key {
        Some(list.last().1)
    } else {
        env_value(list.drop_last(), key)
    }
}

pub open spec fn names_key(list: Seq<(Seq<char>, Seq<char>)>, key: Seq<char>) -> bool {
    exists|i: int| 0 <= i < list.len() && (#[trigger] list[i]).0 == key
}

proof fn lemma_env_value_skips(
    head: Seq<(Seq<char>, Seq<char>)>,
    tail: Seq<(Seq<char>, Seq<char>)>,
    key: Seq<char>,
)
    requires
        !names_key(tail, key),
    ensures
        env_value(head + tail, key) == env_value(head, key),
    decreases tail.len(),
{
    if tail.len() > 0 {
        let init = tail.drop_last();
        assert(!names_key(init, key)) by {
            if names_key(init, key) {
                let i = choose|i: int| 0 <= i < init.len() && (#[trigger] init[i]).0 == key;
                assert(tail[i].0 == key);
            }
        }
        lemma_env_value_skips(head, init, key);
        assert((head + tail).drop_last() == head + init);
        assert(tail[tail.len() - 1].0 != key);
    } else {
        assert(head + tail == head);
    }
}

/// What is left without a key does not name it.
proof fn lemma_without_key(list: Seq<(Seq<char>, Seq<char>)>, key: Seq<char>)
    ensures
        !names_key(without_key(list, key), key),
{
    let pred = |e: (Seq<char>, Seq<char>)| e.0 != key;
    let kept = list.filter(pred);
    if names_key(kept, key) {
        let i = choose|i: int| 0 <= i < kept.len() && (#[trigger] kept[i]).0 == key;
        list.lemma_filter_pred(pred, i);
    }
}

/// Whatever the agent's environment holds, the broker is started with the token it is given.
pub proof fn broker_is_started_with_its_token(
    cfg: BrokerCfg,
    token: Seq<char>,
    sandbox_name: Seq<char>,
    control_port: Option<u16>,
    agent_env: Seq<(Seq<char>, Seq<char>)>,
)
    ensures
        env_value(
            broker_env(cfg, token, sandbox_name, control_port, agent_env),
            "BROKER_TOKEN"@,
        ) == Some(token),
{
    reveal_strlit("BROKER_TOKEN");
    reveal_strlit("BROKER_SANDBOX_NAME");
    reveal_strlit("BROKER_HARD_TOOLS");
    reveal_strlit("BROKER_CONTROL_ADDR");
    reveal_strlit("BROKER_BUILD");
    assert("BROKER_BUILD"@[7] != "BROKER_TOKEN"@[7]);
    let key = "BROKER_TOKEN"@;
    let a = entry("BROKER_NAME"@, cfg.name@) + entry("BROKER_BIND"@, cfg.bind@) + entry(key, token);
    let b = a + entry("BROKER_SANDBOX_NAME"@, sandbox_name);
    let services = if cfg.hard_tool@.len() > 0 {
        entry("BROKER_HARD_TOOLS"@, hard_tools::services_json(cfg.hard_tool@))
    } else {
        Seq::empty()
    };
    let control = match control_port {
        Some(port) => entry(
            "BROKER_CONTROL_ADDR"@,
            "127.0.0.1:"@ + numeral::decimal(port as nat),
        ),
        None => Seq::empty(),
    };
    let build = if cfg.build {
        entry("BROKER_BUILD"@, "1"@)
    } else {
        Seq::empty()
    };
    lemma_env_value_skips(a, entry("BROKER_SANDBOX_NAME"@, sandbox_name), key);
    lemma_env_value_skips(b, services, key);
    lemma_env_value_skips(b + services, control, key);
    lemma_env_value_skips(b + services + control, build, key);
    lemma_without_key(agent_env, key);
    lemma_env_value_skips(b + services + control + build, without_key(agent_env, key), key);
}

/// How far the start of a broker has come.
pub enum LaunchPhase {
    /// Finding out whether a broker listens already.
    Probing,
    /// Waiting for entropy to make a token of.
    Minting,
    /// The broker is being spawned.
    Spawning { token: String },
    /// The broker was spawned; it has until the deadline to listen.
    Waiting { token: String },
    Over,
}

/// What the caller reports back.
pub enum LaunchEvent {
    PortOpen,
    PortClosed,
    Entropy { bytes: [u8; TOKEN_BYTES] },
    Spawned,
    /// The time since the broker was spawned.
    Elapsed { millis: u64 },
    Slept,
}

/// What the caller is to do next.
pub enum LaunchAction {
    /// Try to connect, within `PROBE_TIMEOUT_MILLIS`.
    Probe,
    ReadEntropy,
    Spawn { token: String },
    ReadClock,
    Sleep { millis: u64 },
    /// The broker listens. `None`: it was started by someone else, with a token unknown here.
    Ready { token: Option<String> },
    GiveUp { error: BrokerBootTimeout },
    /// The event does not belong to this phase.
    Nothing,
}

/// A phase, in its texts.
pub enum PhaseModel {
    Probing,
    Minting,
    Spawning(Seq<char>),
    Waiting(Seq<char>),
    Over,
}

/// An action, in its texts.
pub enum ActionModel {
    Probe,
    ReadEntropy,
    Spawn(Seq<char>),
    ReadClock,
    Sleep(u64),
    Ready(Option<Seq<char>>),
    /// The binary, the probed address and the seconds that were waited.
    GiveUp(Seq<char>, Seq<char>, u64),
    Nothing,
}

impl View for LaunchPhase {
    type V = PhaseModel;

    open spec fn view(&self) -> PhaseModel {
        match *self {
            LaunchPhase::Probing => PhaseModel::Probing,
            LaunchPhase::Minting => PhaseModel::Minting,
            LaunchPhase::Spawning { token } => PhaseModel::Spawning(token@),
            LaunchPhase::Waiting { token } => PhaseModel::Waiting(token@),
            LaunchPhase::Over => PhaseModel::Over,
        }
    }
}

impl View for LaunchAction {
    type V = ActionModel;

    open spec fn view(&self) -> ActionModel {
        match *self {
            LaunchAction::Probe => ActionModel::Probe,
            LaunchAction::ReadEntropy => ActionModel::ReadEntropy,
            LaunchAction::Spawn { token } => ActionModel::Spawn(token@),
            LaunchAction::ReadClock => ActionModel::ReadClock,
            LaunchAction::Sleep { millis } => ActionModel::Sleep(millis),
            LaunchAction::Ready { token } => ActionModel::Ready(text::text_opt(token)),
            LaunchAction::GiveUp { error } => ActionModel::GiveUp(
                error.bin@,
                error.probe@,
                error.seconds,
            ),
            LaunchAction::Nothing => ActionModel::Nothing,
        }
    }
}

/// The start of a broker, step by step. One that listens already is left alone, with the
/// operator's token if there is one. Otherwise it is spawned with the operator's token, or with a
/// fresh one, and probed until it listens or the deadline has passed.
pub open spec fn launch_step(
    phase: PhaseModel,
    event: LaunchEvent,
    operator: Option<Seq<char>>,
    bin: Seq<char>,
    bind: Seq<char>,
) -> (PhaseModel, ActionModel) {
    match (phase, event) {
        (PhaseModel::Probing, LaunchEvent::PortOpen) => (
            PhaseModel::Over,
            ActionModel::Ready(usable_token(operator)),
        ),
        (PhaseModel::Probing, LaunchEvent::PortClosed) => match usable_token(operator) {
            Some(token) => (PhaseModel::Spawning(token), ActionModel::Spawn(token)),
            None => (PhaseModel::Minting, ActionModel::ReadEntropy),
        },
        (PhaseModel::Minting, LaunchEvent::Entropy { bytes }) => (
            PhaseModel::Spawning(numeral::hex(bytes@)),
            ActionModel::Spawn(numeral::hex(bytes@)),
        ),
        (PhaseModel::Spawning(token), LaunchEvent::Spawned) => (
            PhaseModel::Waiting(token),
            ActionModel::ReadClock,
        ),
        (PhaseModel::Waiting(token), LaunchEvent::Elapsed { millis }) => if millis < 1000
            * BOOT_TIMEOUT_SECS {
            (PhaseModel::Waiting(token), ActionModel::Probe)
        } else {
            (PhaseModel::Over, ActionModel::GiveUp(bin, probe_address(bind), BOOT_TIMEOUT_SECS))
        },
        (PhaseModel::Waiting(token), LaunchEvent::PortOpen) => (
            PhaseModel::Over,
            ActionModel::Ready(Some(token)),
        ),
        (PhaseModel::Waiting(token), LaunchEvent::PortClosed) => (
            PhaseModel::Waiting(token),
            ActionModel::Sleep(PROBE_INTERVAL_MILLIS),
        ),
        (PhaseModel::Waiting(token), LaunchEvent::Slept) => (
            PhaseModel::Waiting(token),
            ActionModel::ReadClock,
        ),
        _ => (phase, ActionModel::Nothing),
    }
}

/// Takes the start of the broker one step on. The first phase is `Probing` and its action is to
/// probe.
pub fn advance(
    phase: LaunchPhase,
    event: LaunchEvent,
    operator: Option<String>,
    cfg: &BrokerCfg,
) -> (r: (LaunchPhase, LaunchAction))
    ensures
        (r.0@, r.1@) == launch_step(phase@, event, text::text_opt(operator), cfg.bin@, cfg.bind@),
{
    match (phase, event) {
        (LaunchPhase::Probing, LaunchEvent::PortOpen) => (
            LaunchPhase::Over,
            LaunchAction::Ready { token: operator_token(operator) },
        ),
        (LaunchPhase::Probing, LaunchEvent::PortClosed) => match operator_token(operator) {
            Some(token) => (
                LaunchPhase::Spawning { token: token.clone() },
                LaunchAction::Spawn { token },
            ),
            None => (LaunchPhase::Minting, LaunchAction::ReadEntropy),
        },
        (LaunchPhase::Minting, LaunchEvent::Entropy { bytes }) => {
            let token = mint_token(&bytes);
            (LaunchPhase::Spawning { token: token.clone() }, LaunchAction::Spawn { token })
        },
        (LaunchPhase::Spawning { token }, LaunchEvent::Spawned) => (
            LaunchPhase::Waiting { token },
            LaunchAction::ReadClock,
        ),
        (LaunchPhase::Waiting { token }, LaunchEvent::Elapsed { millis }) => if millis < 1000
            * BOOT_TIMEOUT_SECS {
            (LaunchPhase::Waiting { token }, LaunchAction::Probe)
        } else {
            let error = BrokerBootTimeout {
                bin: cfg.bin.clone(),
                probe: probe_addr(cfg.bind.as_str()),
                seconds: BOOT_TIMEOUT_SECS,
            };
            (LaunchPhase::Over, LaunchAction::GiveUp { error })
        },
        (LaunchPhase::Waiting { token }, LaunchEvent::PortOpen) => (
            LaunchPhase::Over,
            LaunchAction::Ready { token: Some(token) },
        ),
        (LaunchPhase::Waiting { token }, LaunchEvent::PortClosed) => (
            LaunchPhase::Waiting { token },
            LaunchAction::Sleep { millis: PROBE_INTERVAL_MILLIS },
        ),
        (LaunchPhase::Waiting { token }, LaunchEvent::Slept) => (
            LaunchPhase::Waiting { token },
            LaunchAction::ReadClock,
        ),
        (phase, _) => (phase, LaunchAction::Nothing),
    }
}

/// The token that a phase carries, once there is one.
pub open spec fn carried_token(phase: PhaseModel) -> Option<Seq<char>> {
    match phase {
        PhaseModel::Spawning(token) => Some(token),
        PhaseModel::Waiting(token) => Some(token),
        _ => None,
    }
}

/// The token a broker is spawned with is the one reported when it is ready: no event replaces it.
pub proof fn spawned_token_is_reported(
    phase: PhaseModel,
    event: LaunchEvent,
    operator: Option<Seq<char>>,
    bin: Seq<char>,
    bind: Seq<char>,
)
    ensures
        ({
            let (next, action) = launch_step(phase, event, operator, bin, bind);
            &&& action matches ActionModel::Spawn(token) ==> carried_token(next) == Some(token)
            &&& carried_token(phase) matches Some(token) ==> {
                ||| carried_token(next) == Some(token)
                ||| action == ActionModel::Ready(Some(token))
                ||| action is GiveUp
            }
        }),
{
}

/// A broker is ready without a known token only where it listened before anything was started and
/// the operator gave none; and it is given up only after the deadline.
pub proof fn open_broker_was_already_listening(
    phase: PhaseModel,
    event: LaunchEvent,
    operator: Option<Seq<char>>,
    bin: Seq<char>,
    bind: Seq<char>,
)
    ensures
        ({
            let (next, action) = launch_step(phase, event, operator, bin, bind);
            &&& action == ActionModel::Ready(None) ==> phase is Probing && event is PortOpen
                && usable_token(operator) is None
            &&& action is GiveUp ==> (event matches LaunchEvent::Elapsed { millis } && millis >= 1000
                * BOOT_TIMEOUT_SECS)
            &&& action is Ready || action is GiveUp ==> next is Over
        }),
{
}

/// Of two lists the later one counts, where it has a value under the name.
proof fn lemma_env_value_concat(
    head: Seq<(Seq<char>, Seq<char>)>,
    tail: Seq<(Seq<char>, Seq<char>)>,
    key: Seq<char>,
)
    ensures
        env_value(head + tail, key) == (if env_value(tail, key) is Some {
            env_value(tail, key)
        } else {
            env_value(head, key)
        }),
        env_value(tail, key) is Some <==> names_key(tail, key),
    decreases tail.len(),
{
    if tail.len() > 0 {
        let init = tail.drop_last();
        lemma_env_value_concat(head, init, key);
        assert((head + tail).drop_last() == head + init);
        assert((head + tail).last() == tail.last());
        if names_key(init, key) {
            let i = choose|i: int| 0 <= i < init.len() && (#[trigger] init[i]).0 == key;
            assert(tail[i].0 == key);
        }
        if names_key(tail, key) && tail.last().0 != key {
            let i = choose|i: int| 0 <= i < tail.len() && (#[trigger] tail[i]).0 == key;
            assert(init[i].0 == key);
        }
        assert(tail[tail.len() - 1] == tail.last());
    } else {
        assert(head + tail == head);
    }
}

/// One more entry counts under its own name only.
proof fn lemma_env_value_entry(
    head: Seq<(Seq<char>, Seq<char>)>,
    name: Seq<char>,
    value: Seq<char>,
    key: Seq<char>,
)
    ensures
        env_value(head + entry(name, value), key) == (if name == key {
            Some(value)
        } else {
            env_value(head, key)
        }),
        env_value(head + Seq::empty(), key) == env_value(head, key),
{
    let whole = head + entry(name, value);
    assert(whole.last() == (name, value));
    assert(whole.drop_last() == head);
    assert(head + Seq::<(Seq<char>, Seq<char>)>::empty() == head);
}

/// What is left out under one name changes nothing under another.
proof fn lemma_without_other_key(list: Seq<(Seq<char>, Seq<char>)>, left_out: Seq<char>, key: Seq<char>)
    requires
        key != left_out,
    ensures
        env_value(without_key(list, left_out), key) == env_value(list, key),
    decreases list.len(),
{
    reveal(Seq::filter);
    if list.len() > 0 {
        let init = list.drop_last();
        lemma_without_other_key(init, left_out, key);
        if list.last().0 != left_out {
            let kept = without_key(init, left_out).push(list.last());
            assert(without_key(list, left_out) == kept);
            assert(kept.drop_last() == without_key(init, left_out));
        }
    }
}

/// The value under a name before the agent's entries are looked at.
proof fn lemma_own_value(
    cfg: BrokerCfg,
    token: Seq<char>,
    sandbox_name: Seq<char>,
    control_port: Option<u16>,
    agent_env: Seq<(Seq<char>, Seq<char>)>,
    key: Seq<char>,
)
    requires
        key != "BROKER_TOKEN"@,
    ensures
        env_value(broker_env(cfg, token, sandbox_name, control_port, agent_env), key) == (
        if names_key(agent_env, key) {
            env_value(agent_env, key)
        } else if cfg.build && key == "BROKER_BUILD"@ {
            Some("1"@)
        } else if control_port is Some && key == "BROKER_CONTROL_ADDR"@ {
            Some("127.0.0.1:"@ + numeral::decimal(control_port->0 as nat))
        } else if cfg.hard_tool@.len() > 0 && key == "BROKER_HARD_TOOLS"@ {
            Some(hard_tools::services_json(cfg.hard_tool@))
        } else if key == "BROKER_SANDBOX_NAME"@ {
            Some(sandbox_name)
        } else if key == "BROKER_BIND"@ {
            Some(cfg.bind@)
        } else if key == "BROKER_NAME"@ {
            Some(cfg.name@)
        } else {
            None
        }),
{
    let none = Seq::<(Seq<char>, Seq<char>)>::empty();
    let name = entry("BROKER_NAME"@, cfg.name@);
    let bind = name + entry("BROKER_BIND"@, cfg.bind@);
    let guarded = bind + entry("BROKER_TOKEN"@, token);
    let placed = guarded + entry("BROKER_SANDBOX_NAME"@, sandbox_name);
    let services_text = hard_tools::services_json(cfg.hard_tool@);
    let served = placed + (if cfg.hard_tool@.len() > 0 {
        entry("BROKER_HARD_TOOLS"@, services_text)
    } else {
        none
    });
    let address = match control_port {
        Some(port) => "127.0.0.1:"@ + numeral::decimal(port as nat),
        None => Seq::empty(),
    };
    let controlled = served + (match control_port {
        Some(port) => entry(
            "BROKER_CONTROL_ADDR"@,
            "127.0.0.1:"@ + numeral::decimal(port as nat),
        ),
        None => none,
    });
    let built = controlled + (if cfg.build {
        entry("BROKER_BUILD"@, "1"@)
    } else {
        none
    });
    assert(none + name == name);
    assert(env_value(none, key) is None);
    lemma_env_value_entry(none, "BROKER_NAME"@, cfg.name@, key);
    lemma_env_value_entry(name, "BROKER_BIND"@, cfg.bind@, key);
    lemma_env_value_entry(bind, "BROKER_TOKEN"@, token, key);
    lemma_env_value_entry(guarded, "BROKER_SANDBOX_NAME"@, sandbox_name, key);
    lemma_env_value_entry(placed, "BROKER_HARD_TOOLS"@, services_text, key);
    lemma_env_value_entry(served, "BROKER_CONTROL_ADDR"@, address, key);
    lemma_env_value_entry(controlled, "BROKER_BUILD"@, "1"@, key);
    lemma_env_value_concat(built, without_key(agent_env, "BROKER_TOKEN"@), key);
    lemma_without_other_key(agent_env, "BROKER_TOKEN"@, key);
    lemma_env_value_concat(none, agent_env, key);
}

/// The names that the broker is configured under are seven different ones.
proof fn lemma_keys_differ()
    ensures
        "BROKER_NAME"@ != "BROKER_BIND"@,
        "BROKER_NAME"@.len() == 11,
        "BROKER_BIND"@.len() == 11,
        "BROKER_TOKEN"@.len() == 12,
        "BROKER_BUILD"@.len() == 12,
        "BROKER_TOKEN"@ != "BROKER_BUILD"@,
        "BROKER_SANDBOX_NAME"@.len() == 19,
        "BROKER_HARD_TOOLS"@.len() == 17,
        "BROKER_CONTROL_ADDR"@.len() == 19,
        "BROKER_SANDBOX_NAME"@ != "BROKER_CONTROL_ADDR"@,
{
    reveal_strlit("BROKER_NAME");
    reveal_strlit("BROKER_BIND");
    reveal_strlit("BROKER_TOKEN");
    reveal_strlit("BROKER_BUILD");
    reveal_strlit("BROKER_SANDBOX_NAME");
    reveal_strlit("BROKER_HARD_TOOLS");
    reveal_strlit("BROKER_CONTROL_ADDR");
    assert("BROKER_NAME"@[7] != "BROKER_BIND"@[7]);
    assert("BROKER_TOKEN"@[7] != "BROKER_BUILD"@[7]);
    assert("BROKER_SANDBOX_NAME"@[7] != "BROKER_CONTROL_ADDR"@[7]);
}

/// Where the agent's environment does not name the key itself, the broker's process sees its
/// configuration: the configured name and bind address, the sandbox's name, the configured
/// services where there are any, the loopback address with the control port where there is one,
/// and `1` for a broker that builds. What is not configured is not set.
pub proof fn broker_sees_its_configuration(
    cfg: BrokerCfg,
    token: Seq<char>,
    sandbox_name: Seq<char>,
    control_port: Option<u16>,
    agent_env: Seq<(Seq<char>, Seq<char>)>,
)
    ensures
        ({
            let env = broker_env(cfg, token, sandbox_name, control_port, agent_env);
            &&& !names_key(agent_env, "BROKER_NAME"@) ==> env_value(env, "BROKER_NAME"@) == Some(
                cfg.name@,
            )
            &&& !names_key(agent_env, "BROKER_BIND"@) ==> env_value(env, "BROKER_BIND"@) == Some(
                cfg.bind@,
            )
            &&& !names_key(agent_env, "BROKER_SANDBOX_NAME"@) ==> env_value(
                env,
                "BROKER_SANDBOX_NAME"@,
            ) == Some(sandbox_name)
            &&& !names_key(agent_env, "BROKER_HARD_TOOLS"@) ==> env_value(env, "BROKER_HARD_TOOLS"@)
                == (if cfg.hard_tool@.len() > 0 {
                Some(hard_tools::services_json(cfg.hard_tool@))
            } else {
                None
            })
            &&& !names_key(agent_env, "BROKER_CONTROL_ADDR"@) ==> env_value(
                env,
                "BROKER_CONTROL_ADDR"@,
            ) == (match control_port {
                Some(port) => Some("127.0.0.1:"@ + numeral::decimal(port as nat)),
                None => None,
            })
            &&& !names_key(agent_env, "BROKER_BUILD"@) ==> env_value(env, "BROKER_BUILD"@) == (
            if cfg.build {
                Some("1"@)
            } else {
                None
            })
        }),
{
    lemma_keys_differ();
    lemma_own_value(cfg, token, sandbox_name, control_port, agent_env, "BROKER_NAME"@);
    lemma_own_value(cfg, token, sandbox_name, control_port, agent_env, "BROKER_BIND"@);
    lemma_own_value(cfg, token, sandbox_name, control_port, agent_env, "BROKER_SANDBOX_NAME"@);
    lemma_own_value(cfg, token, sandbox_name, control_port, agent_env, "BROKER_HARD_TOOLS"@);
    lemma_own_value(cfg, token, sandbox_name, control_port, agent_env, "BROKER_CONTROL_ADDR"@);
    lemma_own_value(cfg, token, sandbox_name, control_port, agent_env, "BROKER_BUILD"@);
}

/// What the agent's environment sets, the broker's process sees as it was set, the token apart; and
/// a name that neither the agent nor the broker's configuration knows is not set at all.
pub proof fn agent_environment_reaches_the_broker(
    cfg: BrokerCfg,
    token: Seq<char>,
    sandbox_name: Seq<char>,
    control_port: Option<u16>,
    agent_env: Seq<(Seq<char>, Seq<char>)>,
    key: Seq<char>,
)
    requires
        key != "BROKER_TOKEN"@,
    ensures
        ({
            let env = broker_env(cfg, token, sandbox_name, control_port, agent_env);
            &&& names_key(agent_env, key) ==> env_value(env, key) == env_value(agent_env, key)
            &&& !names_key(agent_env, key) && env_value(env, key) is Some ==> (key == "BROKER_NAME"@
                || key == "BROKER_BIND"@ || key == "BROKER_SANDBOX_NAME"@ || key
                == "BROKER_HARD_TOOLS"@ || key == "BROKER_CONTROL_ADDR"@ || key == "BROKER_BUILD"@)
        }),
{
    lemma_own_value(cfg, token, sandbox_name, control_port, agent_env, key);
}

/// One port throughout: where the bind address is a listening host and a port, that port is the one
/// the broker is told to bind, the one that is probed on loopback, and the one of the URL that the
/// sandbox is given with the driver's host.
pub proof fn broker_is_probed_and_reached_where_it_listens(
    cfg: BrokerCfg,
    token: Seq<char>,
    sandbox_name: Seq<char>,
    control_port: Option<u16>,
    agent_env: Seq<(Seq<char>, Seq<char>)>,
    listen: Seq<char>,
    port: Seq<char>,
    host: Seq<char>,
)
    requires
        cfg.bind@ == listen + ":"@ + port,
        !port.contains(':'),
        !names_key(agent_env, "BROKER_BIND"@),
    ensures
        env_value(
            broker_env(cfg, token, sandbox_name, control_port, agent_env),
            "BROKER_BIND"@,
        ) == Some(listen + ":"@ + port),
        probe_address(cfg.bind@) == "127.0.0.1:"@ + port,
        broker::broker_url(None, cfg.bind@, host) == "http://"@ + host + ":"@ + port + "/mcp"@,
{
    broker_sees_its_configuration(cfg, token, sandbox_name, control_port, agent_env);
    ports_agree(listen, port, host);
}

/// A bind address without a port separator is probed as it is.
pub proof fn bare_bind_address_is_probed_as_it_is(bind: Seq<char>)
    requires
        !bind.contains(':'),
    ensures
        probe_address(bind) == bind,
        broker::port_text(bind) == bind,
{
}

/// The phase that a sequence of events leads to.
pub open spec fn launch_phase(
    phase: PhaseModel,
    events: Seq<LaunchEvent>,
    operator: Option<Seq<char>>,
    bin: Seq<char>,
    bind: Seq<char>,
) -> PhaseModel
    decreases events.len(),
{
    if events.len() == 0 {
        phase
    } else {
        launch_step(
            launch_phase(phase, events.drop_last(), operator, bin, bind),
            events.last(),
            operator,
            bin,
            bind,
        ).0
    }
}

/// Rounds of waiting in which nothing listened, at the given times since the broker was spawned.
pub open spec fn silent_rounds(times: Seq<u64>) -> Seq<LaunchEvent>
    decreases times.len(),
{
    if times.len() == 0 {
        Seq::empty()
    } else {
        silent_rounds(times.drop_last()).push(LaunchEvent::Elapsed { millis: times.last() }).push(
            LaunchEvent::PortClosed,
        ).push(LaunchEvent::Slept)
    }
}

/// A broker that was spawned is waited for through any number of silent rounds within five
/// seconds, a tenth of a second apart: as soon as the port opens it is ready, with the token it was
/// spawned with. After five seconds it is given up, with the binary and the probed address.
pub proof fn broker_is_awaited_for_five_seconds(
    token: Seq<char>,
    times: Seq<u64>,
    millis: u64,
    operator: Option<Seq<char>>,
    bin: Seq<char>,
    bind: Seq<char>,
)
    requires
        forall|i: int| 0 <= i < times.len() ==> #[trigger] times[i] < 5000,
    ensures
        ({
            let phase = launch_phase(
                PhaseModel::Waiting(token),
                silent_rounds(times),
                operator,
                bin,
                bind,
            );
            &&& launch_step(phase, LaunchEvent::PortOpen, operator, bin, bind) == (
                PhaseModel::Over,
                ActionModel::Ready(Some(token)),
            )
            &&& launch_step(phase, LaunchEvent::PortClosed, operator, bin, bind) == (
                phase,
                ActionModel::Sleep(100),
            )
            &&& launch_step(phase, LaunchEvent::Slept, operator, bin, bind) == (
                phase,
                ActionModel::ReadClock,
            )
            &&& launch_step(phase, LaunchEvent::Elapsed { millis }, operator, bin, bind) == (
            if millis < 5000 {
                (phase, ActionModel::Probe)
            } else {
                (PhaseModel::Over, ActionModel::GiveUp(bin, probe_address(bind), 5))
            })
        }),
    decreases times.len(),
{
    if times.len() > 0 {
        let init = times.drop_last();
        assert forall|i: int| 0 <= i < init.len() implies #[trigger] init[i] < 5000 by {
            assert(init[i] == times[i]);
        }
        assert(times[times.len() - 1] < 5000);
        broker_is_awaited_for_five_seconds(token, init, times.last(), operator, bin, bind);
        let before = silent_rounds(init);
        let clock = before.push(LaunchEvent::Elapsed { millis: times.last() });
        let closed = clock.push(LaunchEvent::PortClosed);
        let slept = closed.push(LaunchEvent::Slept);
        assert(silent_rounds(times) == slept);
        assert(slept.drop_last() == closed);
        assert(closed.drop_last() == clock);
        assert(clock.drop_last() == before);
        let start = PhaseModel::Waiting(token);
        let phase = launch_phase(start, before, operator, bin, bind);
        assert(launch_phase(start, clock, operator, bin, bind) == phase);
        assert(launch_phase(start, closed, operator, bin, bind) == phase);
        assert(launch_phase(start, slept, operator, bin, bind) == phase);
    }
}

/// How a start begins. A port that is open already belongs to a broker that is left alone, with
/// the operator's token if that is not empty. Where it is closed, a broker is spawned: with the
/// operator's token, and without one with 48 hexadecimal digits of fresh entropy; and that is the
/// token it is waited for with.
pub proof fn closed_port_gets_a_broker(
    operator: Option<Seq<char>>,
    entropy: [u8; TOKEN_BYTES],
    bin: Seq<char>,
    bind: Seq<char>,
)
    ensures
        ({
            let given = operator is Some && (operator->0).len() > 0;
            let start = PhaseModel::Probing;
            let entered = LaunchEvent::Entropy { bytes: entropy };
            &&& launch_step(start, LaunchEvent::PortOpen, operator, bin, bind) == (
                PhaseModel::Over,
                ActionModel::Ready(
                    if given {
                        operator
                    } else {
                        None
                    },
                ),
            )
            &&& given ==> {
                &&& launch_step(start, LaunchEvent::PortClosed, operator, bin, bind).1
                    == ActionModel::Spawn(operator->0)
                &&& launch_phase(
                    start,
                    seq![LaunchEvent::PortClosed, LaunchEvent::Spawned],
                    operator,
                    bin,
                    bind,
                ) == PhaseModel::Waiting(operator->0)
            }
            &&& !given ==> {
                let minting = launch_step(start, LaunchEvent::PortClosed, operator, bin, bind).0;
                &&& launch_step(start, LaunchEvent::PortClosed, operator, bin, bind).1
                    == ActionModel::ReadEntropy
                &&& launch_step(minting, entered, operator, bin, bind).1 == ActionModel::Spawn(
                    numeral::hex(entropy@),
                )
                &&& launch_phase(
                    start,
                    seq![LaunchEvent::PortClosed, entered, LaunchEvent::Spawned],
                    operator,
                    bin,
                    bind,
                ) == PhaseModel::Waiting(numeral::hex(entropy@))
                &&& numeral::hex(entropy@).len() == 48
            }
        }),
{
    let start = PhaseModel::Probing;
    let entered = LaunchEvent::Entropy { bytes: entropy };
    let closed = seq![LaunchEvent::PortClosed];
    let two = seq![LaunchEvent::PortClosed, LaunchEvent::Spawned];
    let minted = seq![LaunchEvent::PortClosed, entered];
    let three = seq![LaunchEvent::PortClosed, entered, LaunchEvent::Spawned];
    assert(closed.drop_last() == Seq::<LaunchEvent>::empty());
    assert(two.drop_last() == closed);
    assert(minted.drop_last() == closed);
    assert(three.drop_last() == minted);
    assert(launch_phase(start, Seq::empty(), operator, bin, bind) == start);
    assert(launch_phase(start, closed, operator, bin, bind) == launch_step(
        start,
        LaunchEvent::PortClosed,
        operator,
        bin,
        bind,
    ).0);
    assert(launch_phase(start, minted, operator, bin, bind) == launch_step(
        launch_phase(start, closed, operator, bin, bind),
        entered,
        operator,
        bin,
        bind,
    ).0);
    numeral::hex_is_lower_case_pairs(entropy@);
}

/// A start that is over stays over, and an event that does not belong to the phase changes nothing.
pub proof fn finished_start_stays_finished(
    event: LaunchEvent,
    operator: Option<Seq<char>>,
    bin: Seq<char>,
    bind: Seq<char>,
)
    ensures
        launch_step(PhaseModel::Over, event, operator, bin, bind) == (
            PhaseModel::Over,
            ActionModel::Nothing,
        ),
{
}

/// Whether an event is one that the phase waits for.
pub open spec fn belongs(phase: PhaseModel, event: LaunchEvent) -> bool {
    match phase {
        PhaseModel::Probing => event is PortOpen || event is PortClosed,
        PhaseModel::Minting => event is Entropy,
        PhaseModel::Spawning(_) => event is Spawned,
        PhaseModel::Waiting(_) => event is Elapsed || event is PortOpen || event is PortClosed
            || event is Slept,
        PhaseModel::Over => false,
    }
}

/// An event that the phase does not wait for changes nothing and asks for nothing; any other asks
/// for something. Once the broker is spawned the clock is read.
pub proof fn only_awaited_events_count(
    phase: PhaseModel,
    event: LaunchEvent,
    token: Seq<char>,
    operator: Option<Seq<char>>,
    bin: Seq<char>,
    bind: Seq<char>,
)
    ensures
        !belongs(phase, event) ==> launch_step(phase, event, operator, bin, bind) == (
            phase,
            ActionModel::Nothing,
        ),
        belongs(phase, event) ==> launch_step(phase, event, operator, bin, bind).1
            != ActionModel::Nothing,
        launch_step(PhaseModel::Spawning(token), LaunchEvent::Spawned, operator, bin, bind) == (
            PhaseModel::Waiting(token),
            ActionModel::ReadClock,
        ),
{
}

/// The port of a bind address is that of the probe address and of the URL for the sandbox.
pub proof fn ports_agree(listen: Seq<char>, port: Seq<char>, host: Seq<char>)
    requires
        !port.contains(':'),
    ensures
        probe_address(listen + ":"@ + port) == "127.0.0.1:"@ + port,
        broker::broker_url(None, listen + ":"@ + port, host) == "http://"@ + host + ":"@ + port
            + "/mcp"@,
{
    let bind = listen + ":"@ + port;
    broker::port_follows_the_last_colon(listen, port, host);
    assert(bind.contains(':')) by {
        reveal_strlit(":");
        assert(bind[listen.len() as int] == ':');
    }
    assert(bind.skip(text::last_index_of(bind, ':') + 1) == broker::port_text(bind));
}

/// A phase and an action are spoken of by the token, the time and the outcome that they hold.
pub proof fn steps_are_seen_as_they_are(
    token: String,
    millis: u64,
    ready: Option<String>,
    error: BrokerBootTimeout,
)
    ensures
        (LaunchPhase::Spawning { token })@ == PhaseModel::Spawning(token@),
        (LaunchPhase::Waiting { token })@ == PhaseModel::Waiting(token@),
        LaunchPhase::Probing@ == PhaseModel::Probing,
        LaunchPhase::Minting@ == PhaseModel::Minting,
        LaunchPhase::Over@ == PhaseModel::Over,
        (LaunchAction::Spawn { token })@ == ActionModel::Spawn(token@),
        (LaunchAction::Sleep { millis })@ == ActionModel::Sleep(millis),
        (LaunchAction::Ready { token: ready })@ == ActionModel::Ready(text::text_opt(ready)),
        (LaunchAction::GiveUp { error })@ == ActionModel::GiveUp(
            error.bin@,
            error.probe@,
            error.seconds,
        ),
        LaunchAction::Probe@ == ActionModel::Probe,
        LaunchAction::ReadEntropy@ == ActionModel::ReadEntropy,
        LaunchAction::ReadClock@ == ActionModel::ReadClock,
        LaunchAction::Nothing@ == ActionModel::Nothing,
{
}

} // verus!
