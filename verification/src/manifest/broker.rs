use vstd::prelude::*;

use crate::manifest::hard_tools::HardToolCfg;
use crate::numeral;
use crate::text;

verus! {

/// A broker URL with nothing between the scheme and the path.
#[derive(Debug)]
pub struct EmptyBrokerAuthority {
    pub url: String,
}

/// Why a broker URL names no endpoint.
#[derive(Debug)]
pub enum BrokerUrlError {
    /// Neither `http://` nor `https://`.
    BadScheme { url: String },
    EmptyAuthority(EmptyBrokerAuthority),
    /// What follows the port separator is no port number.
    InvalidPort { url: String },
}

/// The loop-pod provisioning broker. When `enabled`, it is spawned as a run-lifetime child and
/// seeded into the sandbox's tool configuration. The host the sandbox reaches it by comes from the
/// compute driver, so a domain never names the transport.
#[derive(Clone, Debug)]
pub struct BrokerCfg {
    pub enabled: bool,
    /// Where the broker listens: `0.0.0.0:<port>`, so that the sandbox reaches it on the bridge.
    pub bind: String,
    /// An explicit address, honoured verbatim. Where there is none, the address is the compute
    /// driver's host and the port of `bind`.
    pub url: Option<String>,
    /// The server name seeded into the sandbox; it becomes the prefix of the agent's tools.
    pub name: String,
    /// The broker binary to spawn. Required when `enabled`.
    pub bin: String,
    /// Expose the build and deploy tools to the agent.
    pub build: bool,
    /// The nm-hard-tools services aggregated behind this broker.
    pub hard_tool: Vec<HardToolCfg>,
}

impl Default for BrokerCfg {
    fn default() -> (r: Self)
        ensures
            !r.enabled,
            r.bind@ == "0.0.0.0:8849"@,
            r.url is None,
            r.name@ == "broker"@,
            r.bin@ == Seq::<char>::empty(),
            !r.build,
            r.hard_tool@ == Seq::<HardToolCfg>::empty(),
    {
        BrokerCfg {
            enabled: false,
            bind: default_broker_bind(),
            url: None,
            name: default_broker_name(),
            bin: String::new(),
            build: false,
            hard_tool: Vec::new(),
        }
    }
}

/// All interfaces, port 8849.
pub fn default_broker_bind() -> (r: String)
    ensures
        r@ == "0.0.0.0:8849"@,
{
    "0.0.0.0:8849".to_owned()
}

/// `broker`.
pub fn default_broker_name() -> (r: String)
    ensures
        r@ == "broker"@,
{
    "broker".to_owned()
}

/// What follows the last colon of a bind address, or all of it where it has no colon.
pub open spec fn port_text(bind: Seq<char>) -> Seq<char> {
    if bind.contains(':') {
        bind.skip(text::last_index_of(bind, ':') + 1)
    } else {
        bind
    }
}

/// The broker port: the part of `bind` after its last colon. Without a colon, `bind` itself.
pub fn broker_port(bind: &str) -> (r: &str)
    ensures
        r@ == port_text(bind@),
{
    let chars = text::chars_of(bind);
    let end: usize = chars.len();
    proof {
        text::lemma_last_index_of(chars@, ':');
    }
    match text::rfind_char(&chars, ':') {
        Some(i) => bind.substring_char(i + 1, end),
        None => bind,
    }
}

/// The URL the sandbox reaches the broker by, over the explicit URL, the bind address and the
/// driver's host.
pub open spec fn broker_url(explicit: Option<Seq<char>>, bind: Seq<char>, host: Seq<char>) -> Seq<
    char,
> {
    match explicit {
        Some(url) => url,
        None => "http://"@ + host + ":"@ + port_text(bind) + "/mcp"@,
    }
}

/// The URL the sandbox will use: the explicit one verbatim, else the driver's host with the port
/// of the bind address.
pub fn resolve_broker_url(cfg: &BrokerCfg, host: &str) -> (r: String)
    ensures
        r@ == broker_url(text::text_opt(cfg.url), cfg.bind@, host@),
{
    match &cfg.url {
        Some(explicit) => explicit.clone(),
        None => {
            let start = text::concat3("http://", host, ":");
            text::concat3(start.as_str(), broker_port(cfg.bind.as_str()), "/mcp")
        },
    }
}

/// Where the first `]:` stands, or -1 where there is none.
pub open spec fn bracket_end(s: Seq<char>) -> int
    decreases s.len(),
{
    if s.len() < 2 {
        -1
    } else if s[0] == ']' && s[1] == ':' {
        0
    } else {
        let later = bracket_end(s.drop_first());
        if later < 0 {
            -1
        } else {
            1 + later
        }
    }
}

/// The scheme prefix of a URL, with the port that goes without saying.
pub open spec fn scheme(url: Seq<char>) -> Option<(Seq<char>, u16)> {
    if "https://"@.is_prefix_of(url) {
        Some(("https://"@, 443))
    } else if "http://"@.is_prefix_of(url) {
        Some(("http://"@, 80))
    } else {
        None
    }
}

/// What stands between the scheme and the path.
pub open spec fn authority(url: Seq<char>, prefix: Seq<char>) -> Seq<char> {
    let rest = url.skip(prefix.len() as int);
    rest.take(text::first_index_of(rest, '/'))
}

/// An authority as host and port. A bracketed literal has its port behind `]:`; in any other
/// authority a colon always separates the port and is never part of the host, so that a second
/// one makes the port none. `None` where the port is no port number.
pub open spec fn host_and_port(authority: Seq<char>, default_port: u16) -> Option<(Seq<char>, u16)> {
    if authority[0] == '[' {
        let end = bracket_end(authority);
        if end < 0 {
            Some((authority, default_port))
        } else {
            match numeral::port_of(authority.skip(end + 2)) {
                Some(port) => Some((authority.take(end + 1), port)),
                None => None,
            }
        }
    } else if authority.contains(':') {
        let colon = text::first_index_of(authority, ':');
        match numeral::port_of(authority.skip(colon + 1)) {
            Some(port) => Some((authority.take(colon), port)),
            None => None,
        }
    } else {
        Some((authority, default_port))
    }
}

/// An allowlist entry with full access.
pub open spec fn endpoint_text(host: Seq<char>, port: u16) -> Seq<char> {
    host + ":"@ + numeral::decimal(port as nat) + ":full"@
}

/// Why a URL names no endpoint.
pub enum BrokerUrlFault {
    BadScheme,
    EmptyAuthority,
    InvalidPort,
}

/// The endpoint that a broker URL names.
pub open spec fn endpoint(url: Seq<char>) -> Result<Seq<char>, BrokerUrlFault> {
    match scheme(url) {
        None => Err(BrokerUrlFault::BadScheme),
        Some((prefix, default_port)) => {
            let authority = authority(url, prefix);
            if authority.len() == 0 {
                Err(BrokerUrlFault::EmptyAuthority)
            } else {
                match host_and_port(authority, default_port) {
                    Some((host, port)) => Ok(endpoint_text(host, port)),
                    None => Err(BrokerUrlFault::InvalidPort),
                }
            }
        },
    }
}

/// What an error says of a broker URL.
pub open spec fn url_fault_message(fault: BrokerUrlFault, url: Seq<char>) -> Seq<char> {
    match fault {
        BrokerUrlFault::BadScheme => "broker URL must start with http:// or https://, got "@
            + text::debug_text(url),
        BrokerUrlFault::EmptyAuthority => "broker URL has an empty authority: "@
            + text::debug_text(url),
        BrokerUrlFault::InvalidPort => "invalid port in broker URL "@ + text::debug_text(url),
    }
}

impl BrokerUrlError {
    pub open spec fn fault(self) -> BrokerUrlFault {
        match self {
            BrokerUrlError::BadScheme { .. } => BrokerUrlFault::BadScheme,
            BrokerUrlError::EmptyAuthority(_) => BrokerUrlFault::EmptyAuthority,
            BrokerUrlError::InvalidPort { .. } => BrokerUrlFault::InvalidPort,
        }
    }

    /// The URL that was refused.
    pub open spec fn subject(self) -> Seq<char> {
        match self {
            BrokerUrlError::BadScheme { url } => url@,
            BrokerUrlError::EmptyAuthority(e) => e.url@,
            BrokerUrlError::InvalidPort { url } => url@,
        }
    }

    /// The error in words.
    pub fn message(&self) -> (r: String)
        ensures
            r@ == url_fault_message(self.fault(), self.subject()),
    {
        match self {
            BrokerUrlError::BadScheme { url } => text::concat2(
                "broker URL must start with http:// or https://, got ",
                text::debug_of(url.as_str()).as_str(),
            ),
            BrokerUrlError::EmptyAuthority(e) => e.message(),
            BrokerUrlError::InvalidPort { url } => text::concat2(
                "invalid port in broker URL ",
                text::debug_of(url.as_str()).as_str(),
            ),
        }
    }
}

impl EmptyBrokerAuthority {
    /// The error in words.
    pub fn message(&self) -> (r: String)
        ensures
            r@ == "broker URL has an empty authority: "@ + text::debug_text(self.url@),
    {
        text::concat2(
            "broker URL has an empty authority: ",
            text::debug_of(self.url.as_str()).as_str(),
        )
    }
}

/// The position of the first `]:`.
fn find_bracket_end(chars: &Vec<char>) -> (r: Option<usize>)
    ensures
        match r {
            Some(i) => i == bracket_end(chars@) && i + 1 < chars@.len(),
            None => bracket_end(chars@) == -1,
        },
{
    let mut i: usize = 0;
    assert(chars@.skip(0) == chars@);
    while i < chars.len() && i + 1 < chars.len()
        invariant
            i <= chars@.len(),
            bracket_end(chars@) == (if bracket_end(chars@.skip(i as int)) < 0 {
                -1
            } else {
                i + bracket_end(chars@.skip(i as int))
            }),
        decreases chars@.len() - i,
    {
        if chars[i] == ']' && chars[i + 1] == ':' {
            assert(bracket_end(chars@.skip(i as int)) == 0);
            return Some(i);
        }
        assert(chars@.skip(i as int).drop_first() == chars@.skip(i + 1));
        i = i + 1;
    }
    None
}

/// The broker endpoint as `host:port:access`, for the egress allowlist. It is derived from the
/// URL that the sandbox contacts, so the two cannot disagree.
pub fn broker_endpoint_from_url(url: &str) -> (r: Result<String, BrokerUrlError>)
    ensures
        match r {
            Ok(text) => endpoint(url@) == Ok::<Seq<char>, BrokerUrlFault>(text@),
            Err(e) => endpoint(url@) == Err::<Seq<char>, BrokerUrlFault>(e.fault()) && e.subject()
                == url@,
        },
{
    let all = text::chars_of(url);
    proof {
        reveal_strlit("https://");
        reveal_strlit("http://");
    }
    let (from, default_port): (usize, u16) = if text::starts_with(&all, "https://") {
        (8, 443)
    } else if text::starts_with(&all, "http://") {
        (7, 80)
    } else {
        return Err(BrokerUrlError::BadScheme { url: url.to_owned() });
    };
    let slash: usize = text::find_char(&all, from, '/');
    let ghost auth = authority(url@, (scheme(url@)->0).0);
    assert(all@.subrange(from as int, slash as int) == auth);
    if from == slash {
        return Err(
            BrokerUrlError::EmptyAuthority(EmptyBrokerAuthority { url: url.to_owned() }),
        );
    }
    let authority_text = text::text_between(&all, from, slash);
    let chars = text::chars_of(authority_text.as_str());
    let cut: Option<(usize, usize)> = if chars[0] == '[' {
        match find_bracket_end(&chars) {
            Some(end) => Some((end + 1, end + 2)),
            None => None,
        }
    } else {
        let colon: usize = text::find_char(&chars, 0, ':');
        proof {
            assert(chars@.skip(0) == chars@);
            text::lemma_first_index_of(chars@, ':');
        }
        if colon < chars.len() {
            Some((colon, colon + 1))
        } else {
            None
        }
    };
    let (host, port): (String, u16) = match cut {
        Some((host_end, port_start)) => {
            let port_chars = text::text_between(&chars, port_start, chars.len());
            assert(port_chars@ == auth.skip(port_start as int));
            match numeral::parse_port(port_chars.as_str()) {
                Some(port) => {
                    let host = text::text_between(&chars, 0, host_end);
                    assert(host@ == auth.take(host_end as int));
                    (host, port)
                },
                None => return Err(BrokerUrlError::InvalidPort { url: url.to_owned() }),
            }
        },
        None => (authority_text, default_port),
    };
    let head = text::concat2(host.as_str(), ":");
    Ok(text::concat3(head.as_str(), numeral::decimal_text(port as u64).as_str(), ":full"))
}

/// Whether `url` addresses `host` on `port`: the scheme, then the host, then either a port that
/// spells `port` or nothing where `port` is the scheme's own, then the path.
pub open spec fn addresses(url: Seq<char>, host: Seq<char>, port: u16) -> bool {
    exists|prefix: Seq<char>, spelled: Seq<char>, path: Seq<char>|
        {
            &&& #[trigger] spells(url, host, prefix, spelled, path)
            &&& prefix == "https://"@ || prefix == "http://"@
            &&& path.len() > 0 ==> path[0] == '/'
            &&& if spelled.len() == 0 {
                port == (if prefix == "https://"@ {
                    443u16
                } else {
                    80
                })
            } else {
                spelled[0] == ':' && numeral::port_of(spelled.drop_first()) == Some(port)
            }
        }
}

/// `url` in its four parts.
pub open spec fn spells(
    url: Seq<char>,
    host: Seq<char>,
    prefix: Seq<char>,
    spelled: Seq<char>,
    path: Seq<char>,
) -> bool {
    url == prefix + host + spelled + path
}

proof fn lemma_bracket_end(s: Seq<char>)
    ensures
        -1 <= bracket_end(s),
        bracket_end(s) >= 0 ==> bracket_end(s) + 1 < s.len() && s[bracket_end(s)] == ']' && s[
        bracket_end(s) + 1] == ':',
    decreases s.len(),
{
    if s.len() >= 2 && !(s[0] == ']' && s[1] == ':') {
        lemma_bracket_end(s.drop_first());
    }
}

/// The first `]:` is not behind any other.
proof fn lemma_bracket_end_first(s: Seq<char>, i: int)
    requires
        0 <= i,
        i + 1 < s.len(),
        s[i] == ']',
        s[i + 1] == ':',
    ensures
        0 <= bracket_end(s) <= i,
    decreases s.len(),
{
    lemma_bracket_end(s);
    if !(s[0] == ']' && s[1] == ':') {
        lemma_bracket_end_first(s.drop_first(), i - 1);
    }
}

/// An authority is its host, then its port where it has one.
proof fn lemma_authority_in_parts(authority: Seq<char>, default_port: u16)
    requires
        authority.len() > 0,
        host_and_port(authority, default_port) is Some,
    ensures
        ({
            let (host, port) = host_and_port(authority, default_port)->0;
            let spelled = authority.skip(host.len() as int);
            &&& authority == host + spelled
            &&& if spelled.len() == 0 {
                port == default_port
            } else {
                spelled[0] == ':' && numeral::port_of(spelled.drop_first()) == Some(port)
            }
        }),
{
    let (host, port) = host_and_port(authority, default_port)->0;
    let spelled = authority.skip(host.len() as int);
    lemma_bracket_end(authority);
    text::lemma_first_index_of(authority, ':');
    if authority[0] == '[' {
        let end = bracket_end(authority);
        if end >= 0 {
            assert(spelled.drop_first() == authority.skip(end + 2));
        }
    } else if authority.contains(':') {
        let colon = text::first_index_of(authority, ':');
        assert(spelled.drop_first() == authority.skip(colon + 1));
    }
    assert(authority == host + spelled);
}

/// A URL is its scheme, its authority and its path.
proof fn lemma_url_in_parts(url: Seq<char>)
    requires
        scheme(url) is Some,
    ensures
        ({
            let prefix = (scheme(url)->0).0;
            let auth = authority(url, prefix);
            let path = url.skip((prefix.len() + auth.len()) as int);
            &&& url == prefix + auth + path
            &&& path.len() > 0 ==> path[0] == '/'
        }),
{
    let prefix = (scheme(url)->0).0;
    let rest = url.skip(prefix.len() as int);
    let auth = authority(url, prefix);
    let path = url.skip((prefix.len() + auth.len()) as int);
    text::lemma_first_index_of(rest, '/');
    assert(prefix == url.subrange(0, prefix.len() as int));
    assert(path == rest.skip(auth.len() as int));
    assert(url == prefix + auth + path);
}

/// The host of an authority is in brackets or without a colon.
proof fn lemma_host_of_authority(authority: Seq<char>, default_port: u16)
    requires
        authority.len() > 0,
        host_and_port(authority, default_port) is Some,
    ensures
        ({
            let host = (host_and_port(authority, default_port)->0).0;
            bracketed(host) || !host.contains(':')
        }),
{
    lemma_bracket_end(authority);
    text::lemma_first_index_of(authority, ':');
}

/// Whether a text begins with a bracket.
pub open spec fn bracketed(host: Seq<char>) -> bool {
    host.len() > 0 && host[0] == '['
}

/// An endpoint names the host and the port that its URL addresses, and nothing else. Its host is in
/// brackets or without a colon, so that the endpoint has three fields.
#[verifier::spinoff_prover]
pub proof fn endpoint_agrees_with_url(url: Seq<char>)
    requires
        endpoint(url) is Ok,
    ensures
        exists|host: Seq<char>, port: u16|
            #[trigger] addresses(url, host, port) && endpoint(url) == Ok::<Seq<char>, BrokerUrlFault>(
                endpoint_text(host, port),
            ) && (bracketed(host) || !host.contains(':')),
{
    let (prefix, default_port) = scheme(url)->0;
    let auth = authority(url, prefix);
    let (host, port) = host_and_port(auth, default_port)->0;
    let spelled = auth.skip(host.len() as int);
    let path = url.skip((prefix.len() + auth.len()) as int);
    lemma_url_in_parts(url);
    lemma_authority_in_parts(auth, default_port);
    lemma_host_of_authority(auth, default_port);
    assert(spells(url, host, prefix, spelled, path)) by {
        assert(prefix + (host + spelled) + path == prefix + host + spelled + path);
    }
    assert("https://"@ != "http://"@) by {
        reveal_strlit("https://");
        reveal_strlit("http://");
    }
    assert(addresses(url, host, port));
}

/// A port number holds neither a slash nor a colon.
proof fn lemma_port_characters(port: Seq<char>, i: int)
    requires
        numeral::port_of(port) is Some,
        0 <= i < port.len(),
    ensures
        port[i] != '/',
        port[i] != ':',
{
    let digits = numeral::unsigned_digits(port);
    if port[0] == '+' {
        if i > 0 {
            assert(digits[i - 1] == port[i]);
            assert(numeral::is_digit(digits[i - 1]));
        }
    } else {
        assert(numeral::is_digit(digits[i]));
    }
}

/// Whether a host can stand before a port: one in brackets is bracketed as a whole, and any other
/// is without a colon.
pub open spec fn host_form(host: Seq<char>) -> bool {
    if bracketed(host) {
        host.last() == ']' && bracket_end(host) < 0
    } else {
        !host.contains(':')
    }
}

/// Where the port of a bracketed host begins.
proof fn lemma_bracketed_then_port(host: Seq<char>, spelled: Seq<char>)
    requires
        bracketed(host),
        host_form(host),
    ensures
        bracket_end(host + seq![':'] + spelled) == host.len() - 1,
{
    let whole = host + seq![':'] + spelled;
    let colon = host.len() as int;
    assert(whole[colon] == ':');
    assert(whole[colon - 1] == ']');
    lemma_bracket_end_first(whole, colon - 1);
    lemma_bracket_end(whole);
    let end = bracket_end(whole);
    if end < colon - 1 {
        assert(host[end] == whole[end]);
        assert(host[end + 1] == whole[end + 1]);
        lemma_bracket_end_first(host, end);
    }
}

/// Where the port of any other host begins.
proof fn lemma_bare_then_port(host: Seq<char>, spelled: Seq<char>)
    requires
        !host.contains(':'),
    ensures
        text::first_index_of(host + seq![':'] + spelled, ':') == host.len(),
        (host + seq![':'] + spelled).contains(':'),
{
    let whole = host + seq![':'] + spelled;
    let colon = host.len() as int;
    assert(whole[colon] == ':');
    assert forall|i: int| 0 <= i < colon implies whole[i] != ':' by {
        assert(whole[i] == host[i]);
    }
    text::lemma_first_index_unique(whole, ':', colon);
}

/// A host with a port is read as that host and that port.
#[verifier::spinoff_prover]
proof fn lemma_host_then_port(host: Seq<char>, spelled: Seq<char>, default_port: u16)
    requires
        host_form(host),
    ensures
        host_and_port(host + seq![':'] + spelled, default_port) == (match numeral::port_of(spelled) {
            Some(port) => Some((host, port)),
            None => None,
        }),
{
    let whole = host + seq![':'] + spelled;
    let colon = host.len() as int;
    assert(whole.skip(colon + 1) == spelled);
    assert(whole.take(colon) == host);
    if bracketed(host) {
        lemma_bracketed_then_port(host, spelled);
        assert(whole[0] == '[');
    } else {
        lemma_bare_then_port(host, spelled);
        if host.len() > 0 {
            assert(whole[0] == host[0]);
        } else {
            assert(whole[0] == ':');
        }
        assert(whole[0] != '[');
    }
}

/// What a scheme is written as.
pub open spec fn scheme_text(secure: bool) -> Seq<char> {
    if secure {
        "https://"@
    } else {
        "http://"@
    }
}

/// What stands between the scheme and the path of a URL is its authority.
proof fn lemma_plain_authority(secure: bool, authority_text: Seq<char>, path: Seq<char>)
    requires
        !authority_text.contains('/'),
        path.len() > 0 ==> path[0] == '/',
    ensures
        ({
            let prefix = scheme_text(secure);
            let url = prefix + authority_text + path;
            &&& scheme(url) == Some(
                (
                    prefix,
                    if secure {
                        443u16
                    } else {
                        80u16
                    },
                ),
            )
            &&& authority(url, prefix) == authority_text
        }),
{
    let prefix = scheme_text(secure);
    let url = prefix + authority_text + path;
    reveal_strlit("http://");
    reveal_strlit("https://");
    if !secure {
        assert(!("https://"@.is_prefix_of(url))) by {
            assert(url[4] == ':');
            if "https://"@.is_prefix_of(url) {
                assert(url.subrange(0, 8)[4] == "https://"@[4]);
            }
        }
    }
    let k = prefix.len() as int;
    assert(prefix.is_prefix_of(url)) by {
        assert(url.subrange(0, k) == prefix);
    }
    let rest = url.skip(k);
    let n = authority_text.len() as int;
    assert(rest == authority_text + path);
    assert forall|i: int| 0 <= i < n implies rest[i] != '/' by {
        assert(rest[i] == authority_text[i]);
    }
    if path.len() > 0 {
        assert(rest[n] == '/');
    }
    text::lemma_first_index_unique(rest, '/', n);
    assert(rest.take(n) == authority_text);
}

/// The endpoint of the URL that is built from a driver's host and the bind address is that host
/// with the bind port. The host holds no slash; one in brackets is bracketed as a whole, and any
/// other is without a colon.
pub proof fn driver_endpoint_is_host_and_bind_port(bind: Seq<char>, host: Seq<char>, port: u16)
    requires
        numeral::port_of(port_text(bind)) == Some(port),
        !host.contains('/'),
        host_form(host),
    ensures
        endpoint(broker_url(None, bind, host)) == Ok::<Seq<char>, BrokerUrlFault>(
            endpoint_text(host, port),
        ),
{
    let spelled = port_text(bind);
    let whole = host + seq![':'] + spelled;
    assert(":"@ == seq![':']) by {
        reveal_strlit(":");
    }
    assert(broker_url(None, bind, host) == "http://"@ + whole + "/mcp"@);
    assert(!whole.contains('/')) by {
        if whole.contains('/') {
            let i = choose|i: int| 0 <= i < whole.len() && whole[i] == '/';
            if i < host.len() {
                assert(host[i] == '/');
            } else if i > host.len() {
                assert(whole[i] == spelled[i - host.len() - 1]);
                lemma_port_characters(spelled, i - host.len() - 1);
            }
        }
    }
    reveal_strlit("/mcp");
    lemma_plain_authority(false, whole, "/mcp"@);
    lemma_host_then_port(host, spelled, 80);
}

/// The port is what follows the last colon of the bind address, whatever stands before it, and the
/// URL for the sandbox is the driver's host with that port. An explicit URL is taken as it is.
pub proof fn port_follows_the_last_colon(listen: Seq<char>, port: Seq<char>, host: Seq<char>)
    requires
        !port.contains(':'),
    ensures
        port_text(listen + ":"@ + port) == port,
        port_text(port) == port,
        broker_url(None, listen + ":"@ + port, host) == "http://"@ + host + ":"@ + port + "/mcp"@,
        forall|url: Seq<char>, bind: Seq<char>|
            #[trigger] broker_url(Some(url), bind, host) == url,
{
    reveal_strlit(":");
    let bind = listen + ":"@ + port;
    let n = listen.len() as int;
    assert(bind[n] == ':');
    text::lemma_last_index_of(bind, ':');
    let last = text::last_index_of(bind, ':');
    assert(last >= n);
    if last > n {
        assert(bind[last] == port[last - n - 1]);
    }
    assert(bind.skip(n + 1) == port);
}

/// A host as it stands in a URL: in brackets as a whole, with no `]:` inside them, or without a
/// colon; never with a slash.
pub open spec fn whole_host(host: Seq<char>) -> bool {
    &&& !host.contains('/')
    &&& if host.len() > 0 && host[0] == '[' {
        &&& host.last() == ']'
        &&& forall|i: int| 0 <= i < host.len() - 1 ==> !(#[trigger] host[i] == ']' && host[i + 1] == ':')
    } else {
        !host.contains(':')
    }
}

/// An authority that names no port: in it no colon follows a closing bracket, where it begins with
/// an opening one, and else there is no colon at all; never a slash.
pub open spec fn without_port(host: Seq<char>) -> bool {
    &&& !host.contains('/')
    &&& if host.len() > 0 && host[0] == '[' {
        forall|i: int| 0 <= i < host.len() - 1 ==> !(#[trigger] host[i] == ']' && host[i + 1] == ':')
    } else {
        !host.contains(':')
    }
}

proof fn lemma_whole_host(host: Seq<char>)
    requires
        whole_host(host),
    ensures
        host_form(host),
{
    lemma_bracket_end(host);
    if bracket_end(host) >= 0 {
        assert(!(host[bracket_end(host)] == ']' && host[bracket_end(host) + 1] == ':'));
    }
}

/// A URL of either scheme with a host, a port text and a path, which may be missing, names that
/// host and that port; where the text is no port number the URL is refused for it.
pub proof fn url_with_a_port_names_host_and_port(
    secure: bool,
    host: Seq<char>,
    spelled: Seq<char>,
    path: Seq<char>,
)
    requires
        whole_host(host),
        !spelled.contains('/'),
        path.len() > 0 ==> path[0] == '/',
    ensures
        ({
            let url = scheme_text(secure) + host + ":"@ + spelled + path;
            match numeral::port_of(spelled) {
                Some(port) => endpoint(url) == Ok::<Seq<char>, BrokerUrlFault>(
                    host + ":"@ + numeral::decimal(port as nat) + ":full"@,
                ),
                None => endpoint(url) == Err::<Seq<char>, BrokerUrlFault>(
                    BrokerUrlFault::InvalidPort,
                ),
            }
        }),
{
    let url = scheme_text(secure) + host + ":"@ + spelled + path;
    let whole = host + seq![':'] + spelled;
    assert(":"@ == seq![':']) by {
        reveal_strlit(":");
    }
    assert(url == scheme_text(secure) + whole + path);
    assert(!whole.contains('/')) by {
        if whole.contains('/') {
            let i = choose|i: int| 0 <= i < whole.len() && whole[i] == '/';
            if i < host.len() {
                assert(host[i] == '/');
            } else if i > host.len() {
                assert(whole[i] == spelled[i - host.len() - 1]);
            }
        }
    }
    lemma_plain_authority(secure, whole, path);
    lemma_whole_host(host);
    lemma_host_then_port(host, spelled, 80);
    lemma_host_then_port(host, spelled, 443);
}

/// Every port text is accepted behind every host, whichever the scheme and the path: the endpoint
/// is that host with that port.
pub proof fn every_port_is_accepted(
    secure: bool,
    host: Seq<char>,
    spelled: Seq<char>,
    port: u16,
    path: Seq<char>,
)
    requires
        whole_host(host),
        numeral::port_of(spelled) == Some(port),
        path.len() > 0 ==> path[0] == '/',
    ensures
        endpoint(scheme_text(secure) + host + ":"@ + spelled + path) == Ok::<
            Seq<char>,
            BrokerUrlFault,
        >(host + ":"@ + numeral::decimal(port as nat) + ":full"@),
{
    if spelled.contains('/') {
        let i = choose|i: int| 0 <= i < spelled.len() && spelled[i] == '/';
        lemma_port_characters(spelled, i);
    }
    url_with_a_port_names_host_and_port(secure, host, spelled, path);
}

/// A URL of either scheme with a host and no port names that host with the port of the scheme: 443
/// where it is secure, else 80.
pub proof fn url_without_a_port_names_the_port_of_its_scheme(
    secure: bool,
    host: Seq<char>,
    path: Seq<char>,
)
    requires
        host.len() > 0,
        without_port(host),
        path.len() > 0 ==> path[0] == '/',
    ensures
        endpoint(scheme_text(secure) + host + path) == Ok::<Seq<char>, BrokerUrlFault>(
            if secure {
                host + ":443:full"@
            } else {
                host + ":80:full"@
            },
        ),
{
    lemma_plain_authority(secure, host, path);
    lemma_bracket_end(host);
    if bracketed(host) && bracket_end(host) >= 0 {
        let end = bracket_end(host);
        assert(!(host[end] == ']' && host[end + 1] == ':'));
    }
    reveal_strlit(":");
    reveal_strlit(":full");
    reveal_strlit(":443:full");
    reveal_strlit(":80:full");
    reveal_with_fuel(numeral::decimal, 4);
    assert(numeral::decimal(443) =~= seq!['4', '4', '3']);
    assert(numeral::decimal(80) =~= seq!['8', '0']);
    assert(host + ":"@ + numeral::decimal(443) + ":full"@ =~= host + ":443:full"@);
    assert(host + ":"@ + numeral::decimal(80) + ":full"@ =~= host + ":80:full"@);
}

/// A URL is refused for its scheme exactly where it begins with neither of the two, and for an empty
/// authority exactly where nothing, or at once a path, follows the scheme.
pub proof fn refused_urls_lack_a_scheme_or_an_authority(url: Seq<char>)
    ensures
        endpoint(url) == Err::<Seq<char>, BrokerUrlFault>(BrokerUrlFault::BadScheme) <==> !(
        "http://"@.is_prefix_of(url) || "https://"@.is_prefix_of(url)),
        endpoint(url) == Err::<Seq<char>, BrokerUrlFault>(BrokerUrlFault::EmptyAuthority) <==> exists|
            secure: bool,
            path: Seq<char>,
        |
            #![trigger scheme_text(secure) + path]
            url == scheme_text(secure) + path && (path.len() > 0 ==> path[0] == '/'),
{
    if exists|secure: bool, path: Seq<char>|
        #![trigger scheme_text(secure) + path]
        url == scheme_text(secure) + path && (path.len() > 0 ==> path[0] == '/') {
        let (secure, path) = choose|secure: bool, path: Seq<char>|
            #![trigger scheme_text(secure) + path]
            url == scheme_text(secure) + path && (path.len() > 0 ==> path[0] == '/');
        lemma_plain_authority(secure, Seq::empty(), path);
        assert(scheme_text(secure) + Seq::<char>::empty() + path == url);
    }
    if endpoint(url) == Err::<Seq<char>, BrokerUrlFault>(BrokerUrlFault::EmptyAuthority) {
        lemma_url_in_parts(url);
        let prefix = (scheme(url)->0).0;
        let path = url.skip(prefix.len() as int);
        assert(prefix + authority(url, prefix) + path == prefix + path);
        let secure = "https://"@.is_prefix_of(url);
        assert(url == scheme_text(secure) + path);
    }
}

/// A refusal of a URL shows the URL.
pub proof fn url_refusal_shows_the_url(fault: BrokerUrlFault, url: Seq<char>)
    ensures
        text::mentions(url_fault_message(fault, url), text::debug_text(url)),
{
    let e = Seq::<char>::empty();
    text::lemma_mentions(
        "broker URL must start with http:// or https://, got "@,
        text::debug_text(url),
        e,
    );
    text::lemma_mentions("broker URL has an empty authority: "@, text::debug_text(url), e);
    text::lemma_mentions("invalid port in broker URL "@, text::debug_text(url), e);
}

} // verus!
