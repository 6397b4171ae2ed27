use vstd::prelude::*;
use vstd::string::StringExecFns;

verus! {

broadcast use vstd::string::to_string_from_display_ensures_for_str;

#[verifier::external_type_specification]
#[verifier::external_body]
pub struct ExRedisClient(redis::Client);

/// The URL of the Redis server on this host, port 6379, with `password` and
/// no user name; `rediss` (TLS) when `tls`, plain `redis` otherwise.
pub open spec fn connection_url_text(password: Seq<char>, tls: bool) -> Seq<char> {
    (if tls {
        "rediss"@
    } else {
        "redis"@
    }) + "://:"@ + password + "@localhost:6379"@
}

/// Whether the redis crate accepts `url` as the address of a server.
pub uninterp spec fn redis_url_accepted(url: Seq<char>) -> bool;

/// The client that the redis crate builds for `url`.
pub uninterp spec fn redis_client_for(url: Seq<char>) -> redis::Client;

/// Builds a client with `redis::Client::open`, which parses the URL and checks
/// it (scheme, host, port, database number, credentials) without connecting.
/// The outcome depends on the URL alone: the contract names whether it
/// succeeds and the client it builds, and says no more of either.
#[verifier::external_body]
fn open_redis_client(url: String) -> (res: Result<redis::Client, redis::RedisError>)
    ensures
        res is Ok <==> redis_url_accepted(url@),
        res matches Ok(c) ==> c == redis_client_for(url@),
{
    redis::Client::open(url)
}

/// Why no client could be built.
#[derive(Debug, Clone, Copy, PartialEq, Eq, Structural)]
pub enum ConfigError {
    /// The connection URL was refused.
    InvalidUrl,
}

/// The URL through which the board reaches its Redis server.
pub fn connection_url(password: &str, tls: bool) -> (url: String)
    ensures
        url@ == connection_url_text(password@, tls),
{
    let mut url = if tls {
        "rediss".to_string()
    } else {
        "redis".to_string()
    };
    url.append("://:");
    url.append(password);
    url.append("@localhost:6379");
    url
}

/// A client for the board's Redis server, reached with `password` and over
/// TLS when `tls`; no connection is opened yet.
pub fn open_client(password: &str, tls: bool) -> (res: Result<redis::Client, ConfigError>)
    ensures
        res is Ok <==> redis_url_accepted(connection_url_text(password@, tls)),
        res matches Ok(c) ==> c == redis_client_for(connection_url_text(password@, tls)),
{
    match open_redis_client(connection_url(password, tls)) {
        Ok(client) => Ok(client),
        Err(_) => Err(ConfigError::InvalidUrl),
    }
}

/// The scheme of the connection URL follows the TLS choice alone, whatever
/// the password (the empty one included): `rediss://:` when TLS is asked for,
/// `redis://:` otherwise; then comes the password verbatim, and the URL always
/// ends with the host `@localhost:6379`.
pub proof fn lemma_connection_url_parts(password: Seq<char>, tls: bool)
    ensures
        tls ==> connection_url_text(password, tls) == seq!['r', 'e', 'd', 'i', 's', 's', ':', '/', '/', ':']
            + password + seq!['@', 'l', 'o', 'c', 'a', 'l', 'h', 'o', 's', 't', ':', '6', '3', '7', '9'],
        !tls ==> connection_url_text(password, tls) == seq!['r', 'e', 'd', 'i', 's', ':', '/', '/', ':']
            + password + seq!['@', 'l', 'o', 'c', 'a', 'l', 'h', 'o', 's', 't', ':', '6', '3', '7', '9'],
{
    reveal_strlit("rediss");
    reveal_strlit("redis");
    reveal_strlit("://:");
    reveal_strlit("@localhost:6379");
    let tail = seq!['@', 'l', 'o', 'c', 'a', 'l', 'h', 'o', 's', 't', ':', '6', '3', '7', '9'];
    assert("@localhost:6379"@ =~= tail);
    if tls {
        assert("rediss"@ + "://:"@ =~= seq!['r', 'e', 'd', 'i', 's', 's', ':', '/', '/', ':']);
        assert(connection_url_text(password, tls) =~= seq!['r', 'e', 'd', 'i', 's', 's', ':', '/', '/', ':']
            + password + tail);
    } else {
        assert("redis"@ + "://:"@ =~= seq!['r', 'e', 'd', 'i', 's', ':', '/', '/', ':']);
        assert(connection_url_text(password, tls) =~= seq!['r', 'e', 'd', 'i', 's', ':', '/', '/', ':']
            + password + tail);
    }
}

/// Two passwords under the same TLS choice give URLs that differ only in the
/// password: the scheme never depends on the password.
pub proof fn lemma_connection_url_scheme_ignores_password(p1: Seq<char>, p2: Seq<char>, tls: bool)
    ensures
        connection_url_text(p1, tls).take(if tls { 10 } else { 9 }) == connection_url_text(p2, tls).take(
            if tls { 10 } else { 9 },
        ),
{
    lemma_connection_url_parts(p1, tls);
    lemma_connection_url_parts(p2, tls);
    let n: int = if tls { 10 } else { 9 };
    assert(connection_url_text(p1, tls).take(n) =~= connection_url_text(p2, tls).take(n));
}

#[verifier::external_type_specification]
#[verifier::external_body]
pub struct ExUrl(url::Url);

#[verifier::external_type_specification]
#[verifier::external_body]
pub struct ExUrlParseError(url::ParseError);

/// Whether the url crate accepts `text` as an absolute URL.
pub uninterp spec fn url_accepted(text: Seq<char>) -> bool;

/// The URL that the url crate parses out of `text`.
pub uninterp spec fn parsed_url(text: Seq<char>) -> url::Url;

/// Parses `text` with `url::Url::parse`. The outcome depends on the text
/// alone: the contract names whether it succeeds and the URL it yields, and
/// says no more of either.
#[verifier::external_body]
fn parse_url(text: &str) -> (res: Result<url::Url, url::ParseError>)
    ensures
        res is Ok <==> url_accepted(text@),
        res matches Ok(u) ==> u == parsed_url(text@),
{
    url::Url::parse(text)
}

/// The websocket address that the simulated painters draw on: the board's
/// `connect_user` route on this host.
pub open spec fn simulated_painter_url_text() -> Seq<char> {
    "ws://localhost:3030/connect_user"@
}

/// The parsed websocket address that the simulated painters draw on.
pub fn simulated_painter_url() -> (res: Result<url::Url, ConfigError>)
    ensures
        res is Ok <==> url_accepted(simulated_painter_url_text()),
        res matches Ok(u) ==> u == parsed_url(simulated_painter_url_text()),
{
    match parse_url("ws://localhost:3030/connect_user") {
        Ok(u) => Ok(u),
        Err(_) => Err(ConfigError::InvalidUrl),
    }
}

} // verus!
