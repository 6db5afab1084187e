//! Who a client is, and whether its request may pass.
//!
//! A banned client is turned away before its token is looked at. A correct
//! token clears the client's failures; a missing or wrong one counts as one
//! more failure.

use crate::ban::{
    after_failure, after_reset, client_key, key_of, BanView, ClientKey, IpBanManager, KeyView,
};
use crate::text::{
    chars_of, find_sub, first_index_of, has_sub, lemma_first_occurrence_unique, same_text,
};
use crate::trusted::text::{trim_text, trimmed};
use vstd::prelude::*;

verus! {

/// The address of the peer of a connection.
#[derive(Debug, Clone, Copy)]
pub enum PeerAddr {
    V4 { octets: [u8; 4] },
    V6 { segments: [u16; 8] },
}

/// Whether an address belongs to a private or loopback range:
/// 10/8, 172.16/12, 192.168/16, 127/8, `::1` or fc00::/7.
pub open spec fn is_private(peer: PeerAddr) -> bool {
    match peer {
        PeerAddr::V4 { octets } => {
            ||| octets[0] == 10
            ||| (octets[0] == 172 && 16 <= octets[1] <= 31)
            ||| (octets[0] == 192 && octets[1] == 168)
            ||| octets[0] == 127
        },
        PeerAddr::V6 { segments } => {
            ||| (segments[0] == 0 && segments[1] == 0 && segments[2] == 0 && segments[3] == 0
                && segments[4] == 0 && segments[5] == 0 && segments[6] == 0 && segments[7] == 1)
            ||| segments[0] & 0xfe00 == 0xfc00
        },
    }
}

/// Whether an address belongs to a private or loopback range.
pub fn is_private_ip(peer: &PeerAddr) -> (private: bool)
    ensures
        private == is_private(*peer),
{
    match peer {
        PeerAddr::V4 { octets } => {
            octets[0] == 10 || (octets[0] == 172 && octets[1] >= 16 && octets[1] <= 31) || (
            octets[0] == 192 && octets[1] == 168) || octets[0] == 127
        },
        PeerAddr::V6 { segments } => {
            (segments[0] == 0 && segments[1] == 0 && segments[2] == 0 && segments[3] == 0
                && segments[4] == 0 && segments[5] == 0 && segments[6] == 0 && segments[7] == 1)
                || segments[0] & 0xfe00 == 0xfc00
        },
    }
}

/// The one-character text that separates the values of a header.
pub open spec fn comma() -> Seq<char> {
    seq![',']
}

/// A header up to its first comma; all of it where it has none.
pub open spec fn first_field(header: Seq<char>) -> Seq<char> {
    if has_sub(header, comma()) {
        header.subrange(0, first_index_of(header, comma()))
    } else {
        header
    }
}

/// The identifier of a client: the peer's own address where that is
/// public; behind a private peer the `X-Real-IP` header, else the first
/// value of `X-Forwarded-For` without the white space around it, else the
/// peer's address after all.
pub open spec fn client_id(
    private: bool,
    peer_text: Seq<char>,
    real_ip: Option<Seq<char>>,
    forwarded_for: Option<Seq<char>>,
) -> Seq<char> {
    if !private {
        peer_text
    } else {
        match real_ip {
            Some(ip) => ip,
            None => match forwarded_for {
                Some(list) => trimmed(first_field(list)),
                None => peer_text,
            },
        }
    }
}

/// Mathematical value of an optional borrowed text.
pub open spec fn text_view(s: Option<&str>) -> Option<Seq<char>> {
    match s {
        Some(t) => Some(t@),
        None => None,
    }
}

/// Derives the identifier of a client from the peer's address, its printed
/// form, and the two proxy headers.
pub fn extract_client_ip(
    peer: &PeerAddr,
    peer_text: &str,
    real_ip: Option<&str>,
    forwarded_for: Option<&str>,
) -> (id: String)
    ensures
        id@ == client_id(
            is_private(*peer),
            peer_text@,
            text_view(real_ip),
            text_view(forwarded_for),
        ),
{
    if !is_private_ip(peer) {
        return String::from_str(peer_text);
    }
    if let Some(ip) = real_ip {
        return String::from_str(ip);
    }
    if let Some(list) = forwarded_for {
        let chars = chars_of(list);
        let mut sep: Vec<char> = Vec::new();
        sep.push(',');
        assert(sep@ =~= comma());
        return match find_sub(&chars, &sep) {
            Some(at) => {
                proof {
                    lemma_first_occurrence_unique(list@, comma(), at as int);
                }
                trim_text(list.substring_char(0, at))
            },
            None => trim_text(list),
        };
    }
    String::from_str(peer_text)
}

/// How an authentication attempt ended.
#[derive(Debug, Clone, Copy, PartialEq, Eq, Structural)]
pub enum AuthOutcome {
    /// The token was right.
    Granted,
    /// The client is banned; its token was not looked at.
    Banned,
    /// The request carried no credentials.
    Missing,
    /// The request carried wrong credentials.
    Invalid,
}

/// The header value that carries `token`.
pub open spec fn bearer(token: Seq<char>) -> Seq<char> {
    "Bearer "@ + token
}

/// Outcome and next ban state of an attempt by `key` at `now`.
pub open spec fn auth_step(
    s: BanView,
    key: KeyView,
    expected: Seq<char>,
    authorization: Option<Seq<char>>,
    now: u128,
) -> (AuthOutcome, BanView) {
    if s.banned.contains(key) {
        (AuthOutcome::Banned, s)
    } else if authorization == Some(bearer(expected)) {
        (AuthOutcome::Granted, after_reset(s, key))
    } else if authorization is None {
        (AuthOutcome::Missing, after_failure(s, key, now))
    } else {
        (AuthOutcome::Invalid, after_failure(s, key, now))
    }
}

/// After a successful authentication the client's failure record is gone.
pub proof fn lemma_granted_clears_failures(
    s: BanView,
    key: KeyView,
    expected: Seq<char>,
    authorization: Option<Seq<char>>,
    now: u128,
)
    requires
        auth_step(s, key, expected, authorization, now).0 == AuthOutcome::Granted,
    ensures
        !auth_step(s, key, expected, authorization, now).1.failures.contains_key(key),
        authorization == Some(bearer(expected)),
        !s.banned.contains(key),
{
}

/// A banned client is turned away whatever it presents, and nothing is
/// recorded.
pub proof fn lemma_banned_is_turned_away(
    s: BanView,
    key: KeyView,
    expected: Seq<char>,
    authorization: Option<Seq<char>>,
    now: u128,
)
    requires
        s.banned.contains(key),
    ensures
        auth_step(s, key, expected, authorization, now) == (AuthOutcome::Banned, s),
{
}

/// A client that is turned away for its credentials has one more failure
/// on record, and none is turned away that way while banned.
pub proof fn lemma_rejection_counts(
    s: BanView,
    key: KeyView,
    expected: Seq<char>,
    authorization: Option<Seq<char>>,
    now: u128,
)
    requires
        !s.banned.contains(key),
        authorization != Some(bearer(expected)),
    ensures
        auth_step(s, key, expected, authorization, now).1 == after_failure(s, key, now),
        auth_step(s, key, expected, authorization, now).0 == AuthOutcome::Missing || auth_step(
            s,
            key,
            expected,
            authorization,
            now,
        ).0 == AuthOutcome::Invalid,
{
}

/// Whether `authorization` is exactly `Bearer ` followed by `expected`.
pub fn carries_token(authorization: &str, expected: &str) -> (yes: bool)
    ensures
        yes == (authorization@ == bearer(expected@)),
{
    let mut wanted = String::from_str("Bearer ");
    wanted.append(expected);
    same_text(authorization, wanted.as_str())
}

/// Judges one request of the client with key `key` at the clock reading
/// `now`, and updates the ban records accordingly.
pub fn authenticate_key(
    bans: &mut IpBanManager,
    key: &ClientKey,
    expected: &str,
    authorization: Option<&str>,
    now: u128,
) -> (outcome: AuthOutcome)
    ensures
        (outcome, final(bans)@) == auth_step(
            old(bans)@,
            key@,
            expected@,
            text_view(authorization),
            now,
        ),
{
    if bans.is_key_banned(key) {
        return AuthOutcome::Banned;
    }
    match authorization {
        Some(header) => {
            if carries_token(header, expected) {
                bans.reset_key_failures(key);
                AuthOutcome::Granted
            } else {
                bans.record_key_failure(key, now);
                AuthOutcome::Invalid
            }
        },
        None => {
            bans.record_key_failure(key, now);
            AuthOutcome::Missing
        },
    }
}

/// Judges one request of the client `client` at the present clock reading.
pub fn auth_handler(
    bans: &mut IpBanManager,
    client: &str,
    expected: &str,
    authorization: Option<&str>,
) -> (outcome: AuthOutcome)
    ensures
        exists|now: u128|
            (outcome, final(bans)@) == auth_step(
                old(bans)@,
                key_of(client@),
                expected@,
                text_view(authorization),
                now,
            ),
{
    let key = client_key(client);
    let now = bans.now();
    authenticate_key(bans, &key, expected, authorization, now)
}

impl AuthOutcome {
    /// The HTTP status that answers the attempt: 200, 403 or 401.
    pub fn status(&self) -> (code: u16)
        ensures
            code == match *self {
                AuthOutcome::Granted => 200u16,
                AuthOutcome::Banned => 403u16,
                AuthOutcome::Missing => 401u16,
                AuthOutcome::Invalid => 401u16,
            },
    {
        match self {
            AuthOutcome::Granted => 200,
            AuthOutcome::Banned => 403,
            AuthOutcome::Missing => 401,
            AuthOutcome::Invalid => 401,
        }
    }

    /// The error type reported to a client that is turned away.
    pub fn error_type(&self) -> (kind: Option<&'static str>)
        ensures
            kind is None <==> *self == AuthOutcome::Granted,
            *self == AuthOutcome::Banned ==> kind == Some("ip_banned"),
            *self == AuthOutcome::Missing || *self == AuthOutcome::Invalid ==> kind == Some(
                "auth_error",
            ),
    {
        match self {
            AuthOutcome::Granted => None,
            AuthOutcome::Banned => Some("ip_banned"),
            AuthOutcome::Missing => Some("auth_error"),
            AuthOutcome::Invalid => Some("auth_error"),
        }
    }

    /// The message reported to a client that is turned away.
    pub fn message(&self) -> (text: Option<&'static str>)
        ensures
            text == match *self {
                AuthOutcome::Granted => None::<&'static str>,
                AuthOutcome::Banned => Some(
                    "Your IP has been permanently banned due to multiple failed authentication attempts",
                ),
                AuthOutcome::Missing => Some("缺少 Authorization"),
                AuthOutcome::Invalid => Some("无效的 Authorization"),
            },
    {
        match self {
            AuthOutcome::Granted => None,
            AuthOutcome::Banned => Some(
                "Your IP has been permanently banned due to multiple failed authentication attempts",
            ),
            AuthOutcome::Missing => Some("缺少 Authorization"),
            AuthOutcome::Invalid => Some("无效的 Authorization"),
        }
    }
}

} // verus!
