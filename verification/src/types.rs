//! Identifier and status types shared across the system.
//!
//! Identifiers are UUIDs; the library holds them as their 128-bit value, and
//! the `uuid` crate generates and parses them.

use vstd::prelude::*;

verus! {

#[verifier::external_type_specification]
#[verifier::external_body]
pub struct ExUuidError(uuid::Error);

/// The 128-bit value of the UUID that `uuid::Uuid::parse_str` reads from the
/// text `s`, or `None` where the text is not a UUID.
pub uninterp spec fn uuid_parse_value(s: Seq<char>) -> Option<u128>;

/// Whether a 128-bit UUID value is a random (version 4) UUID of the RFC 9562
/// variant: its version nibble (bits 76 to 79) is 4 and its two variant bits
/// (62 and 63) are `10`.
pub open spec fn spec_is_v4_uuid(v: u128) -> bool {
    (v >> 76u128) & 0xfu128 == 4u128 && (v >> 62u128) & 0x3u128 == 2u128
}

/// Calls `uuid::Uuid::new_v4` and hands back the 128-bit value of the random
/// UUID. Claimed: the value carries the version 4 nibble and the RFC 9562
/// variant bits, which `new_v4` sets over the random bits; nothing else is
/// claimed of it. `uuid` panics where the system's random source fails.
#[verifier::external_body]
pub(crate) fn random_uuid_value() -> (v: u128)
    ensures
        spec_is_v4_uuid(v),
{
    uuid::Uuid::new_v4().as_u128()
}

/// Calls `uuid::Uuid::parse_str` and converts the parsed UUID to its 128-bit
/// value. Claimed: the call succeeds exactly when `uuid_parse_value` of the
/// text is `Some`, and then yields that value.
#[verifier::external_body]
fn parse_uuid_value(s: &str) -> (res: Result<u128, uuid::Error>)
    ensures
        res is Ok <==> uuid_parse_value(s@) is Some,
        res matches Ok(v) ==> uuid_parse_value(s@) == Some(v),
{
    match uuid::Uuid::parse_str(s) {
        Ok(u) => Ok(u.as_u128()),
        Err(e) => Err(e),
    }
}

/// The lower-case hexadecimal digit of a value below 16.
pub open spec fn spec_hex_digit(d: int) -> char {
    if d < 10 {
        ('0' as int + d) as char
    } else {
        ('a' as int + (d - 10)) as char
    }
}

/// The last `n` hexadecimal digits of `v`, most significant first.
pub open spec fn spec_hex_digits(v: nat, n: nat) -> Seq<char>
    decreases n,
{
    if n == 0 {
        Seq::empty()
    } else {
        spec_hex_digits(v / 16, (n - 1) as nat).push(spec_hex_digit((v % 16) as int))
    }
}

/// The hyphenated lower-case text of the UUID with 128-bit value `v`, as
/// `uuid::Uuid`'s `Display` writes it: its 32 hexadecimal digits, most
/// significant first, in groups of 8, 4, 4, 4 and 12 joined by hyphens.
pub open spec fn uuid_text(v: u128) -> Seq<char> {
    let d = spec_hex_digits(v as nat, 32);
    d.subrange(0, 8) + seq!['-'] + d.subrange(8, 12) + seq!['-'] + d.subrange(12, 16) + seq!['-'] + d.subrange(
        16,
        20,
    ) + seq!['-'] + d.subrange(20, 32)
}

/// Writes the UUID with 128-bit value `v` (`uuid::Uuid::from_u128`) through
/// its `Display`. Claimed: the text is `uuid_text(v)`, and
/// `uuid::Uuid::parse_str` reads the same value back from it.
#[verifier::external_body]
fn format_uuid(v: u128) -> (s: String)
    ensures
        s@ == uuid_text(v),
        uuid_parse_value(s@) == Some(v),
{
    format!("{}", uuid::Uuid::from_u128(v))
}

/// Unique identifier for a player in the game world (a UUID, held as its
/// 128-bit value).
#[derive(Debug, Clone, Copy, PartialEq, Eq, Structural, Hash)]
pub struct PlayerId(pub u128);

impl PlayerId {
    /// Creates a new random player ID (UUID v4). Panics where the system's
    /// random source fails.
    pub fn new() -> (p: Self)
        ensures
            spec_is_v4_uuid(p.0),
    {
        PlayerId(random_uuid_value())
    }

    /// Parses a player ID from the text form of a UUID.
    pub fn from_str(s: &str) -> (res: Result<Self, uuid::Error>)
        ensures
            res is Ok <==> uuid_parse_value(s@) is Some,
            res matches Ok(p) ==> uuid_parse_value(s@) == Some(p.0),
    {
        match parse_uuid_value(s) {
            Ok(v) => Ok(PlayerId(v)),
            Err(e) => Err(e),
        }
    }

    /// The text form of the identifier (a hyphenated lower-case UUID), which
    /// [`PlayerId::from_str`] reads back to the same identifier.
    pub fn to_text(&self) -> (s: String)
        ensures
            s@ == uuid_text(self.0),
            uuid_parse_value(s@) == Some(self.0),
    {
        format_uuid(self.0)
    }
}

impl std::str::FromStr for PlayerId {
    type Err = uuid::Error;

    /// Parses a player ID from the text form of a UUID.
    fn from_str(s: &str) -> (res: Result<Self, Self::Err>)
        ensures
            res is Ok <==> uuid_parse_value(s@) is Some,
            res matches Ok(p) ==> uuid_parse_value(s@) == Some(p.0),
    {
        PlayerId::from_str(s)
    }
}

impl Default for PlayerId {
    /// A new random player ID.
    fn default() -> (p: Self)
        ensures
            spec_is_v4_uuid(p.0),
    {
        PlayerId::new()
    }
}

/// Unique identifier for a game region (a UUID, held as its 128-bit value).
#[derive(Debug, Clone, Copy, PartialEq, Eq, Structural, Hash)]
pub struct RegionId(pub u128);

impl RegionId {
    /// Creates a new random region ID (UUID v4). Panics where the system's
    /// random source fails.
    pub fn new() -> (r: Self)
        ensures
            spec_is_v4_uuid(r.0),
    {
        RegionId(random_uuid_value())
    }
}

impl Default for RegionId {
    /// A new random region ID.
    fn default() -> (r: Self)
        ensures
            spec_is_v4_uuid(r.0),
    {
        RegionId::new()
    }
}

/// Unique identifier of a replicated game object instance (a UUID, held as
/// its 128-bit value).
#[derive(Debug, Clone, Copy, PartialEq, Eq, Structural, Hash)]
pub struct GorcObjectId(pub u128);

impl GorcObjectId {
    /// Creates a new random object ID (UUID v4). Panics where the system's
    /// random source fails.
    pub fn new() -> (g: Self)
        ensures
            spec_is_v4_uuid(g.0),
    {
        GorcObjectId(random_uuid_value())
    }
}

/// Possible disconnection reasons.
#[derive(Debug, Clone)]
pub enum DisconnectReason {
    /// Player initiated disconnection (normal logout)
    ClientDisconnect,
    /// Connection timed out due to inactivity or network issues
    Timeout,
    /// Server is shutting down gracefully
    ServerShutdown,
    /// An error occurred that forced disconnection
    Error(String),
}

/// The authentication status of a player.
#[derive(Debug, Clone, Copy, PartialEq, Eq, Structural)]
pub enum AuthenticationStatus {
    /// Player is not authenticated
    Unauthenticated,
    /// Player is in the process of authenticating
    Authenticating,
    /// Player is successfully authenticated
    Authenticated,
    /// Player authentication failed
    AuthenticationFailed,
}

impl Default for AuthenticationStatus {
    /// A player starts unauthenticated.
    fn default() -> (s: Self)
        ensures
            s == AuthenticationStatus::Unauthenticated,
    {
        AuthenticationStatus::Unauthenticated
    }
}

} // verus!
