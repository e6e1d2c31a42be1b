//! The token tool: signing keys, subscription tokens, revocations and the
//! keys of REALITY.

use vstd::prelude::*;

use crate::auth::keys::{generate_signing_key, SigningKey, VerifyingKey};
use crate::auth::token::{
    law_token_roundtrip, token_fault, SubscriptionClaims, SubscriptionPlan, SubscriptionToken, CLIENT_ID_SIZE,
    TOKEN_ID_SIZE,
};
use crate::auth::verify::{token_id_in, parse_token_id_hex, verdict, CLOCK_SKEW_SECONDS};
use crate::buffer::bytes_from_vec;
use crate::crypto::{ed25519_point, x25519_point};
use crate::random::os_random_array;
use crate::text::{chars_of, hex_text, joined, lower_all, lowered, number, parse_number, spells, string_views, text};
use crate::transport::reality::keys::{encode_hex, generate_keypair, RealityKeypair};
use crate::wire::array_at;

verus! {

pub const PRIVATE_KEY_PATH: &'static str = "auth-keys/subscription-private.key";

pub const PUBLIC_KEY_PATH: &'static str = "auth-keys/subscription-public.key";

pub const TOKEN_PATH: &'static str = "subscription.token";

pub const REVOKED_PATH: &'static str = "auth-keys/revoked-token-ids.txt";

pub const REALITY_PRIVATE_PATH: &'static str = "auth-keys/reality-private.key";

pub const REALITY_PUBLIC_PATH: &'static str = "auth-keys/reality-public.key";

pub const REALITY_SHORT_ID_PATH: &'static str = "auth-keys/reality-short-id.txt";

/// The number of the signing key.
pub const KEY_ID: u32 = 1;

pub const SECONDS_PER_DAY: u64 = 86_400;

// ---------------------------------------------------------------------------
// The command line
// ---------------------------------------------------------------------------

/// What the tool is asked to do.
#[derive(Debug)]
pub enum Order {
    Usage,
    IssueUsage,
    SetupUsage,
    RevokeUsage,
    Init,
    Issue { days: u64, plan: SubscriptionPlan },
    Setup { days: u64, plan: SubscriptionPlan },
    /// A token file or a token id.
    Revoke(String),
    RealityInit,
}

/// An order, its text as a sequence.
pub ghost enum Ordered {
    Usage,
    IssueUsage,
    SetupUsage,
    RevokeUsage,
    Init,
    Issue(u64, SubscriptionPlan),
    Setup(u64, SubscriptionPlan),
    Revoke(Seq<char>),
    RealityInit,
}

impl View for Order {
    type V = Ordered;

    open spec fn view(&self) -> Ordered {
        match self {
            Order::Usage => Ordered::Usage,
            Order::IssueUsage => Ordered::IssueUsage,
            Order::SetupUsage => Ordered::SetupUsage,
            Order::RevokeUsage => Ordered::RevokeUsage,
            Order::Init => Ordered::Init,
            Order::Issue { days, plan } => Ordered::Issue(*days, *plan),
            Order::Setup { days, plan } => Ordered::Setup(*days, *plan),
            Order::Revoke(what) => Ordered::Revoke(what@),
            Order::RealityInit => Ordered::RealityInit,
        }
    }
}

#[derive(Debug, Clone, Copy, PartialEq, Eq, Structural)]
pub enum IssueError {
    /// days must be a positive integer
    BadDays,
    /// days must be greater than zero
    NoDays,
    /// unknown subscription plan
    UnknownPlan,
    /// auth-keys/subscription-private.key already exists; refusing to overwrite signing key
    PrivateKeyExists,
    /// auth-keys/subscription-public.key already exists; refusing to overwrite public key
    PublicKeyExists,
    /// subscription private key must be exactly 32 bytes
    KeyLength,
    /// subscription lifetime overflow
    LifetimeOverflow,
    /// subscription expiry overflow
    ExpiryOverflow,
    /// OS random generator failed
    NoRandomness,
    /// neither a token nor a token id
    NoTokenId,
}

impl IssueError {
    pub open spec fn message_spec(&self) -> Seq<char> {
        match self {
            IssueError::BadDays => "days must be a positive integer"@,
            IssueError::NoDays => "days must be greater than zero"@,
            IssueError::UnknownPlan => "unknown subscription plan"@,
            IssueError::PrivateKeyExists => "auth-keys/subscription-private.key already exists; refusing to overwrite signing key"@,
            IssueError::PublicKeyExists => "auth-keys/subscription-public.key already exists; refusing to overwrite public key"@,
            IssueError::KeyLength => "subscription private key must be exactly 32 bytes"@,
            IssueError::LifetimeOverflow => "subscription lifetime overflow"@,
            IssueError::ExpiryOverflow => "subscription expiry overflow"@,
            IssueError::NoRandomness => "OS random generator failed"@,
            IssueError::NoTokenId => "neither a token file nor a token id"@,
        }
    }

    /// The error in words.
    pub fn message(&self) -> (message: String)
        ensures
            message@ == self.message_spec(),
    {
        match self {
            IssueError::BadDays => text("days must be a positive integer"),
            IssueError::NoDays => text("days must be greater than zero"),
            IssueError::UnknownPlan => text("unknown subscription plan"),
            IssueError::PrivateKeyExists => text("auth-keys/subscription-private.key already exists; refusing to overwrite signing key"),
            IssueError::PublicKeyExists => text("auth-keys/subscription-public.key already exists; refusing to overwrite public key"),
            IssueError::KeyLength => text("subscription private key must be exactly 32 bytes"),
            IssueError::LifetimeOverflow => text("subscription lifetime overflow"),
            IssueError::ExpiryOverflow => text("subscription expiry overflow"),
            IssueError::NoRandomness => text("OS random generator failed"),
            IssueError::NoTokenId => text("neither a token file nor a token id"),
        }
    }
}

/// `basic`, `pro` or `unlimited`, in any case.
pub open spec fn plan_in(value: Seq<char>) -> Option<SubscriptionPlan> {
    let value = lower_all(value);
    if value == "basic"@ {
        Some(SubscriptionPlan::Basic)
    } else if value == "pro"@ {
        Some(SubscriptionPlan::Pro)
    } else if value == "unlimited"@ {
        Some(SubscriptionPlan::Unlimited)
    } else {
        None
    }
}

pub fn parse_plan(value: &str) -> (plan: Result<SubscriptionPlan, IssueError>)
    ensures
        match plan_in(value@) {
            Some(known) => plan == Ok::<SubscriptionPlan, IssueError>(known),
            None => plan == Err::<SubscriptionPlan, IssueError>(IssueError::UnknownPlan),
        },
{
    let value = lowered(&chars_of(value));
    if spells(&value, "basic") {
        Ok(SubscriptionPlan::Basic)
    } else if spells(&value, "pro") {
        Ok(SubscriptionPlan::Pro)
    } else if spells(&value, "unlimited") {
        Ok(SubscriptionPlan::Unlimited)
    } else {
        Err(IssueError::UnknownPlan)
    }
}

/// A number of days and a plan.
pub open spec fn terms_in(days: Seq<char>, plan: Seq<char>) -> Result<(u64, SubscriptionPlan), IssueError> {
    match number(days, u64::MAX as nat) {
        None => Err(IssueError::BadDays),
        Some(days) => if days == 0 {
            Err(IssueError::NoDays)
        } else {
            match plan_in(plan) {
                None => Err(IssueError::UnknownPlan),
                Some(plan) => Ok((days as u64, plan)),
            }
        },
    }
}

fn parse_terms(days: &str, plan: &str) -> (terms: Result<(u64, SubscriptionPlan), IssueError>)
    ensures
        terms == terms_in(days@, plan@),
{
    let days: u64 = match parse_number(&chars_of(days), u64::MAX) {
        Some(days) => days,
        None => return Err(IssueError::BadDays),
    };
    if days == 0 {
        return Err(IssueError::NoDays);
    }
    match parse_plan(plan) {
        Ok(plan) => Ok((days, plan)),
        Err(error) => Err(error),
    }
}

/// The order in the words of a command line, the program's name left out.
pub open spec fn order_in(words: Seq<Seq<char>>) -> Result<Ordered, IssueError> {
    if words.len() == 0 {
        Ok(Ordered::Usage)
    } else if words[0] == "init"@ {
        Ok(Ordered::Init)
    } else if words[0] == "reality-init"@ {
        Ok(Ordered::RealityInit)
    } else if words[0] == "issue"@ {
        if words.len() != 3 {
            Ok(Ordered::IssueUsage)
        } else {
            match terms_in(words[1], words[2]) {
                Ok((days, plan)) => Ok(Ordered::Issue(days, plan)),
                Err(error) => Err(error),
            }
        }
    } else if words[0] == "setup"@ {
        if words.len() != 3 {
            Ok(Ordered::SetupUsage)
        } else {
            match terms_in(words[1], words[2]) {
                Ok((days, plan)) => Ok(Ordered::Setup(days, plan)),
                Err(error) => Err(error),
            }
        }
    } else if words[0] == "revoke"@ {
        if words.len() != 2 {
            Ok(Ordered::RevokeUsage)
        } else {
            Ok(Ordered::Revoke(words[1]))
        }
    } else {
        Ok(Ordered::Usage)
    }
}

/// Reads the words behind the program's name.
pub fn read_order(words: &Vec<String>) -> (order: Result<Order, IssueError>)
    ensures
        match order {
            Ok(order) => order_in(string_views(words@)) == Ok::<Ordered, IssueError>(order@),
            Err(error) => order_in(string_views(words@)) == Err::<Ordered, IssueError>(error),
        },
{
    if words.len() == 0 {
        return Ok(Order::Usage);
    }
    let ghost all = string_views(words@);
    let first = chars_of(&words[0]);
    assert(all[0] == first@);
    if spells(&first, "init") {
        return Ok(Order::Init);
    }
    if spells(&first, "reality-init") {
        return Ok(Order::RealityInit);
    }
    if spells(&first, "issue") {
        if words.len() != 3 {
            return Ok(Order::IssueUsage);
        }
        assert(all[1] == words@[1]@ && all[2] == words@[2]@);
        return match parse_terms(&words[1], &words[2]) {
            Ok((days, plan)) => Ok(Order::Issue { days, plan }),
            Err(error) => Err(error),
        };
    }
    if spells(&first, "setup") {
        if words.len() != 3 {
            return Ok(Order::SetupUsage);
        }
        assert(all[1] == words@[1]@ && all[2] == words@[2]@);
        return match parse_terms(&words[1], &words[2]) {
            Ok((days, plan)) => Ok(Order::Setup { days, plan }),
            Err(error) => Err(error),
        };
    }
    if spells(&first, "revoke") {
        if words.len() != 2 {
            return Ok(Order::RevokeUsage);
        }
        assert(all[1] == words@[1]@);
        return Ok(Order::Revoke(text(&words[1])));
    }
    Ok(Order::Usage)
}

/// What is said of an error in these words. A plan that is not known is
/// named.
pub open spec fn order_complaint_of(error: IssueError, words: Seq<Seq<char>>) -> Seq<char> {
    if error == IssueError::UnknownPlan && words.len() > 2 {
        "unknown subscription plan: "@ + words[2]
    } else {
        error.message_spec()
    }
}

pub fn order_complaint(error: &IssueError, words: &Vec<String>) -> (message: String)
    ensures
        message@ == order_complaint_of(*error, string_views(words@)),
{
    if let IssueError::UnknownPlan = error {
        if words.len() > 2 {
            assert(string_views(words@)[2] == words@[2]@);
            return joined("unknown subscription plan: ", &words[2]);
        }
    }
    error.message()
}

// ---------------------------------------------------------------------------
// Signing keys
// ---------------------------------------------------------------------------

/// Makes a key pair to write down. Keys that are there are not overwritten.
pub fn init_keys(private_is_there: bool, public_is_there: bool) -> (pair: Result<([u8; 32], [u8; 32]), IssueError>)
    ensures
        match pair {
            Ok((private, public)) => !private_is_there && !public_is_there && public@ == ed25519_point(private@),
            Err(error) => if private_is_there {
                error == IssueError::PrivateKeyExists
            } else if public_is_there {
                error == IssueError::PublicKeyExists
            } else {
                error == IssueError::NoRandomness
            },
        },
{
    if private_is_there {
        return Err(IssueError::PrivateKeyExists);
    }
    if public_is_there {
        return Err(IssueError::PublicKeyExists);
    }
    match generate_signing_key() {
        Ok(key) => Ok((key.to_bytes(), key.verifying_key().to_bytes())),
        Err(_) => Err(IssueError::NoRandomness),
    }
}

/// Whether `setup` has to make keys first.
pub fn needs_keys(private_is_there: bool, public_is_there: bool) -> (yes: bool)
    ensures
        yes == !(private_is_there && public_is_there),
{
    !private_is_there || !public_is_there
}

/// The signing key in a file.
pub fn load_signing_key(bytes: &[u8]) -> (key: Result<SigningKey, IssueError>)
    ensures
        match key {
            Ok(key) => key.secret@ == bytes@,
            Err(error) => bytes@.len() != 32 && error == IssueError::KeyLength,
        },
{
    if bytes.len() != 32 {
        return Err(IssueError::KeyLength);
    }
    let secret: [u8; 32] = array_at(bytes, 0);
    assert(bytes@.subrange(0, 32) =~= bytes@);
    Ok(SigningKey::from_bytes(&secret))
}

// ---------------------------------------------------------------------------
// Tokens
// ---------------------------------------------------------------------------

/// The device limit and the Mbps of a plan.
pub open spec fn limits_of(plan: SubscriptionPlan) -> (u8, u32) {
    match plan {
        SubscriptionPlan::Basic => (1, 100),
        SubscriptionPlan::Pro => (5, 500),
        SubscriptionPlan::Unlimited => (255, 0),
    }
}

pub fn plan_limits(plan: SubscriptionPlan) -> (limits: (u8, u32))
    ensures
        limits == limits_of(plan),
{
    match plan {
        SubscriptionPlan::Basic => (1, 100),
        SubscriptionPlan::Pro => (5, 500),
        SubscriptionPlan::Unlimited => (255, 0),
    }
}

/// When a subscription that starts now runs out.
pub open spec fn expiry_of(now: u64, days: u64) -> Result<u64, IssueError> {
    let lifetime = days * SECONDS_PER_DAY;
    if lifetime > u64::MAX {
        Err(IssueError::LifetimeOverflow)
    } else if now + lifetime > u64::MAX {
        Err(IssueError::ExpiryOverflow)
    } else {
        Ok((now + lifetime) as u64)
    }
}

pub fn expiry(now: u64, days: u64) -> (at: Result<u64, IssueError>)
    ensures
        at == expiry_of(now, days),
{
    match days.checked_mul(SECONDS_PER_DAY) {
        None => Err(IssueError::LifetimeOverflow),
        Some(lifetime) => match now.checked_add(lifetime) {
            None => Err(IssueError::ExpiryOverflow),
            Some(at) => Ok(at),
        },
    }
}

/// What a new token claims.
pub open spec fn new_claims(
    now: u64,
    expires_at: u64,
    plan: SubscriptionPlan,
    token_id: [u8; TOKEN_ID_SIZE],
    client_id: [u8; CLIENT_ID_SIZE],
) -> SubscriptionClaims {
    SubscriptionClaims {
        key_id: KEY_ID,
        token_id,
        client_id,
        issued_at: now,
        not_before: now,
        expires_at,
        plan,
        device_limit: limits_of(plan).0,
        max_mbps: limits_of(plan).1,
    }
}

/// A token with these ids, signed. Whoever has the public half of the key
/// sees that it was signed with it.
pub fn issue_with(
    key: &SigningKey,
    now: u64,
    days: u64,
    plan: SubscriptionPlan,
    token_id: [u8; TOKEN_ID_SIZE],
    client_id: [u8; CLIENT_ID_SIZE],
) -> (token: Result<SubscriptionToken, IssueError>)
    ensures
        match token {
            Err(error) => expiry_of(now, days) == Err::<u64, IssueError>(error),
            Ok(token) => {
                &&& expiry_of(now, days) matches Ok(at)
                &&& token.claims == new_claims(now, at, plan, token_id, client_id)
                &&& forall|public: VerifyingKey|
                    public.bytes@ == ed25519_point(key.secret@) ==> #[trigger] token.signed_by(public)
            },
        },
{
    let expires_at: u64 = match expiry(now, days) {
        Ok(at) => at,
        Err(error) => return Err(error),
    };
    let (device_limit, max_mbps) = plan_limits(plan);
    let claims = SubscriptionClaims {
        key_id: KEY_ID,
        token_id,
        client_id,
        issued_at: now,
        not_before: now,
        expires_at,
        plan,
        device_limit,
        max_mbps,
    };
    Ok(SubscriptionToken::sign(claims, key))
}

/// Some ids make the token's claims.
pub open spec fn is_new_token(token: SubscriptionToken, now: u64, at: u64, plan: SubscriptionPlan) -> bool {
    exists|token_id: [u8; TOKEN_ID_SIZE], client_id: [u8; CLIENT_ID_SIZE]|
        token.claims == #[trigger] new_claims(now, at, plan, token_id, client_id)
}

/// Issues a token with random ids, with the key in a file.
pub fn issue_token(key_file: &[u8], now: u64, days: u64, plan: SubscriptionPlan) -> (token: Result<
    SubscriptionToken,
    IssueError,
>)
    ensures
        match token {
            Err(error) => {
                ||| key_file@.len() != 32 && error == IssueError::KeyLength
                ||| key_file@.len() == 32 && expiry_of(now, days) == Err::<u64, IssueError>(error)
                ||| key_file@.len() == 32 && expiry_of(now, days) is Ok && error == IssueError::NoRandomness
            },
            Ok(token) => {
                &&& key_file@.len() == 32
                &&& expiry_of(now, days) matches Ok(at)
                &&& is_new_token(token, now, at, plan)
                &&& forall|public: VerifyingKey|
                    public.bytes@ == ed25519_point(key_file@) ==> #[trigger] token.signed_by(public)
            },
        },
{
    let key = match load_signing_key(key_file) {
        Ok(key) => key,
        Err(error) => return Err(error),
    };
    if let Err(error) = expiry(now, days) {
        return Err(error);
    }
    let token_id: [u8; TOKEN_ID_SIZE] = match os_random_array() {
        Some(id) => id,
        None => return Err(IssueError::NoRandomness),
    };
    let client_id: [u8; CLIENT_ID_SIZE] = match os_random_array() {
        Some(id) => id,
        None => return Err(IssueError::NoRandomness),
    };
    issue_with(&key, now, days, plan, token_id, client_id)
}

/// A token that was issued passes the server that has the public half of the
/// key, from then on (and, by the clock's allowance, a little before) until
/// it runs out or is revoked.
pub proof fn law_issued_token_passes(
    keys: Map<u32, VerifyingKey>,
    revoked: Set<Seq<u8>>,
    token: SubscriptionToken,
    issued: u64,
    days: u64,
    plan: SubscriptionPlan,
    now: u64,
)
    requires
        days > 0,
        expiry_of(issued, days) is Ok,
        is_new_token(token, issued, expiry_of(issued, days)->Ok_0, plan),
        keys.contains_key(KEY_ID),
        token.signed_by(keys[KEY_ID]),
    ensures
        issued <= now + CLOCK_SKEW_SECONDS && now < issued + days * SECONDS_PER_DAY && !revoked.contains(
            token.claims.token_id@,
        ) ==> verdict(keys, revoked, token, now) is Ok,
        now >= issued + days * SECONDS_PER_DAY ==> verdict(keys, revoked, token, now) is Err,
        revoked.contains(token.claims.token_id@) ==> verdict(keys, revoked, token, now) is Err,
{
}

// ---------------------------------------------------------------------------
// Revocations
// ---------------------------------------------------------------------------

/// The token id that is meant: that of the token in the file of this name, or
/// the one that is spelled out.
pub open spec fn meant_id(what: Seq<char>, file: Option<Seq<u8>>) -> Option<Seq<u8>> {
    match file {
        Some(bytes) => if token_fault(bytes) is None {
            Some((choose|t: SubscriptionToken| t.wire() == bytes).claims.token_id@)
        } else {
            None
        },
        None => token_id_in(what),
    }
}

/// Reads what is to be revoked; `file` is what is in the file of that name,
/// if there is one.
pub fn id_to_revoke(what: &str, file: Option<Vec<u8>>) -> (id: Result<[u8; TOKEN_ID_SIZE], IssueError>)
    ensures
        ({
            let bytes = match file {
                Some(bytes) => Some(bytes@),
                None => None,
            };
            match id {
                Ok(id) => meant_id(what@, bytes) == Some(id@),
                Err(error) => meant_id(what@, bytes) is None && error == IssueError::NoTokenId,
            }
        }),
{
    match file {
        Some(bytes) => {
            let ghost data = bytes@;
            match SubscriptionToken::decode(bytes_from_vec(bytes)) {
                Ok(token) => {
                    proof {
                        law_token_roundtrip(
                            token,
                            choose|t: SubscriptionToken| t.wire() == data,
                        );
                    }
                    Ok(token.claims.token_id)
                },
                Err(_) => Err(IssueError::NoTokenId),
            }
        },
        None => match parse_token_id_hex(what) {
            Some(id) => Ok(id),
            None => Err(IssueError::NoTokenId),
        },
    }
}

// ---------------------------------------------------------------------------
// REALITY
// ---------------------------------------------------------------------------

/// A key pair and a short id, each as text.
pub struct RealityFiles {
    pub private_key: String,
    pub public_key: String,
    pub short_id: String,
}

impl RealityFiles {
    /// The files tell this private key, its public half and this short id.
    pub open spec fn tell(&self, private: Seq<u8>, short: Seq<u8>) -> bool {
        &&& private.len() == 32
        &&& short.len() == 8
        &&& self.private_key@ == hex_text(private)
        &&& self.public_key@ == hex_text(x25519_point(private))
        &&& self.short_id@ == hex_text(short)
    }

    /// The files belong together.
    pub open spec fn belong(&self) -> bool {
        exists|private: Seq<u8>, short: Seq<u8>| #[trigger] self.tell(private, short)
    }
}

/// The files for a key pair and a short id.
pub fn reality_files(pair: &RealityKeypair, short: &[u8; 8]) -> (files: RealityFiles)
    ensures
        files.private_key@ == hex_text(pair.private@),
        files.public_key@ == hex_text(pair.public@),
        files.short_id@ == hex_text(short@),
{
    RealityFiles {
        private_key: encode_hex(&pair.private),
        public_key: encode_hex(&pair.public),
        short_id: encode_hex(short),
    }
}

/// Makes the keys of REALITY, to write down. It fails only where the operating
/// system has no random bytes to give.
pub fn reality_init() -> (files: Result<RealityFiles, IssueError>)
    ensures
        match files {
            Ok(files) => files.belong(),
            Err(error) => error == IssueError::NoRandomness,
        },
{
    let pair = match generate_keypair() {
        Ok(pair) => pair,
        Err(_) => return Err(IssueError::NoRandomness),
    };
    let short: [u8; 8] = match os_random_array() {
        Some(short) => short,
        None => return Err(IssueError::NoRandomness),
    };
    let files = reality_files(&pair, &short);
    assert(files.tell(pair.private@, short@));
    Ok(files)
}

// ---------------------------------------------------------------------------
// Laws
// ---------------------------------------------------------------------------

/// A token is good from the moment that it is issued, for as many days of
/// 86400 seconds as were ordered, for as many devices and as much speed as
/// its plan has: one and 100 Mbps, five and 500, or without a limit. There is
/// none only where its end is beyond what 64 bits can count.
pub proof fn law_issued_token(
    key: &SigningKey,
    now: u64,
    days: u64,
    plan: SubscriptionPlan,
    token_id: [u8; TOKEN_ID_SIZE],
    client_id: [u8; CLIENT_ID_SIZE],
    token: Result<SubscriptionToken, IssueError>,
)
    requires
        call_ensures(issue_with, (key, now, days, plan, token_id, client_id), token),
    ensures
        token is Ok <==> now + days * 86_400 < 0x1_0000_0000_0000_0000,
        token matches Ok(token) ==> {
            let c = token.claims;
            &&& c.expires_at == now + days * 86_400
            &&& c.issued_at == now && c.not_before == now
            &&& c.key_id == 1
            &&& c.token_id == token_id && c.client_id == client_id
            &&& c.plan == plan
            &&& plan == SubscriptionPlan::Basic ==> c.device_limit == 1 && c.max_mbps == 100
            &&& plan == SubscriptionPlan::Pro ==> c.device_limit == 5 && c.max_mbps == 500
            &&& plan == SubscriptionPlan::Unlimited ==> c.device_limit == 255 && c.max_mbps == 0
            &&& forall|public: VerifyingKey|
                public.bytes@ == ed25519_point(key.secret@) ==> #[trigger] token.signed_by(public)
        },
        token matches Err(error) ==> error == (if days * 86_400 >= 0x1_0000_0000_0000_0000 {
            IssueError::LifetimeOverflow
        } else {
            IssueError::ExpiryOverflow
        }),
{
}

/// The same of a token with random ids; it needs a key of 32 bytes.
pub proof fn law_token_from_file(
    key_file: &[u8],
    now: u64,
    days: u64,
    plan: SubscriptionPlan,
    token: Result<SubscriptionToken, IssueError>,
)
    requires
        call_ensures(issue_token, (key_file, now, days, plan), token),
    ensures
        token matches Ok(token) ==> {
            let c = token.claims;
            &&& key_file@.len() == 32
            &&& c.expires_at == now + days * 86_400
            &&& c.issued_at == now && c.not_before == now
            &&& c.key_id == 1
            &&& c.plan == plan
            &&& plan == SubscriptionPlan::Basic ==> c.device_limit == 1 && c.max_mbps == 100
            &&& plan == SubscriptionPlan::Pro ==> c.device_limit == 5 && c.max_mbps == 500
            &&& plan == SubscriptionPlan::Unlimited ==> c.device_limit == 255 && c.max_mbps == 0
            &&& forall|public: VerifyingKey|
                public.bytes@ == ed25519_point(key_file@) ==> #[trigger] token.signed_by(public)
        },
        token matches Err(error) ==> {
            &&& key_file@.len() != 32 ==> error == IssueError::KeyLength
            &&& key_file@.len() == 32 && now + days * 86_400 < 0x1_0000_0000_0000_0000 ==> error
                == IssueError::NoRandomness
        },
{
}

/// What the tool is told is what it does: the first word says what, and a
/// token is ordered with a number of days above zero and a plan, whose name
/// may be in capital letters.
pub proof fn law_orders(words: &Vec<String>, order: Result<Order, IssueError>)
    requires
        call_ensures(read_order, (words,), order),
    ensures
        ({
            let w = string_views(words@);
            &&& w.len() == 0 ==> (order matches Ok(Order::Usage))
            &&& w.len() > 0 && w[0] == "init"@ ==> (order matches Ok(Order::Init))
            &&& w.len() > 0 && w[0] == "reality-init"@ ==> ((order matches Ok(Order::RealityInit)) || w[0] == "init"@)
            &&& (order matches Ok(Order::Init)) ==> w.len() > 0 && w[0] == "init"@
            &&& (order matches Ok(Order::RealityInit)) ==> w.len() > 0 && w[0] == "reality-init"@
            &&& order matches Ok(Order::Revoke(what)) ==> w.len() == 2 && w[0] == "revoke"@ && w[1] == what@
            &&& order matches Ok(Order::Issue { days, plan }) ==> {
                &&& w.len() == 3 && w[0] == "issue"@
                &&& days > 0
                &&& number(w[1], 0xffff_ffff_ffff_ffff) == Some(days as nat)
                &&& plan == SubscriptionPlan::Basic <==> lower_all(w[2]) == "basic"@
                &&& plan == SubscriptionPlan::Pro ==> lower_all(w[2]) == "pro"@
                &&& plan == SubscriptionPlan::Unlimited ==> lower_all(w[2]) == "unlimited"@
            }
            &&& order matches Ok(Order::Setup { days, plan }) ==> {
                &&& w.len() == 3 && w[0] == "setup"@
                &&& days > 0
                &&& number(w[1], 0xffff_ffff_ffff_ffff) == Some(days as nat)
                &&& plan == SubscriptionPlan::Basic <==> lower_all(w[2]) == "basic"@
                &&& plan == SubscriptionPlan::Pro ==> lower_all(w[2]) == "pro"@
                &&& plan == SubscriptionPlan::Unlimited ==> lower_all(w[2]) == "unlimited"@
            }
            &&& order matches Err(error) ==> {
                &&& w.len() == 3 && (w[0] == "issue"@ || w[0] == "setup"@)
                &&& error == IssueError::BadDays <==> number(w[1], 0xffff_ffff_ffff_ffff) is None
                &&& error == IssueError::NoDays <==> number(w[1], 0xffff_ffff_ffff_ffff) == Some(0nat)
                &&& error == IssueError::BadDays || error == IssueError::NoDays || error == IssueError::UnknownPlan
            }
            &&& w.len() == 3 && w[0] == "issue"@ ==> order is Err || (order matches Ok(Order::Issue { .. }))
            &&& w.len() == 3 && w[0] == "setup"@ ==> order is Err || (order matches Ok(Order::Setup { .. }))
            &&& w.len() == 2 && w[0] == "revoke"@ ==> (order matches Ok(Order::Revoke(_)))
            &&& order == Err::<Order, IssueError>(IssueError::UnknownPlan) ==> {
                let plan = lower_all(w[2]);
                plan != "basic"@ && plan != "pro"@ && plan != "unlimited"@
            }
        }),
{
    reveal_strlit("init");
    reveal_strlit("reality-init");
    reveal_strlit("issue");
    reveal_strlit("setup");
    reveal_strlit("revoke");
    assert("init"@.len() == 4 && "reality-init"@.len() == 12 && "revoke"@.len() == 6);
    assert("issue"@[0] == 'i' && "setup"@[0] == 's');
}

/// Keys that are there are not overwritten, and a new pair belongs together.
pub proof fn law_new_keys(
    private_is_there: bool,
    public_is_there: bool,
    pair: Result<([u8; 32], [u8; 32]), IssueError>,
    needed: bool,
)
    requires
        call_ensures(init_keys, (private_is_there, public_is_there), pair),
        call_ensures(needs_keys, (private_is_there, public_is_there), needed),
    ensures
        private_is_there || public_is_there ==> pair is Err,
        pair matches Ok(pair) ==> pair.1@ == ed25519_point(pair.0@),
        needed <==> !private_is_there || !public_is_there,
{
}

/// What is revoked is the id of the token in the file, or the id that is
/// spelled out.
pub proof fn law_what_is_revoked(
    what: &str,
    file: Option<Vec<u8>>,
    id: Result<[u8; TOKEN_ID_SIZE], IssueError>,
    token: SubscriptionToken,
)
    requires
        call_ensures(id_to_revoke, (what, file), id),
    ensures
        file matches Some(bytes) ==> (bytes@ == token.wire() ==> (id matches Ok(id) && id@ == token.claims.token_id@)),
        file matches Some(bytes) ==> (id is Ok <==> token_fault(bytes@) is None),
        file is None ==> (id is Ok <==> token_id_in(what@) is Some),
        file is None ==> (id matches Ok(id) ==> token_id_in(what@) == Some(id@)),
{
    law_token_roundtrip(token, choose|t: SubscriptionToken| t.wire() == token.wire());
}

/// The files of REALITY hold a private key, its public half and a short id.
pub proof fn law_reality_files(pair: &RealityKeypair, short: &[u8; 8], files: RealityFiles)
    requires
        call_ensures(reality_files, (pair, short), files),
    ensures
        files.private_key@ == hex_text(pair.private@),
        files.public_key@ == hex_text(pair.public@),
        files.short_id@ == hex_text(short@),
{
}

/// Plans by their names, in small letters or capitals, and what each gives:
/// devices and megabits.
pub proof fn law_plans(value: &str, plan: Result<SubscriptionPlan, IssueError>, p: SubscriptionPlan, limits: (u8, u32))
    requires
        call_ensures(parse_plan, (value,), plan),
        call_ensures(plan_limits, (p,), limits),
    ensures
        ({
            let v = lower_all(value@);
            &&& v == "basic"@ ==> plan == Ok::<SubscriptionPlan, IssueError>(SubscriptionPlan::Basic)
            &&& v == "pro"@ && v != "basic"@ ==> plan == Ok::<SubscriptionPlan, IssueError>(SubscriptionPlan::Pro)
            &&& v == "unlimited"@ && v != "basic"@ && v != "pro"@ ==> plan == Ok::<SubscriptionPlan, IssueError>(
                SubscriptionPlan::Unlimited,
            )
            &&& v != "basic"@ && v != "pro"@ && v != "unlimited"@ ==> plan is Err
        }),
        p == SubscriptionPlan::Basic ==> limits == (1u8, 100u32),
        p == SubscriptionPlan::Pro ==> limits == (5u8, 500u32),
        p == SubscriptionPlan::Unlimited ==> limits == (255u8, 0u32),
{
}

/// A subscription runs out so many days of 86400 seconds after its start,
/// where that is a number at all; a key file has 32 bytes.
pub proof fn law_lifetime(
    now: u64,
    days: u64,
    at: Result<u64, IssueError>,
    file: &[u8],
    key: Result<SigningKey, IssueError>,
)
    requires
        call_ensures(expiry, (now, days), at),
        call_ensures(load_signing_key, (file,), key),
    ensures
        at is Ok <==> now + days * 86_400 <= u64::MAX,
        at matches Ok(at) ==> at == now + days * 86_400,
        days * 86_400 > u64::MAX ==> at == Err::<u64, IssueError>(IssueError::LifetimeOverflow),
        key is Ok <==> file@.len() == 32,
        key matches Ok(key) ==> key.secret@ == file@,
{
    if let Ok(key) = key {
        assert(key.secret@.len() == 32);
    }
}

} // verus!
