//! What a token is good for, told by what it claims.

use bytes::Bytes;
use vstd::prelude::*;

use super::keys::{SigningKey, VerificationKeyRing, VerifyingKey};
use super::token::{AuthError, SubscriptionClaims, SubscriptionPlan, SubscriptionToken, TOKEN_ID_SIZE};
use super::verify::{
    append_revoked_id, ids_in, load_revoked_ids, parse_token_id_hex, token_id_hex, FileRevocationStore,
    MemoryRevocationStore, RevocationStore, SubscriptionVerifier,
};
use crate::buffer::bytes_view;
use crate::crypto::ed25519_point;
use crate::text::{hex_text, law_hex_roundtrip, trim, trim_prefixes};
use crate::wire::be_bytes;

verus! {

/// A token is good if and only if a known key signed it, it is valid for some
/// time, that time has begun and has not ended, it was not issued later than
/// now, and its id was not revoked. For its beginning, five minutes are
/// allowed for the clocks; for its end none.
pub proof fn law_good_token<R: RevocationStore>(
    v: &SubscriptionVerifier<R>,
    token: &SubscriptionToken,
    now: u64,
    result: Result<SubscriptionClaims, AuthError>,
)
    requires
        call_ensures(SubscriptionVerifier::<R>::verify_at, (v, token, now), result),
    ensures
        ({
            let c = token.claims;
            let known = v.keys@.contains_key(c.key_id);
            let signed = known && token.signed_by(v.keys@[c.key_id]);
            let lasts = c.not_before < c.expires_at;
            let issued = c.issued_at <= now + 300;
            let begun = c.not_before <= now + 300;
            let revoked = v.revocations.ids().contains(c.token_id@);
            &&& result is Ok <==> signed && lasts && issued && begun && now < c.expires_at && !revoked
            &&& result matches Ok(claims) ==> claims == c
            &&& !known ==> result == Err::<SubscriptionClaims, AuthError>(AuthError::UnknownKeyId(c.key_id))
            &&& known && !signed ==> result == Err::<SubscriptionClaims, AuthError>(AuthError::InvalidSignature)
            &&& signed && !lasts ==> result == Err::<SubscriptionClaims, AuthError>(AuthError::InvalidTimeRange)
            &&& signed && lasts && !issued ==> result == Err::<SubscriptionClaims, AuthError>(
                AuthError::IssuedInFuture,
            )
            &&& signed && lasts && issued && !begun ==> result == Err::<SubscriptionClaims, AuthError>(
                AuthError::NotYetValid,
            )
            &&& signed && lasts && issued && begun && now >= c.expires_at ==> result == Err::<
                SubscriptionClaims,
                AuthError,
            >(AuthError::Expired)
            &&& signed && lasts && issued && begun && now < c.expires_at && revoked ==> result == Err::<
                SubscriptionClaims,
                AuthError,
            >(AuthError::Revoked)
        }),
{
}

/// What was signed with a key is seen to be so with its public half, whatever
/// is claimed.
pub proof fn law_signature(
    claims: SubscriptionClaims,
    key: &SigningKey,
    token: SubscriptionToken,
    public: &VerifyingKey,
    result: Result<(), AuthError>,
)
    requires
        call_ensures(SubscriptionToken::sign, (claims, key), token),
        call_ensures(SigningKey::verifying_key, (key,), *public),
        call_ensures(SubscriptionToken::verify_signature, (&token, public), result),
    ensures
        token.claims == claims,
        result is Ok,
        public.bytes@ == ed25519_point(key.secret@),
{
}

/// A token is 135 bytes: `PAYT`, version 1, the number of the key, the ids of
/// the token and of the client, when it was issued, begins and ends, the
/// plan, the devices and the speed, and the signature over all that.
pub proof fn law_token_layout(
    token: &SubscriptionToken,
    out: Bytes,
    data: Bytes,
    read: Result<SubscriptionToken, AuthError>,
)
    requires
        call_ensures(SubscriptionToken::encode, (token,), out),
        call_ensures(SubscriptionToken::decode, (data,), read),
    ensures
        ({
            let c = token.claims;
            let plan: u8 = match c.plan {
                SubscriptionPlan::Basic => 1,
                SubscriptionPlan::Pro => 2,
                SubscriptionPlan::Unlimited => 3,
            };
            bytes_view(out) == seq![80u8, 65, 89, 84] + seq![1u8] + be_bytes(c.key_id as nat, 4) + c.token_id@
                + c.client_id@ + be_bytes(c.issued_at as nat, 8) + be_bytes(c.not_before as nat, 8) + be_bytes(
                c.expires_at as nat,
                8,
            ) + seq![plan, c.device_limit] + be_bytes(c.max_mbps as nat, 4) + token.signature@
        }),
        ({
            let d = bytes_view(data);
            &&& read is Ok <==> d.len() == 135 && d.take(4) == seq![80u8, 65, 89, 84] && d[4] == 1 && 1 <= d[65] <= 3
            &&& read matches Ok(token) ==> token.wire() == d
            &&& d.len() != 135 ==> read == Err::<SubscriptionToken, AuthError>(AuthError::InvalidTokenLength)
            &&& d.len() == 135 && d.take(4) != seq![80u8, 65, 89, 84] ==> read == Err::<SubscriptionToken, AuthError>(
                AuthError::InvalidMagic,
            )
            &&& d.len() == 135 && d.take(4) == seq![80u8, 65, 89, 84] && d[4] != 1 ==> read == Err::<
                SubscriptionToken,
                AuthError,
            >(AuthError::UnsupportedTokenVersion(d[4]))
            &&& d.len() == 135 && d.take(4) == seq![80u8, 65, 89, 84] && d[4] == 1 && !(1 <= d[65] <= 3) ==> read
                == Err::<SubscriptionToken, AuthError>(AuthError::UnknownPlan(d[65]))
        }),
{
    let magic = super::token::TOKEN_MAGIC;
    assert(magic@ =~= seq![80u8, 65, 89, 84]);
}

/// An id that was written down is read back as it was, alone on its line,
/// behind blanks or `0x` too; a line of another length is no id.
pub proof fn law_id_is_read_back(
    id: &[u8; TOKEN_ID_SIZE],
    written: String,
    line: &str,
    read: Option<[u8; TOKEN_ID_SIZE]>,
)
    requires
        call_ensures(token_id_hex, (id,), written),
        call_ensures(parse_token_id_hex, (line,), read),
    ensures
        written@ == hex_text(id@),
        written@.len() == 32,
        trim_prefixes(trim(line@), seq!['0', 'x']) == written@ ==> (read matches Some(read) && read@ == id@),
        trim_prefixes(trim(line@), seq!['0', 'x']).len() != 32 ==> read is None,
{
    law_hex_roundtrip(id@);
}

/// An id that was added to the list is revoked from then on, and no other
/// that was not; one that is there is not added again.
pub proof fn law_revoking(
    list: &str,
    id: [u8; TOKEN_ID_SIZE],
    longer: Option<String>,
    before: MemoryRevocationStore,
    after: MemoryRevocationStore,
    other: &[u8; TOKEN_ID_SIZE],
    was: bool,
    is: bool,
)
    requires
        call_ensures(append_revoked_id, (list, id), longer),
        call_ensures(load_revoked_ids, (list,), before),
        longer matches Some(text) ==> after.ids() == ids_in(text@),
        longer is None ==> after.ids() == before.ids(),
        was == before.ids().contains(other@),
        is == after.ids().contains(other@),
    ensures
        is <==> was || other@ == id@,
        longer is None <==> before.ids().contains(id@),
{
    super::verify::law_appended_id_is_revoked(list@, id@);
}

/// A store in memory knows the ids that were put in, and no others.
pub proof fn law_store_in_memory(
    store: &mut MemoryRevocationStore,
    id: [u8; TOKEN_ID_SIZE],
    unit: (),
    later: MemoryRevocationStore,
    other: &[u8; TOKEN_ID_SIZE],
    yes: bool,
    fresh: MemoryRevocationStore,
)
    requires
        call_ensures(MemoryRevocationStore::revoke, (store, id), unit),
        later == *final(store),
        call_ensures(MemoryRevocationStore::is_revoked, (&later, other), yes),
        call_ensures(MemoryRevocationStore::new, (), fresh),
    ensures
        yes <==> other@ == id@ || old(store).ids().contains(other@),
        !fresh.ids().contains(other@),
{
}

/// A list on disk counts as it was last written: it is read again when its
/// time differs, and a list that cannot be read holds nothing.
pub proof fn law_store_on_disk(
    store: &mut FileRevocationStore,
    mtime: Option<u128>,
    text: Option<&str>,
    unit: (),
    id: Seq<u8>,
)
    requires
        call_ensures(FileRevocationStore::refresh, (store, mtime, text), unit),
    ensures
        final(store).time() == mtime,
        old(store).time() == mtime ==> final(store).ids() == old(store).ids(),
        old(store).time() != mtime && text is None ==> !final(store).ids().contains(id),
        old(store).time() != mtime ==> (text matches Some(text) ==> (final(store).ids().contains(id) <==> ids_in(
            text@,
        ).contains(id))),
{
}

/// A key is found under its number.
pub proof fn law_key_ring(
    ring: &mut VerificationKeyRing,
    number: u32,
    key: VerifyingKey,
    unit: (),
    later: VerificationKeyRing,
    asked: u32,
    found: Result<&VerifyingKey, AuthError>,
)
    requires
        call_ensures(VerificationKeyRing::insert, (ring, number, key), unit),
        later@ == final(ring)@,
        call_ensures(VerificationKeyRing::get, (&later, asked), found),
    ensures
        asked == number ==> (found matches Ok(k) && *k == key),
        asked != number ==> (found is Ok <==> old(ring)@.contains_key(asked)),
        asked != number && old(ring)@.contains_key(asked) ==> (found matches Ok(k) && *k == old(ring)@[asked]),
        found matches Err(error) ==> error == AuthError::UnknownKeyId(asked),
{
}

} // verus!
