//! When a certificate is read anew, and whom an ACME account belongs to.

use vstd::prelude::*;

use crate::text::{begins_with, chars_of, string_of};

verus! {

/// When certificate and key were changed last, as far as that is known.
#[derive(Clone, Copy, Debug, PartialEq, Eq, Structural)]
pub struct FileTimes {
    pub cert: Option<u128>,
    pub key: Option<u128>,
}

/// Whether the files have to be read: there is nothing in memory, or they
/// were changed since.
pub fn needs_reload(cached: Option<FileTimes>, now: FileTimes) -> (yes: bool)
    ensures
        yes == (cached != Some(now)),
{
    match cached {
        None => true,
        Some(cached) => {
            let same_cert = match (cached.cert, now.cert) {
                (Some(a), Some(b)) => a == b,
                (None, None) => true,
                _ => false,
            };
            let same_key = match (cached.key, now.key) {
                (Some(a), Some(b)) => a == b,
                (None, None) => true,
                _ => false,
            };
            !same_cert || !same_key
        },
    }
}

/// What to serve after an attempt to read the files.
#[derive(Clone, Copy, Debug, PartialEq, Eq, Structural)]
pub enum Served {
    /// What is in memory.
    Cached,
    /// What was read; it is kept with the times of its files.
    Fresh,
    Nothing,
}

/// A failed reload keeps the certificate that was there before.
pub fn served(has_cached: bool, stale: bool, read_ok: bool) -> (served: Served)
    ensures
        served == (if stale && read_ok {
            Served::Fresh
        } else if has_cached {
            Served::Cached
        } else {
            Served::Nothing
        }),
{
    if stale && read_ok {
        Served::Fresh
    } else if has_cached {
        Served::Cached
    } else {
        Served::Nothing
    }
}

/// `mailto:` and the address, or the admin of the domain.
pub open spec fn contact_of(email: Option<Seq<char>>, domain: Seq<char>) -> Seq<char> {
    match email {
        None => "mailto:admin@"@ + domain,
        Some(email) => if "mailto:"@.len() <= email.len() && email.take("mailto:"@.len() as int) == "mailto:"@ {
            email
        } else {
            "mailto:"@ + email
        },
    }
}

/// The contact of the ACME account.
pub fn acme_contact(email: Option<&str>, domain: &str) -> (contact: String)
    ensures
        contact@ == contact_of(
            match email {
                Some(email) => Some(email@),
                None => None,
            },
            domain@,
        ),
{
    match email {
        None => {
            let mut out = chars_of("mailto:admin@");
            out.extend_from_slice(&chars_of(domain));
            assert(out@ =~= "mailto:admin@"@ + domain@);
            string_of(&out)
        },
        Some(email) => {
            let chars = chars_of(email);
            let mut out = chars_of("mailto:");
            if begins_with(&chars, &out) {
                return string_of(&chars);
            }
            out.extend_from_slice(&chars);
            assert(out@ =~= "mailto:"@ + email@);
            string_of(&out)
        },
    }
}

} // verus!
