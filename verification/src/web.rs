//! The update endpoint's decision logic: given the request's token — or its
//! absence — and body, and exclusive access to the store, decide the status
//! and apply the change. Only HTTP routing and JSON stay outside the
//! library.

use vstd::prelude::*;

use crate::dns::DomainName;
use crate::dns::IpAddress;
use crate::dns::stripped;
use crate::dns::suffix_strippable;
use crate::storage::Storage;
use crate::storage::SubDomainEntry;
use crate::storage::lemma_seq_lookup_update;
use crate::storage::seq_lookup_at;
use crate::wire::fold;

verus! {

/// One update request: the name to change and the address to store.
#[derive(Debug, Clone, PartialEq)]
pub struct UpdateInfo {
    pub hostname: String,
    pub ip: IpAddress,
}

/// The status the endpoint answers with: 204, 401, 403 or 422.
#[derive(Debug, Clone, Copy, PartialEq, Eq, Structural)]
pub enum UpdateStatus {
    /// The entry was updated: 204.
    NoContent,
    /// No token came with the request: 401.
    Unauthorized,
    /// The token does not match the entry's: 403.
    Forbidden,
    /// The name is not a registered subdomain of the zone: 422.
    UnprocessableEntity,
}

/// `e` with the address of `ip`'s family replaced and everything else — the
/// token above all — kept.
pub open spec fn updated_entry(e: SubDomainEntry, ip: IpAddress) -> SubDomainEntry {
    match ip {
        IpAddress::V4(a) => SubDomainEntry { ipv4: Some(a), ipv6: e.ipv6, token: e.token },
        IpAddress::V6(a) => SubDomainEntry { ipv4: e.ipv4, ipv6: Some(a), token: e.token },
    }
}

/// Applies one authenticated update to the store.
///
/// A name that does not resolve — out of the zone, or never registered —
/// is refused with 422 and the store untouched: updates can never create an
/// entry. A wrong token is refused with 403 and the store untouched. A
/// matching token stores the address under its family and answers 204; the
/// token is kept, no other entry and no other name's lookup changes, and
/// the change is visible to every later lookup of the name.
pub fn update_address_handler(
    token: &String,
    update_info: &UpdateInfo,
    storage: &mut Storage,
) -> (r: UpdateStatus)
    ensures
        final(storage).origin() == old(storage).origin(),
        old(storage).wf() ==> final(storage).wf(),
        match old(storage).spec_get(update_info.hostname@) {
            None => r == UpdateStatus::UnprocessableEntity && final(storage).entries() == old(
                storage,
            ).entries(),
            Some(e) => {
                if e.token@ != token@ {
                    r == UpdateStatus::Forbidden && final(storage).entries() == old(
                        storage,
                    ).entries()
                } else {
                    r == UpdateStatus::NoContent && forall|n2: Seq<char>|
                        #[trigger] final(storage).spec_get(n2) == (if suffix_strippable(
                            n2,
                            old(storage).origin(),
                        ) && fold(stripped(n2, old(storage).origin())) == fold(
                            stripped(update_info.hostname@, old(storage).origin()),
                        ) {
                            Some(updated_entry(e, update_info.ip))
                        } else {
                            old(storage).spec_get(n2)
                        })
                }
            },
        },
{
    let name = DomainName::new(update_info.hostname.clone());
    let ghost key = stripped(update_info.hostname@, old(storage).origin());
    match storage.get_mut(&name) {
        None => UpdateStatus::UnprocessableEntity,
        Some(entry) => {
            let ghost e0 = *entry;
            if !(*token == entry.token) {
                proof {
                    let i = choose|i: int|
                        #[trigger] seq_lookup_at(old(storage).entries(), key, i) && e0 == old(
                            storage,
                        ).entries()[i].1;
                    assert(old(storage).entries().update(
                        i,
                        (old(storage).entries()[i].0, e0),
                    ) =~= old(storage).entries());
                }
                return UpdateStatus::Forbidden;
            }
            match update_info.ip {
                IpAddress::V4(a) => {
                    entry.ipv4 = Some(a);
                },
                IpAddress::V6(a) => {
                    entry.ipv6 = Some(a);
                },
            }
            proof {
                let i = choose|i: int|
                    #[trigger] seq_lookup_at(old(storage).entries(), key, i) && e0 == old(
                        storage,
                    ).entries()[i].1;
                lemma_after_update(old(storage).entries(), i, updated_entry(e0, update_info.ip));
            }
            UpdateStatus::NoContent
        },
    }
}

/// Handles one update request as the endpoint receives it: a request that
/// carried no authorization token is refused with 401 and the store
/// untouched; otherwise the token decides as `update_address_handler` says.
pub fn update_address_request(
    token: Option<&String>,
    update_info: &UpdateInfo,
    storage: &mut Storage,
) -> (r: UpdateStatus)
    ensures
        final(storage).origin() == old(storage).origin(),
        old(storage).wf() ==> final(storage).wf(),
        match token {
            None => r == UpdateStatus::Unauthorized && final(storage).entries() == old(
                storage,
            ).entries(),
            Some(t) => match old(storage).spec_get(update_info.hostname@) {
                None => r == UpdateStatus::UnprocessableEntity && final(storage).entries() == old(
                    storage,
                ).entries(),
                Some(e) => {
                    if e.token@ != t@ {
                        r == UpdateStatus::Forbidden && final(storage).entries() == old(
                            storage,
                        ).entries()
                    } else {
                        r == UpdateStatus::NoContent && forall|n2: Seq<char>|
                            #[trigger] final(storage).spec_get(n2) == (if suffix_strippable(
                                n2,
                                old(storage).origin(),
                            ) && fold(stripped(n2, old(storage).origin())) == fold(
                                stripped(update_info.hostname@, old(storage).origin()),
                            ) {
                                Some(updated_entry(e, update_info.ip))
                            } else {
                                old(storage).spec_get(n2)
                            })
                    }
                },
            },
        },
{
    match token {
        None => UpdateStatus::Unauthorized,
        Some(t) => update_address_handler(t, update_info, storage),
    }
}

/// Folds `lemma_seq_lookup_update` over all keys: replacing the value at a
/// lookup's landing index redirects exactly that key's lookup.
proof fn lemma_after_update(
    s: Seq<(DomainName, SubDomainEntry)>,
    i: int,
    e2: SubDomainEntry,
)
    requires
        0 <= i < s.len(),
        forall|j: int| 0 <= j < i ==> fold((#[trigger] s[j]).0@) != fold(s[i].0@),
    ensures
        forall|key2: Seq<char>|
            #[trigger] crate::storage::seq_lookup(s.update(i, (s[i].0, e2)), key2) == (if fold(
                key2,
            ) == fold(s[i].0@) {
                Some(e2)
            } else {
                crate::storage::seq_lookup(s, key2)
            }),
{
    assert forall|key2: Seq<char>|
        #[trigger] crate::storage::seq_lookup(s.update(i, (s[i].0, e2)), key2) == (if fold(key2)
            == fold(s[i].0@) {
            Some(e2)
        } else {
            crate::storage::seq_lookup(s, key2)
        }) by {
        lemma_seq_lookup_update(s, i, e2, key2);
    }
}

} // verus!
