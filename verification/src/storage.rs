//! The record store: the zone origin and the entries of its subdomains.
//! Lookups are scoped to the origin: a name resolves only when it is
//! strictly under the origin, and then by its stripped key. The store is
//! sized at construction; lookups can change an entry's addresses but can
//! never add a key.

use vstd::prelude::*;

use crate::dns::DomainName;
use crate::dns::Ipv4Addr;
use crate::dns::Ipv6Addr;
use crate::dns::stripped;
use crate::wire::fold;
use crate::dns::suffix_strippable;

verus! {

/// What the store knows of one subdomain: the addresses, absent until the
/// update endpoint sets them, and the token that authorizes updates.
#[derive(Debug, Clone, PartialEq)]
pub struct SubDomainEntry {
    pub ipv4: Option<Ipv4Addr>,
    pub ipv6: Option<Ipv6Addr>,
    pub token: String,
}

/// The first entry under `key`, scanning left to right; keys match without
/// regard to ASCII case.
pub open spec fn seq_lookup(s: Seq<(DomainName, SubDomainEntry)>, key: Seq<char>) -> Option<
    SubDomainEntry,
>
    decreases s.len(),
{
    if s.len() == 0 {
        None
    } else if fold(s[0].0@) == fold(key) {
        Some(s[0].1)
    } else {
        seq_lookup(s.drop_first(), key)
    }
}

///`i` is the index where a lookup of `key` lands: the first entry with
/// that key.
pub open spec fn seq_lookup_at(
    s: Seq<(DomainName, SubDomainEntry)>,
    key: Seq<char>,
    i: int,
) -> bool {
    &&& 0 <= i < s.len()
    &&& fold(s[i].0@) == fold(key)
    &&& forall|j: int| 0 <= j < i ==> fold((#[trigger] s[j]).0@) != fold(key)
}

/// A lookup returns the entry at its landing index.
pub proof fn lemma_seq_lookup_at(s: Seq<(DomainName, SubDomainEntry)>, key: Seq<char>, i: int)
    requires
        seq_lookup_at(s, key, i),
    ensures
        seq_lookup(s, key) == Some(s[i].1),
    decreases i,
{
    if i > 0 {
        assert(s.drop_first()[i - 1] == s[i]);
        assert forall|j: int| 0 <= j < i - 1 implies fold((#[trigger] s.drop_first()[j]).0@)
            != fold(key) by {
            assert(s.drop_first()[j] == s[j + 1]);
        }
        lemma_seq_lookup_at(s.drop_first(), key, i - 1);
    }
}

/// Replacing the entry value at a lookup's landing index changes the lookup
/// of that key to the new value and no other lookup at all.
pub proof fn lemma_seq_lookup_update(
    s: Seq<(DomainName, SubDomainEntry)>,
    i: int,
    e2: SubDomainEntry,
    key2: Seq<char>,
)
    requires
        0 <= i < s.len(),
        forall|j: int| 0 <= j < i ==> fold((#[trigger] s[j]).0@) != fold(s[i].0@),
    ensures
        seq_lookup(s.update(i, (s[i].0, e2)), key2) == (if fold(key2) == fold(s[i].0@) {
            Some(e2)
        } else {
            seq_lookup(s, key2)
        }),
    decreases i,
{
    let s2 = s.update(i, (s[i].0, e2));
    if i == 0 {
        if fold(key2) == fold(s[0].0@) {
            assert(fold(s2[0].0@) == fold(key2));
        } else {
            assert(s2.drop_first() =~= s.drop_first());
        }
    } else {
        assert(s2[0] == s[0]);
        assert(s2.drop_first() =~= s.drop_first().update(i - 1, (s.drop_first()[i - 1].0, e2)));
        assert(s.drop_first()[i - 1] == s[i]);
        assert forall|j: int| 0 <= j < i - 1 implies fold((#[trigger] s.drop_first()[j]).0@)
            != fold(s.drop_first()[i - 1].0@) by {
            assert(s.drop_first()[j] == s[j + 1]);
        }
        lemma_seq_lookup_update(s.drop_first(), i - 1, e2, key2);
        if fold(key2) == fold(s[0].0@) && fold(key2) == fold(s[i].0@) {
            assert(fold(s[0].0@) != fold(s[i].0@));
        }
    }
}

/// The record store: the zone origin and one entry per registered
/// subdomain key.
#[derive(Debug)]
pub struct Storage {
    mname: DomainName,
    sub_domains: Vec<(DomainName, SubDomainEntry)>,
}

impl Storage {
    /// The zone origin all lookups are scoped to.
    pub closed spec fn origin(self) -> Seq<char> {
        self.mname@
    }

    /// The keyed entries, in construction order.
    pub closed spec fn entries(self) -> Seq<(DomainName, SubDomainEntry)> {
        self.sub_domains@
    }

    /// No two entries share a key, not even up to ASCII case.
    pub open spec fn wf(self) -> bool {
        forall|i: int, j: int|
            0 <= i < j < self.entries().len() ==> fold((#[trigger] self.entries()[i]).0@) != fold(
                (#[trigger] self.entries()[j]).0@,
            )
    }

    /// The entry `name` resolves to: none unless `name` is strictly under
    /// the origin, otherwise the entry under the stripped key.
    pub open spec fn spec_get(self, name: Seq<char>) -> Option<SubDomainEntry> {
        if suffix_strippable(name, self.origin()) {
            seq_lookup(self.entries(), stripped(name, self.origin()))
        } else {
            None
        }
    }

    /// Builds the store from the origin and the configured subdomains.
    pub fn new(mname: DomainName, sub_domains: Vec<(DomainName, SubDomainEntry)>) -> (r: Storage)
        ensures
            r.origin() == mname@,
            r.entries() == sub_domains@,
    {
        Storage { mname, sub_domains }
    }

    /// Looks `name` up: its entry when the name is strictly under the
    /// origin and its key is registered, and nothing otherwise. In
    /// particular, a name not strictly under the origin never resolves.
    pub fn get(&self, name: &DomainName) -> (r: Option<&SubDomainEntry>)
        ensures
            match r {
                Some(e) => self.spec_get(name@) == Some(*e),
                None => self.spec_get(name@) is None,
            },
    {
        let key = match name.strip_suffix(&self.mname) {
            Some(k) => k,
            None => {
                return None;
            },
        };
        let ghost k = key@;
        assert(self.entries().skip(0) =~= self.entries());
        let mut i: usize = 0;
        while i < self.sub_domains.len()
            invariant
                0 <= i <= self.sub_domains@.len(),
                k == stripped(name@, self.origin()),
                key@ == k,
                suffix_strippable(name@, self.origin()),
                seq_lookup(self.entries(), k) == seq_lookup(self.entries().skip(i as int), k),
            decreases self.sub_domains@.len() - i,
        {
            let pair = &self.sub_domains[i];
            assert(self.entries().skip(i as int)[0] == self.entries()[i as int]);
            if pair.0.eq_ignore_ascii_case(&key) {
                assert(fold(self.entries()[i as int].0@) == fold(k));
                assert(seq_lookup(self.entries().skip(i as int), k) == Some(
                    self.entries()[i as int].1,
                ));
                return Some(&self.sub_domains[i].1);
            }
            assert(fold(self.entries()[i as int].0@) != fold(k));
            assert(self.entries().skip(i as int).drop_first() =~= self.entries().skip(i + 1));
            assert(seq_lookup(self.entries().skip(i as int), k) == seq_lookup(
                self.entries().skip(i + 1),
                k,
            ));
            i += 1;
        }
        assert(self.entries().skip(self.sub_domains@.len() as int) =~= Seq::empty());
        None
    }

    /// Looks `name` up for writing. The returned reference can change the
    /// entry's addresses; the origin, the keys, and every other entry stay
    /// as they were, so no update can create or remove a subdomain.
    pub fn get_mut(&mut self, name: &DomainName) -> (r: Option<&mut SubDomainEntry>)
        ensures
            final(self).origin() == old(self).origin(),
            final(self).entries().len() == old(self).entries().len(),
            forall|k: int|
                0 <= k < old(self).entries().len() ==> (#[trigger] final(self).entries()[k]).0
                    == old(self).entries()[k].0,
            old(self).wf() ==> final(self).wf(),
            match r {
                Some(e) => {
                    &&& old(self).spec_get(name@) == Some(*e)
                    &&& exists|i: int|
                        #[trigger] seq_lookup_at(
                            old(self).entries(),
                            stripped(name@, old(self).origin()),
                            i,
                        ) && *e == old(self).entries()[i].1 && final(self).entries() == old(
                            self,
                        ).entries().update(i, (old(self).entries()[i].0, *final(e)))
                },
                None => {
                    &&& old(self).spec_get(name@) is None
                    &&& final(self).entries() == old(self).entries()
                },
            },
    {
        let key = match name.strip_suffix(&self.mname) {
            Some(k) => k,
            None => {
                return None;
            },
        };
        let ghost k = key@;
        assert(self.entries().skip(0) =~= self.entries());
        let mut i: usize = 0;
        while i < self.sub_domains.len()
            invariant
                0 <= i <= self.sub_domains@.len(),
                *self == *old(self),
                k == stripped(name@, self.origin()),
                key@ == k,
                suffix_strippable(name@, self.origin()),
                seq_lookup(self.entries(), k) == seq_lookup(self.entries().skip(i as int), k),
                forall|j: int| 0 <= j < i ==> fold((#[trigger] self.entries()[j]).0@) != fold(k),
            decreases self.sub_domains@.len() - i,
        {
            assert(self.entries().skip(i as int)[0] == self.entries()[i as int]);
            let found = self.sub_domains[i].0.eq_ignore_ascii_case(&key);
            if found {
                proof {
                    assert(fold(self.entries()[i as int].0@) == fold(k));
                    assert(seq_lookup_at(self.entries(), k, i as int));
                    lemma_seq_lookup_at(self.entries(), k, i as int);
                }
                let entry = &mut self.sub_domains[i].1;
                return Some(entry);
            }
            assert(fold(self.entries()[i as int].0@) != fold(k));
            assert(self.entries().skip(i as int).drop_first() =~= self.entries().skip(i + 1));
            assert(seq_lookup(self.entries().skip(i as int), k) == seq_lookup(
                self.entries().skip(i + 1),
                k,
            ));
            i += 1;
        }
        assert(self.entries().skip(self.sub_domains@.len() as int) =~= Seq::empty());
        None
    }
}

} // verus!
