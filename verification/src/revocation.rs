//! The revocation index: a set of credential ids (`jti`) that must be
//! rejected even though their signed expiry lies in the future.

use vstd::prelude::*;
use vstd::string::*;
use crate::strmap::{StrMap, lemma_find_some_index};

verus! {

/// A revocation record: when the revoked credential would have expired on
/// its own, and when it was revoked.
#[derive(Clone, Copy, Debug, PartialEq, Eq, Structural)]
pub struct RevocationEntry {
    pub expires_at: u64,
    pub revoked_at: u64,
}

/// The server-side index of revoked credential ids.
pub struct RevocationIndex {
    entries: StrMap<RevocationEntry>,
}

impl RevocationIndex {
    /// The record for a credential id, if it is revoked.
    pub open spec fn spec_entry(&self, jti: Seq<char>) -> Option<RevocationEntry> {
        self.entry_map().spec_get(jti)
    }

    /// Whether a credential id is revoked.
    pub open spec fn spec_is_revoked(&self, jti: Seq<char>) -> bool {
        self.spec_entry(jti) is Some
    }

    pub closed spec fn entry_map(&self) -> &StrMap<RevocationEntry> {
        &self.entries
    }

    pub closed spec fn wf(&self) -> bool {
        self.entries.wf()
    }

    /// Creates an empty index.
    pub fn new() -> (r: Self)
        ensures
            r.wf(),
            forall|j: Seq<char>| !(#[trigger] r.spec_is_revoked(j)),
    {
        RevocationIndex { entries: StrMap::new() }
    }

    /// Marks a credential id revoked, remembering its natural expiry.
    /// After this returns, any lookup of the id reports it revoked.
    pub fn revoke(&mut self, jti: &str, expires_at: u64, now: u64)
        requires
            old(self).wf(),
        ensures
            final(self).wf(),
            final(self).spec_is_revoked(jti@),
            final(self).spec_entry(jti@) == Some(
                RevocationEntry { expires_at: expires_at, revoked_at: now },
            ),
            forall|j2: Seq<char>|
                j2 != jti@ ==> #[trigger] final(self).spec_entry(j2) == old(self).spec_entry(j2),
    {
        self.entries.insert(jti.to_owned(), RevocationEntry { expires_at, revoked_at: now });
    }

    /// Whether the given credential id has been revoked.
    pub fn is_revoked(&self, jti: &str) -> (r: bool)
        ensures
            r == self.spec_is_revoked(jti@),
    {
        match self.entries.get(jti) {
            Some(_) => true,
            None => false,
        }
    }

    /// Drops records whose natural expiry has passed: a credential that can
    /// no longer validate needs no revocation record.  Live records are
    /// kept exactly; nothing appears that was not live before.
    pub fn prune_expired(&mut self, now: u64)
        requires
            old(self).wf(),
        ensures
            final(self).wf(),
            forall|j: Seq<char>|
                #![trigger final(self).spec_entry(j)]
                match old(self).spec_entry(j) {
                    Some(e) => final(self).spec_entry(j) == if e.expires_at >= now {
                        Some(e)
                    } else {
                        None::<RevocationEntry>
                    },
                    None => final(self).spec_entry(j) is None,
                },
    {
        let mut i: usize = 0;
        while i < self.entries.len()
            invariant
                self.entries.wf(),
                i <= self.entries.entries().len(),
                forall|j: int|
                    0 <= j < i ==> #[trigger] self.entries.entries()[j].1.expires_at >= now,
                forall|k: Seq<char>|
                    #![trigger self.entries.spec_get(k)]
                    match old(self).entry_map().spec_get(k) {
                        Some(e) => if e.expires_at >= now {
                            self.entries.spec_get(k) == Some(e)
                        } else {
                            self.entries.spec_get(k) == Some(e) || self.entries.spec_get(k) is None
                        },
                        None => self.entries.spec_get(k) is None,
                    },
                forall|k: Seq<char>| #![trigger self.entries.spec_get(k)]
                    self.entries.spec_get(k) is Some ==> self.entries.spec_get(k) == old(
                        self,
                    ).entry_map().spec_get(k),
            decreases self.entries.entries().len() - i,
        {
            let alive = self.entries.value_at(i).expires_at >= now;
            if alive {
                i += 1;
            } else {
                proof {
                    self.entries.lemma_get_at(i as int);
                }
                self.entries.remove_at(i);
            }
        }
        proof {
            assert forall|j: Seq<char>|
                #![trigger final(self).spec_entry(j)]
                match old(self).spec_entry(j) {
                    Some(e) => final(self).spec_entry(j) == if e.expires_at >= now {
                        Some(e)
                    } else {
                        None::<RevocationEntry>
                    },
                    None => final(self).spec_entry(j) is None,
                } by {
                if self.entries.spec_get(j) is Some {
                    lemma_find_some_index(self.entries.entries(), j);
                }
            }
        }
    }

    /// The number of revocation records held.
    pub fn len(&self) -> (r: usize)
        ensures
            r == self.entry_map().entries().len(),
    {
        self.entries.len()
    }
}


/// The revocation interface the service's callers program against: the
/// original design keeps it abstract so a durable backend can stand in for
/// the in-memory index, which implements it below.
pub trait JWTHandler {
    /// The record held for a credential id, if it is revoked.
    spec fn handler_entry(&self, jti: Seq<char>) -> Option<RevocationEntry>;

    /// The implementation's internal invariant.
    spec fn handler_wf(&self) -> bool;

    /// Marks a credential id revoked, remembering its natural expiry; no
    /// other record changes.
    fn revoke(&mut self, jti: &str, expires_at: u64, now: u64)
        requires
            old(self).handler_wf(),
        ensures
            final(self).handler_wf(),
            final(self).handler_entry(jti@) == Some(
                RevocationEntry { expires_at: expires_at, revoked_at: now },
            ),
            forall|j2: Seq<char>|
                j2 != jti@ ==> #[trigger] final(self).handler_entry(j2) == old(
                    self,
                ).handler_entry(j2),
    ;

    /// Whether the given credential id has been revoked.
    fn is_revoked(&self, jti: &str) -> (r: bool)
        ensures
            r == (self.handler_entry(jti@) is Some),
    ;

    /// Drops records whose natural expiry has passed; live records are
    /// kept exactly and nothing appears that was not live before.
    fn celanup(&mut self, now: u64)
        requires
            old(self).handler_wf(),
        ensures
            final(self).handler_wf(),
            forall|j: Seq<char>|
                #![trigger final(self).handler_entry(j)]
                match old(self).handler_entry(j) {
                    Some(e) => final(self).handler_entry(j) == if e.expires_at >= now {
                        Some(e)
                    } else {
                        None::<RevocationEntry>
                    },
                    None => final(self).handler_entry(j) is None,
                },
    ;
}

impl JWTHandler for RevocationIndex {
    open spec fn handler_entry(&self, jti: Seq<char>) -> Option<RevocationEntry> {
        self.spec_entry(jti)
    }

    open spec fn handler_wf(&self) -> bool {
        self.wf()
    }

    fn revoke(&mut self, jti: &str, expires_at: u64, now: u64) {
        RevocationIndex::revoke(self, jti, expires_at, now);
    }

    fn is_revoked(&self, jti: &str) -> (r: bool) {
        RevocationIndex::is_revoked(self, jti)
    }

    fn celanup(&mut self, now: u64) {
        self.prune_expired(now);
    }
}


} // verus!
