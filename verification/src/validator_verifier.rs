use vstd::prelude::*;

use crate::types::{Author, HashValue, Signature};

verus! {

/// Failures of signature and quorum verification. These are always reported
/// to the caller and are never fatal.
#[derive(Clone, Copy, PartialEq, Eq, Debug)]
pub enum VerificationError {
    /// The claimed author is not in the validator set.
    UnknownAuthor,
    /// The signature does not match the author's registered key and the hash.
    InvalidSignature,
    /// Fewer valid distinct-author signatures than the quorum threshold.
    InsufficientQuorum,
}

/// Byzantine quorum threshold for a validator set of `n` members:
/// the ceiling of `(2 * n + 1) / 3`.
pub open spec fn spec_quorum_threshold(n: nat) -> nat {
    (2 * n + 3) / 3
}

/// How [`ValidatorVerifier::spec_authors`] relates to the entries, element
/// for element.
pub broadcast proof fn lemma_spec_authors(v: ValidatorVerifier)
    ensures
        (#[trigger] v.spec_authors()).len() == v.entries@.len(),
        forall|i: int|
            0 <= i < v.entries@.len() ==> v.spec_authors()[i] == (#[trigger] v.entries@[i]).0,
{
}

/// Immutable mapping from author to public key together with the quorum
/// threshold of the epoch. Constructed once per epoch and never mutated.
#[derive(PartialEq, Eq, Debug)]
pub struct ValidatorVerifier {
    /// Author / public-key pairs; authors are pairwise distinct.
    pub entries: Vec<(Author, u64)>,
    /// Number of valid distinct-author signatures a quorum needs.
    pub quorum: usize,
}

impl ValidatorVerifier {
    /// Pairwise distinct authors, and a threshold that matches the set size.
    pub open spec fn wf(self) -> bool {
        &&& forall|i: int, j: int|
            0 <= i < j < self.entries@.len() ==> (#[trigger] self.entries@[i]).0 != (
            #[trigger] self.entries@[j]).0
        &&& self.quorum == spec_quorum_threshold(self.entries@.len())
    }

    /// The authors of the validator set, in registration order.
    pub open spec fn spec_authors(self) -> Seq<Author> {
        self.entries@.map_values(|e: (Author, u64)| e.0)
    }

    /// Whether `a` belongs to the validator set.
    pub open spec fn sees(self, a: Author) -> bool {
        exists|i: int| 0 <= i < self.entries@.len() && (#[trigger] self.entries@[i]).0 == a
    }

    /// Position of `a` in the validator set (meaningful when `sees(a)`).
    pub open spec fn author_index(self, a: Author) -> int {
        choose|i: int| 0 <= i < self.entries@.len() && (#[trigger] self.entries@[i]).0 == a
    }

    /// The public key registered for `a` (meaningful when `sees(a)`).
    pub open spec fn key_of(self, a: Author) -> u64 {
        self.entries@[self.author_index(a)].1
    }

    /// A signature over `hash` that verifies for author `a`.
    pub open spec fn sig_valid(self, a: Author, hash: HashValue, s: Signature) -> bool {
        &&& self.sees(a)
        &&& s.key == self.key_of(a)
        &&& s.hash == hash
    }

    /// Build the verifier for a validator set given as author / public-key
    /// pairs with distinct authors.
    pub fn new(entries: Vec<(Author, u64)>) -> (v: Self)
        requires
            forall|i: int, j: int|
                0 <= i < j < entries@.len() ==> (#[trigger] entries@[i]).0 != (
                #[trigger] entries@[j]).0,
            entries@.len() <= (usize::MAX - 3) / 2,
        ensures
            v.wf(),
            v.entries@ == entries@,
            v.quorum == spec_quorum_threshold(entries@.len()),
    {
        let n = entries.len();
        let quorum = (2 * n + 3) / 3;
        ValidatorVerifier { entries, quorum }
    }

    /// Check one signature: fails with `UnknownAuthor` when the author is not
    /// registered and with `InvalidSignature` when the signature does not
    /// match the author's key and the hash.
    pub fn verify(&self, author: Author, hash: HashValue, signature: &Signature) -> (r: Result<
        (),
        VerificationError,
    >)
        requires
            self.wf(),
        ensures
            r is Ok <==> self.sig_valid(author, hash, *signature),
            !self.sees(author) ==> r == Err::<(), VerificationError>(
                VerificationError::UnknownAuthor,
            ),
            self.sees(author) && !self.sig_valid(author, hash, *signature) ==> r == Err::<
                (),
                VerificationError,
            >(VerificationError::InvalidSignature),
    {
        let n = self.entries.len();
        let mut i: usize = 0;
        while i < n
            invariant
                self.wf(),
                n == self.entries@.len(),
                i <= n,
                forall|j: int| 0 <= j < i ==> (#[trigger] self.entries@[j]).0 != author,
            decreases n - i,
        {
            let (a, key) = self.entries[i];
            if a == author {
                proof {
                    assert(self.sees(author));
                    let idx = self.author_index(author);
                    assert(0 <= idx < self.entries@.len() && self.entries@[idx].0 == author);
                    assert(idx == i);
                }
                if signature.key == key && signature.hash == hash {
                    return Ok(());
                } else {
                    return Err(VerificationError::InvalidSignature);
                }
            }
            i += 1;
        }
        proof {
            assert(!self.sees(author));
        }
        Err(VerificationError::UnknownAuthor)
    }

    /// Some entry of `s` with author `a` carries a signature that verifies
    /// over `hash`.
    pub open spec fn has_valid_for(self, hash: HashValue, s: Seq<(Author, Signature)>, a: Author) -> bool {
        exists|i: int|
            0 <= i < s.len() && (#[trigger] s[i]).0 == a && self.sig_valid(s[i].0, hash, s[i].1)
    }

    /// Number of distinct authors contributing at least one valid signature
    /// to `s`: an entry counts when it verifies and no earlier entry already
    /// contributed a valid signature for the same author.
    pub open spec fn valid_distinct_count(self, hash: HashValue, s: Seq<(Author, Signature)>) -> nat
        decreases s.len(),
    {
        if s.len() == 0 {
            0
        } else {
            let rest = s.drop_last();
            self.valid_distinct_count(hash, rest) + (if self.sig_valid(s.last().0, hash, s.last().1)
                && !self.has_valid_for(hash, rest, s.last().0) {
                1nat
            } else {
                0nat
            })
        }
    }

    /// Check a signature collection against the quorum rule: succeeds exactly
    /// when the valid distinct-author signatures reach the threshold. Invalid
    /// individual signatures are skipped, not fatal, so a forged signature
    /// among otherwise sufficient valid ones does not abort the check.
    pub fn verify_quorum(&self, hash: HashValue, signatures: &Vec<(Author, Signature)>) -> (r:
        Result<(), VerificationError>)
        requires
            self.wf(),
        ensures
            r is Ok <==> self.valid_distinct_count(hash, signatures@) >= self.quorum,
            r is Err ==> r == Err::<(), VerificationError>(VerificationError::InsufficientQuorum),
    {
        let n = signatures.len();
        let mut count: usize = 0;
        let mut i: usize = 0;
        while i < n
            invariant
                self.wf(),
                n == signatures@.len(),
                i <= n,
                count <= i,
                count == self.valid_distinct_count(hash, signatures@.subrange(0, i as int)),
            decreases n - i,
        {
            let (a, s) = signatures[i];
            let valid = self.verify(a, hash, &s).is_ok();
            let mut seen = false;
            if valid {
                let mut j: usize = 0;
                while j < i
                    invariant
                        self.wf(),
                        j <= i <= n,
                        n == signatures@.len(),
                        seen <==> exists|k: int|
                            0 <= k < j && (#[trigger] signatures@[k]).0 == a && self.sig_valid(
                                signatures@[k].0,
                                hash,
                                signatures@[k].1,
                            ),
                    decreases i - j,
                {
                    let (a2, s2) = signatures[j];
                    if a2 == a && self.verify(a2, hash, &s2).is_ok() {
                        seen = true;
                    }
                    j += 1;
                }
                if !seen {
                    count += 1;
                }
            }
            proof {
                let p0 = signatures@.subrange(0, i as int);
                let p1 = signatures@.subrange(0, i + 1);
                assert(p1.drop_last() =~= p0);
                assert(p1.last() == signatures@[i as int]);
                if self.sig_valid(a, hash, s) {
                    if seen {
                        let k = choose|k: int|
                            0 <= k < i && (#[trigger] signatures@[k]).0 == a && self.sig_valid(
                                signatures@[k].0,
                                hash,
                                signatures@[k].1,
                            );
                        assert(p0[k] == signatures@[k]);
                        assert(self.has_valid_for(hash, p0, a));
                    } else {
                        assert(!self.has_valid_for(hash, p0, a)) by {
                            if self.has_valid_for(hash, p0, a) {
                                let k = choose|k: int|
                                    0 <= k < p0.len() && (#[trigger] p0[k]).0 == a
                                        && self.sig_valid(p0[k].0, hash, p0[k].1);
                                assert(signatures@[k] == p0[k]);
                                assert(false);
                            }
                        }
                    }
                }
            }
            i += 1;
        }
        proof {
            assert(signatures@.subrange(0, n as int) =~= signatures@);
        }
        if count >= self.quorum {
            Ok(())
        } else {
            Err(VerificationError::InsufficientQuorum)
        }
    }

    /// The count of valid distinct-author signatures never exceeds the number
    /// of signatures supplied, so a collection below the threshold in size
    /// can never meet the quorum.
    pub proof fn lemma_valid_distinct_count_le_len(self, hash: HashValue, s: Seq<(Author, Signature)>)
        ensures
            self.valid_distinct_count(hash, s) <= s.len(),
        decreases s.len(),
    {
        if s.len() > 0 {
            self.lemma_valid_distinct_count_le_len(hash, s.drop_last());
        }
    }

    /// A collection of signatures that all verify and whose authors are
    /// pairwise distinct counts in full: with exactly the threshold many such
    /// signatures the quorum check succeeds.
    pub proof fn lemma_all_valid_distinct_counted(self, hash: HashValue, s: Seq<(Author, Signature)>)
        requires
            forall|i: int|
                0 <= i < s.len() ==> self.sig_valid((#[trigger] s[i]).0, hash, s[i].1),
            forall|i: int, j: int|
                0 <= i < j < s.len() ==> (#[trigger] s[i]).0 != (#[trigger] s[j]).0,
        ensures
            self.valid_distinct_count(hash, s) == s.len(),
        decreases s.len(),
    {
        if s.len() > 0 {
            let rest = s.drop_last();
            self.lemma_all_valid_distinct_counted(hash, rest);
            assert(s.last() == s[s.len() - 1]);
            assert(!self.has_valid_for(hash, rest, s.last().0)) by {
                assert forall|i: int| 0 <= i < rest.len() implies (#[trigger] rest[i]).0
                    != s.last().0 by {
                    assert(rest[i] == s[i]);
                }
            }
        }
    }

    /// A forged signature is discounted: an entry that does not verify
    /// contributes nothing, so a collection with a forged member can meet the
    /// quorum only if the threshold is reached by the remaining entries.
    pub proof fn lemma_forged_signature_discounted(
        self,
        hash: HashValue,
        s: Seq<(Author, Signature)>,
        i: int,
    )
        requires
            0 <= i < s.len(),
            !self.sig_valid(s[i].0, hash, s[i].1),
        ensures
            self.valid_distinct_count(hash, s) <= s.len() - 1,
        decreases s.len(),
    {
        let rest = s.drop_last();
        if i == s.len() - 1 {
            self.lemma_valid_distinct_count_le_len(hash, rest);
            assert(s.last() == s[i]);
        } else {
            assert(rest[i] == s[i]);
            self.lemma_forged_signature_discounted(hash, rest, i);
        }
    }
}

impl Clone for ValidatorVerifier {
    /// Clones the validator set entry for entry; the copy carries the same
    /// authors, keys and threshold.
    fn clone(&self) -> (r: Self)
        ensures
            r.entries@ == self.entries@,
            r.quorum == self.quorum,
            self.wf() ==> r.wf(),
    {
        let n = self.entries.len();
        let mut entries: Vec<(Author, u64)> = Vec::new();
        let mut i: usize = 0;
        while i < n
            invariant
                n == self.entries@.len(),
                i <= n,
                entries@ == self.entries@.subrange(0, i as int),
            decreases n - i,
        {
            entries.push(self.entries[i]);
            proof {
                assert(entries@ =~= self.entries@.subrange(0, i + 1));
            }
            i += 1;
        }
        proof {
            assert(entries@ =~= self.entries@);
        }
        ValidatorVerifier { entries, quorum: self.quorum }
    }
}

} // verus!
