//! The identifier-keyed store of raw public keys: insert-if-absent,
//! rename, lookup, and best-effort batch import of JSON Web Key Sets.

use vstd::prelude::*;

use crate::errors::ImportError;
use crate::jwk::spec_extract_error_matches;
use crate::jwk::spec_extractable;
use crate::jwk::spec_public_key;
use crate::jwk::spec_thumbprint;
use crate::jwk::JSONWebKeySet;
use crate::jwk::Thumbprintable;

verus! {

/// Whether importing a key into a ring holding the mapping `m`
/// succeeds: its bytes are extractable and its thumbprint is not yet
/// bound.
pub open spec fn spec_import_ok(m: Map<Seq<char>, Seq<u8>>, jwk: Thumbprintable) -> bool {
    spec_extractable(jwk) && !m.contains_key(spec_thumbprint(jwk))
}

/// The mapping after one import attempt: the key's bytes bound under
/// its thumbprint when the import succeeds, the mapping unchanged when
/// it fails.
pub open spec fn spec_import_step(m: Map<Seq<char>, Seq<u8>>, jwk: Thumbprintable) -> Map<
    Seq<char>,
    Seq<u8>,
> {
    if spec_import_ok(m, jwk) {
        m.insert(spec_thumbprint(jwk), spec_public_key(jwk))
    } else {
        m
    }
}

/// The mapping after importing each key of a sequence in order, each
/// attempt independent of the others' outcomes.
pub open spec fn spec_import_all(m: Map<Seq<char>, Seq<u8>>, keys: Seq<Thumbprintable>) -> Map<
    Seq<char>,
    Seq<u8>,
>
    decreases keys.len(),
{
    if keys.len() == 0 {
        m
    } else {
        spec_import_step(spec_import_all(m, keys.drop_last()), keys.last())
    }
}

/// Whether an error value reports exactly why an import into a ring
/// holding the mapping `m` failed: an extraction failure names the
/// stage that rejected the key, and a key whose bytes were extracted
/// fails only because its thumbprint was already bound.
pub open spec fn spec_import_error_matches(
    e: ImportError,
    m: Map<Seq<char>, Seq<u8>>,
    jwk: Thumbprintable,
) -> bool {
    if spec_extractable(jwk) {
        e is KeyAlreadyExists && m.contains_key(spec_thumbprint(jwk))
    } else {
        spec_extract_error_matches(e, jwk)
    }
}

/// Importing the same JSON Web Key twice can never succeed twice: once
/// an import has bound the key's thumbprint, the identical key's
/// thumbprint is found bound and re-importing it is rejected as an
/// existing key.
pub proof fn lemma_reimport_same_jwk_fails(m: Map<Seq<char>, Seq<u8>>, jwk: Thumbprintable)
    requires
        spec_import_ok(m, jwk),
    ensures
        !spec_import_ok(spec_import_step(m, jwk), jwk),
        spec_extractable(jwk),
        spec_import_step(m, jwk).contains_key(spec_thumbprint(jwk)),
{
}

/// An import never clobbers a key: every binding present before an
/// import attempt is still present, unchanged, after it, whether the
/// attempt succeeded or failed.
pub proof fn lemma_import_never_clobbers(
    m: Map<Seq<char>, Seq<u8>>,
    jwk: Thumbprintable,
    k: Seq<char>,
)
    requires
        m.contains_key(k),
    ensures
        spec_import_step(m, jwk).contains_key(k),
        spec_import_step(m, jwk)[k] == m[k],
{
}

/// A batch import never clobbers a key either: every binding present
/// before the batch is still present, unchanged, after all of it.
pub proof fn lemma_import_all_never_clobbers(
    m: Map<Seq<char>, Seq<u8>>,
    keys: Seq<Thumbprintable>,
    k: Seq<char>,
)
    requires
        m.contains_key(k),
    ensures
        spec_import_all(m, keys).contains_key(k),
        spec_import_all(m, keys)[k] == m[k],
    decreases keys.len(),
{
    if keys.len() > 0 {
        lemma_import_all_never_clobbers(m, keys.drop_last(), k);
        lemma_import_never_clobbers(spec_import_all(m, keys.drop_last()), keys.last(), k);
    }
}

/// A keyring that maps identifiers to public keys, used to retrieve
/// verifying keys when authenticating signed messages. At most one key
/// is bound per identifier, and an import never overwrites an existing
/// binding.
pub struct KeyRing {
    entries: Vec<(String, Vec<u8>)>,
}

impl View for KeyRing {
    type V = Map<Seq<char>, Seq<u8>>;

    closed spec fn view(&self) -> Map<Seq<char>, Seq<u8>> {
        entries_map(self.entries@)
    }
}

/// The mapping a sequence of entries represents: an identifier is
/// bound exactly when some entry carries it, to that entry's bytes.
pub(crate) open spec fn entries_map(s: Seq<(String, Vec<u8>)>) -> Map<Seq<char>, Seq<u8>> {
    Map::new(
        |k: Seq<char>| exists|i: int| 0 <= i < s.len() && s[i].0@ == k,
        |k: Seq<char>|
            (s[choose|i: int| 0 <= i < s.len() && s[i].0@ == k].1)@,
    )
}

/// Whether no two entries carry the same identifier.
pub(crate) open spec fn unique_keys(s: Seq<(String, Vec<u8>)>) -> bool {
    forall|i: int, j: int| 0 <= i < j < s.len() ==> s[i].0@ != s[j].0@
}

/// An identifier is in the represented mapping exactly when some entry
/// carries it.
proof fn lemma_map_contains(s: Seq<(String, Vec<u8>)>, k: Seq<char>)
    ensures
        entries_map(s).contains_key(k) <==> exists|i: int| 0 <= i < s.len() && s[i].0@ == k,
{
}

/// With unique identifiers, the entry that carries an identifier gives
/// the bytes the mapping binds it to.
proof fn lemma_map_value(s: Seq<(String, Vec<u8>)>, i: int)
    requires
        unique_keys(s),
        0 <= i < s.len(),
    ensures
        entries_map(s).contains_key(s[i].0@),
        entries_map(s)[s[i].0@] == s[i].1@,
{
    let k = s[i].0@;
    assert(entries_map(s).contains_key(k));
    let j = choose|j: int| 0 <= j < s.len() && s[j].0@ == k;
    assert(j == i);
}

/// Appending an entry with a fresh identifier inserts that binding and
/// keeps the identifiers unique.
proof fn lemma_map_push(s: Seq<(String, Vec<u8>)>, id: String, v: Vec<u8>)
    requires
        unique_keys(s),
        forall|i: int| 0 <= i < s.len() ==> s[i].0@ != id@,
    ensures
        unique_keys(s.push((id, v))),
        entries_map(s.push((id, v))) =~= entries_map(s).insert(id@, v@),
{
    let t = s.push((id, v));
    assert forall|i: int| 0 <= i < t.len() implies t[i] == (if i < s.len() {
        s[i]
    } else {
        (id, v)
    }) by {}
    assert forall|k: Seq<char>| entries_map(t).contains_key(k) implies entries_map(
        s,
    ).insert(id@, v@).contains_key(k) by {
        let i = choose|i: int| 0 <= i < t.len() && t[i].0@ == k;
        if i < s.len() {
            lemma_map_contains(s, k);
        }
    }
    assert forall|k: Seq<char>| entries_map(s).insert(id@, v@).contains_key(k) implies entries_map(
        t,
    ).contains_key(k) by {
        if k == id@ {
            assert(t[s.len() as int].0@ == k);
        } else {
            let i = choose|i: int| 0 <= i < s.len() && s[i].0@ == k;
            assert(t[i].0@ == k);
        }
    }
    assert forall|k: Seq<char>| entries_map(t).contains_key(k) implies entries_map(t)[k]
        == entries_map(s).insert(id@, v@)[k] by {
        let i = choose|i: int| 0 <= i < t.len() && t[i].0@ == k;
        if k == id@ {
            lemma_map_value(t, s.len() as int);
        } else {
            assert(i < s.len());
            lemma_map_value(t, i);
            lemma_map_value(s, i);
        }
    }
}

/// Removing the entry at an index removes exactly its identifier's
/// binding and keeps the identifiers unique.
proof fn lemma_map_remove(s: Seq<(String, Vec<u8>)>, i: int)
    requires
        unique_keys(s),
        0 <= i < s.len(),
    ensures
        unique_keys(s.remove(i)),
        entries_map(s.remove(i)) =~= entries_map(s).remove(s[i].0@),
{
    let t = s.remove(i);
    assert forall|j: int| 0 <= j < t.len() implies t[j] == (if j < i {
        s[j]
    } else {
        s[j + 1]
    }) by {}
    assert forall|k: Seq<char>| entries_map(t).contains_key(k) implies entries_map(s).remove(
        s[i].0@,
    ).contains_key(k) by {
        let j = choose|j: int| 0 <= j < t.len() && t[j].0@ == k;
        if j < i {
            assert(s[j].0@ == k);
            lemma_map_contains(s, k);
        } else {
            assert(s[j + 1].0@ == k);
            lemma_map_contains(s, k);
        }
    }
    assert forall|k: Seq<char>| entries_map(s).remove(s[i].0@).contains_key(k) implies entries_map(
        t,
    ).contains_key(k) by {
        let j = choose|j: int| 0 <= j < s.len() && s[j].0@ == k;
        assert(j != i);
        if j < i {
            assert(t[j].0@ == k);
        } else {
            assert(t[j - 1].0@ == k);
        }
    }
    assert forall|k: Seq<char>| entries_map(t).contains_key(k) implies entries_map(t)[k]
        == entries_map(s).remove(s[i].0@)[k] by {
        let j = choose|j: int| 0 <= j < t.len() && t[j].0@ == k;
        lemma_map_value(t, j);
        if j < i {
            lemma_map_value(s, j);
        } else {
            lemma_map_value(s, j + 1);
        }
    }
}

impl KeyRing {
    /// Well-formedness: no identifier is bound twice.
    pub closed spec fn wf(&self) -> bool {
        unique_keys(self.entries@)
    }

    /// The index of the entry that carries an identifier, if any.
    fn find(&self, identifier: &String) -> (r: Option<usize>)
        ensures
            r matches Some(i) ==> 0 <= i < self.entries@.len() && self.entries@[i as int].0@
                == identifier@,
            r is None ==> forall|i: int|
                0 <= i < self.entries@.len() ==> self.entries@[i].0@ != identifier@,
    {
        let n = self.entries.len();
        let mut idx: usize = 0;
        while idx < n
            invariant
                n == self.entries@.len(),
                0 <= idx <= n,
                forall|i: int| 0 <= i < idx ==> self.entries@[i].0@ != identifier@,
            decreases n - idx,
        {
            if self.entries[idx].0 == *identifier {
                return Some(idx);
            }
            idx += 1;
        }
        None
    }

    /// Insert a raw public key under a known identifier. Inserts only
    /// when the identifier is absent, returns whether the insert
    /// happened, and never overwrites an existing binding.
    pub fn import_raw(&mut self, identifier: String, public_key: Vec<u8>) -> (r: bool)
        requires
            old(self).wf(),
        ensures
            final(self).wf(),
            r == !old(self)@.contains_key(identifier@),
            r ==> final(self)@ == old(self)@.insert(identifier@, public_key@),
            !r ==> final(self)@ == old(self)@,
    {
        match self.find(&identifier) {
            Some(i) => {
                proof {
                    lemma_map_contains(self.entries@, identifier@);
                }
                false
            },
            None => {
                proof {
                    lemma_map_contains(self.entries@, identifier@);
                    lemma_map_push(self.entries@, identifier, public_key);
                }
                self.entries.push((identifier, public_key));
                true
            },
        }
    }

    /// Rename a public key from `old_identifier` to `new_identifier`.
    /// When the old identifier is absent, nothing changes and the call
    /// returns false. When it is present, the rename is a removal
    /// followed by an insert, with a documented quirk: an entry already
    /// at the new identifier is overwritten, and the call then reports
    /// false because that slot was occupied, even though the entry did
    /// move.
    pub fn rename_key(&mut self, old_identifier: String, new_identifier: String) -> (r: bool)
        requires
            old(self).wf(),
        ensures
            final(self).wf(),
            r == (old(self)@.contains_key(old_identifier@) && !old(self)@.remove(
                old_identifier@,
            ).contains_key(new_identifier@)),
            !old(self)@.contains_key(old_identifier@) ==> final(self)@ == old(self)@,
            old(self)@.contains_key(old_identifier@) ==> final(self)@ == old(self)@.remove(
                old_identifier@,
            ).insert(new_identifier@, old(self)@[old_identifier@]),
    {
        proof {
            lemma_map_contains(self.entries@, old_identifier@);
        }
        match self.find(&old_identifier) {
            None => false,
            Some(i) => {
                proof {
                    lemma_map_value(self.entries@, i as int);
                    lemma_map_remove(self.entries@, i as int);
                }
                let entry = self.entries.remove(i);
                proof {
                    lemma_map_contains(self.entries@, new_identifier@);
                }
                match self.find(&new_identifier) {
                    Some(j) => {
                        let ghost trimmed = self@;
                        let ghost new_id_view = new_identifier@;
                        let ghost value_view = entry.1@;
                        proof {
                            lemma_map_value(self.entries@, j as int);
                            lemma_map_remove(self.entries@, j as int);
                        }
                        let _ = self.entries.remove(j);
                        proof {
                            lemma_map_contains(self.entries@, new_identifier@);
                            lemma_map_push(self.entries@, new_identifier, entry.1);
                        }
                        self.entries.push((new_identifier, entry.1));
                        proof {
                            assert(self@ =~= trimmed.insert(new_id_view, value_view));
                        }
                        false
                    },
                    None => {
                        proof {
                            lemma_map_push(self.entries@, new_identifier, entry.1);
                        }
                        self.entries.push((new_identifier, entry.1));
                        true
                    },
                }
            },
        }
    }

    /// Retrieve a key: a borrowed view of the bytes bound to the
    /// identifier, or nothing when the identifier is unknown.
    pub fn get(&self, identifier: &String) -> (r: Option<&Vec<u8>>)
        requires
            self.wf(),
        ensures
            r is Some <==> self@.contains_key(identifier@),
            r matches Some(v) ==> v@ == self@[identifier@],
    {
        proof {
            lemma_map_contains(self.entries@, identifier@);
        }
        match self.find(identifier) {
            Some(i) => {
                proof {
                    lemma_map_value(self.entries@, i as int);
                }
                Some(&self.entries[i].1)
            },
            None => None,
        }
    }

    /// Import a single JSON Web Key under its thumbprint. Succeeds
    /// exactly when the key's bytes are extractable and its thumbprint
    /// is not yet bound; on failure the ring is unchanged and the error
    /// names the first stage that rejected the import.
    pub fn try_import_jwk(&mut self, jwk: &Thumbprintable) -> (r: Result<(), ImportError>)
        requires
            old(self).wf(),
        ensures
            final(self).wf(),
            r is Ok <==> spec_import_ok(old(self)@, *jwk),
            final(self)@ == spec_import_step(old(self)@, *jwk),
            r matches Err(e) ==> spec_import_error_matches(e, old(self)@, *jwk),
    {
        let thumbprint = jwk.b64_thumbprint();
        let public_key = match jwk.public_key() {
            Ok(key_bytes) => key_bytes,
            Err(e) => {
                return Err(e);
            },
        };
        if !self.import_raw(thumbprint, public_key) {
            return Err(ImportError::KeyAlreadyExists);
        }
        Ok(())
    }

    /// Import a JSON Web Key Set on a best-effort basis: every key is
    /// attempted in order, one key's failure never stops the rest, and
    /// the outcomes come back index-aligned with the input, empty on
    /// success and carrying that key's failure otherwise.
    pub fn import_jwks(&mut self, jwks: JSONWebKeySet) -> (r: Vec<Option<ImportError>>)
        requires
            old(self).wf(),
        ensures
            final(self).wf(),
            r@.len() == jwks.keys@.len(),
            final(self)@ == spec_import_all(old(self)@, jwks.keys@),
            forall|i: int|
                0 <= i < r@.len() ==> ((#[trigger] r@[i]) is None <==> spec_import_ok(
                    spec_import_all(old(self)@, jwks.keys@.take(i)),
                    jwks.keys@[i],
                )),
            forall|i: int|
                0 <= i < r@.len() ==> ((#[trigger] r@[i]) matches Some(e)
                    ==> spec_import_error_matches(
                    e,
                    spec_import_all(old(self)@, jwks.keys@.take(i)),
                    jwks.keys@[i],
                )),
    {
        let n = jwks.keys.len();
        let mut results: Vec<Option<ImportError>> = Vec::new();
        let mut idx: usize = 0;
        proof {
            assert(jwks.keys@.take(0) =~= Seq::<Thumbprintable>::empty());
        }
        while idx < n
            invariant
                old(self).wf(),
                self.wf(),
                n == jwks.keys@.len(),
                0 <= idx <= n,
                results@.len() == idx,
                self@ == spec_import_all(old(self)@, jwks.keys@.take(idx as int)),
                forall|i: int|
                    0 <= i < idx ==> ((#[trigger] results@[i]) is None <==> spec_import_ok(
                        spec_import_all(old(self)@, jwks.keys@.take(i)),
                        jwks.keys@[i],
                    )),
                forall|i: int|
                    0 <= i < idx ==> ((#[trigger] results@[i]) matches Some(e)
                        ==> spec_import_error_matches(
                        e,
                        spec_import_all(old(self)@, jwks.keys@.take(i)),
                        jwks.keys@[i],
                    )),
            decreases n - idx,
        {
            proof {
                assert(jwks.keys@.take(idx + 1).drop_last() =~= jwks.keys@.take(idx as int));
                assert(jwks.keys@.take(idx + 1).last() == jwks.keys@[idx as int]);
            }
            let outcome = self.try_import_jwk(&jwks.keys[idx]);
            match outcome {
                Ok(_) => results.push(None),
                Err(e) => results.push(Some(e)),
            }
            idx += 1;
        }
        proof {
            assert(jwks.keys@.take(n as int) =~= jwks.keys@);
        }
        results
    }
}

impl Default for KeyRing {
    /// An empty ring: no identifier is bound.
    fn default() -> (r: KeyRing)
        ensures
            r.wf(),
            r@ == Map::<Seq<char>, Seq<u8>>::empty(),
    {
        let r = KeyRing { entries: Vec::new() };
        proof {
            assert(r@ =~= Map::<Seq<char>, Seq<u8>>::empty());
        }
        r
    }
}

} // verus!
