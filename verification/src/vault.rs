//! The key store's records: adding, finding, changing and removing keys by name.
use vstd::prelude::*;
use vstd::string::StringSliceAdditionalSpecFns;
use vstd::utf8::*;
use crate::crypto::{checked_decrypt, decryptable, encrypt, max_plaintext_len, stored_plaintext};
use crate::error::KeymgrError;
use crate::mask::{lemma_mask_long, mask_chars, mask_value};
use crate::model::{wipe, Dek, KeyEntry, Vault};
use crate::text::{
    bytes_le, lemma_bytes_le_antisymmetric, lemma_bytes_le_first_difference, lemma_bytes_le_prefix, lemma_bytes_le_total,
    lemma_bytes_le_transitive, str_eq, str_le,
};

verus! {

/// Some entry bears the name.
pub open spec fn has_name(entries: Seq<KeyEntry>, name: Seq<char>) -> bool {
    exists|i: int| 0 <= i < entries.len() && #[trigger] entries[i].name@ == name
}

/// Position `i` holds the first entry of the name.
pub open spec fn is_first_of(entries: Seq<KeyEntry>, name: Seq<char>, i: int) -> bool {
    &&& 0 <= i < entries.len()
    &&& entries[i].name@ == name
    &&& forall|j: int| 0 <= j < i ==> #[trigger] entries[j].name@ != name
}

/// No two entries share a name.
pub open spec fn names_unique(entries: Seq<KeyEntry>) -> bool {
    forall|i: int, j: int|
        0 <= i < entries.len() && 0 <= j < entries.len() && i != j ==> #[trigger] entries[i].name@
            != #[trigger] entries[j].name@
}

/// The masked preview of a value, as characters.
pub open spec fn preview_of(value: Seq<char>) -> Seq<char> {
    mask_chars(value)
}

/// The entry stores `value` under `key`, with the matching preview.
pub open spec fn holds_value(e: KeyEntry, key: Seq<u8>, value: Seq<char>) -> bool {
    &&& stored_plaintext(key, e.ciphertext@, e.nonce@) == Some(value)
    &&& e.masked_preview@ == preview_of(value)
}

/// A freshly added entry: name, value and preview as given, created and updated `now`.
pub open spec fn fresh_entry(e: KeyEntry, key: Seq<u8>, name: Seq<char>, value: Seq<char>, now: i64) -> bool {
    &&& e.name@ == name
    &&& holds_value(e, key, value)
    &&& e.created_at == now
    &&& e.updated_at == now
}

/// `new` is `old` with a new value written at `now`: same name and creation time.
pub open spec fn rewritten_entry(new: KeyEntry, old: KeyEntry, key: Seq<u8>, value: Seq<char>, now: i64) -> bool {
    &&& new.name@ == old.name@
    &&& holds_value(new, key, value)
    &&& new.created_at == old.created_at
    &&& new.updated_at == now
}

impl Vault {
    /// The position of the first entry with the given name.
    pub fn find_index(&self, name: &str) -> (r: Option<usize>)
        ensures
            match r {
                Some(i) => is_first_of(self.entries@, name@, i as int),
                None => !has_name(self.entries@, name@),
            },
    {
        let mut i: usize = 0;
        while i < self.entries.len()
            invariant
                i <= self.entries@.len(),
                forall|j: int| 0 <= j < i ==> #[trigger] self.entries@[j].name@ != name@,
            decreases self.entries@.len() - i,
        {
            if str_eq(self.entries[i].name.as_str(), name) {
                return Some(i);
            }
            i = i + 1;
        }
        None
    }

    /// Refuses a name that is stored already.
    pub fn ensure_absent(&self, name: &str) -> (r: Result<(), KeymgrError>)
        ensures
            match r {
                Ok(()) => !has_name(self.entries@, name@),
                Err(e) => has_name(self.entries@, name@) && (e matches KeymgrError::DuplicateKey(n)
                    && n@ == name@),
            },
    {
        match self.find_index(name) {
            Some(_) => Err(KeymgrError::DuplicateKey(name.to_owned())),
            None => Ok(()),
        }
    }

    /// The first entry with the given name.
    pub fn find(&self, name: &str) -> (r: Result<&KeyEntry, KeymgrError>)
        ensures
            match r {
                Ok(e) => exists|i: int| is_first_of(self.entries@, name@, i) && *e == self.entries@[i],
                Err(e) => !has_name(self.entries@, name@) && (e matches KeymgrError::KeyNotFound(n)
                    && n@ == name@),
            },
    {
        match self.find_index(name) {
            Some(i) => Ok(&self.entries[i]),
            None => Err(KeymgrError::KeyNotFound(name.to_owned())),
        }
    }

    /// Adds a new key: refuses a name that is stored already, masks the value for the
    /// listing and stores it encrypted, created and updated `now`.
    pub fn add_key(&mut self, dek: &Dek, name: &str, secret: &str, now: i64) -> (r: Result<(), KeymgrError>)
        ensures
            final(self).version == old(self).version,
            names_unique(old(self).entries@) ==> names_unique(final(self).entries@),
            match r {
                Ok(()) => !has_name(old(self).entries@, name@) && final(self).entries@.len() == old(
                    self,
                ).entries@.len() + 1 && final(self).entries@.drop_last() == old(self).entries@
                    && fresh_entry(final(self).entries@.last(), dek.0@, name@, secret@, now),
                Err(e) => final(self).entries@ == old(self).entries@ && match e {
                    KeymgrError::DuplicateKey(n) => has_name(old(self).entries@, name@) && n@
                        == name@,
                    KeymgrError::Crypto(_) => !has_name(old(self).entries@, name@)
                        && secret.spec_bytes().len() > max_plaintext_len(),
                    _ => false,
                },
            },
    {
        match self.ensure_absent(name) {
            Ok(()) => {},
            Err(e) => return Err(e),
        }
        let masked_preview = mask_value(secret);
        let (ciphertext, nonce) = match encrypt(dek, secret) {
            Ok(pair) => pair,
            Err(e) => return Err(e),
        };
        let entry = KeyEntry {
            name: name.to_owned(),
            ciphertext,
            nonce,
            masked_preview,
            created_at: now,
            updated_at: now,
        };
        self.entries.push(entry);
        assert(self.entries@.drop_last() =~= old(self).entries@);
        proof {
            let es = self.entries@;
            let n = old(self).entries@.len();
            assert forall|i: int, j: int|
                names_unique(old(self).entries@) && 0 <= i < es.len() && 0 <= j < es.len() && i != j implies #[trigger] es[i].name@ != #[trigger] es[j].name@ by {
                if i == n {
                    assert(old(self).entries@[j].name@ == es[j].name@);
                } else if j == n {
                    assert(old(self).entries@[i].name@ == es[i].name@);
                } else {
                    assert(old(self).entries@[i] == es[i]);
                    assert(old(self).entries@[j] == es[j]);
                }
            }
        }
        Ok(())
    }

    /// Gives an existing key a new value at `now`: the name and creation time stay, the
    /// preview and the stored ciphertext change.
    pub fn update_key(&mut self, dek: &Dek, name: &str, secret: &str, now: i64) -> (r: Result<(), KeymgrError>)
        ensures
            final(self).version == old(self).version,
            names_unique(old(self).entries@) ==> names_unique(final(self).entries@),
            match r {
                Ok(()) => exists|i: int|
                    is_first_of(old(self).entries@, name@, i) && final(self).entries@ == old(
                        self,
                    ).entries@.update(i, final(self).entries@[i]) && #[trigger] rewritten_entry(
                        final(self).entries@[i],
                        old(self).entries@[i],
                        dek.0@,
                        secret@,
                        now,
                    ),
                Err(e) => final(self).entries@ == old(self).entries@ && match e {
                    KeymgrError::KeyNotFound(n) => !has_name(old(self).entries@, name@) && n@
                        == name@,
                    KeymgrError::Crypto(_) => has_name(old(self).entries@, name@)
                        && secret.spec_bytes().len() > max_plaintext_len(),
                    _ => false,
                },
            },
    {
        let i = match self.find_index(name) {
            Some(i) => i,
            None => return Err(KeymgrError::KeyNotFound(name.to_owned())),
        };
        let masked_preview = mask_value(secret);
        let (ciphertext, nonce) = match encrypt(dek, secret) {
            Ok(pair) => pair,
            Err(e) => return Err(e),
        };
        let entry = KeyEntry {
            name: self.entries[i].name.clone(),
            ciphertext,
            nonce,
            masked_preview,
            created_at: self.entries[i].created_at,
            updated_at: now,
        };
        self.entries.set(i, entry);
        assert(rewritten_entry(self.entries@[i as int], old(self).entries@[i as int], dek.0@, secret@, now));
        proof {
            let es = self.entries@;
            assert forall|a: int, b: int|
                names_unique(old(self).entries@) && 0 <= a < es.len() && 0 <= b < es.len() && a != b implies #[trigger] es[a].name@ != #[trigger] es[b].name@ by {
                assert(es[a].name@ == old(self).entries@[a].name@);
                assert(es[b].name@ == old(self).entries@[b].name@);
            }
        }
        Ok(())
    }

    /// Removes the first key of the given name and returns it; the other keys keep their
    /// order.
    pub fn remove_key(&mut self, name: &str) -> (r: Result<KeyEntry, KeymgrError>)
        ensures
            final(self).version == old(self).version,
            names_unique(old(self).entries@) ==> names_unique(final(self).entries@)
                && !has_name(final(self).entries@, name@),
            match r {
                Ok(e) => exists|i: int|
                    is_first_of(old(self).entries@, name@, i) && e == old(self).entries@[i]
                        && final(self).entries@ == #[trigger] old(self).entries@.remove(i),
                Err(e) => final(self).entries@ == old(self).entries@ && !has_name(
                    old(self).entries@,
                    name@,
                ) && (e matches KeymgrError::KeyNotFound(n) && n@ == name@),
            },
    {
        match self.find_index(name) {
            Some(i) => {
                let e = self.entries.remove(i);
                proof {
                    let olds = old(self).entries@;
                    let es = self.entries@;
                    if names_unique(olds) {
                        assert forall|a: int, b: int|
                            0 <= a < es.len() && 0 <= b < es.len() && a != b implies #[trigger] es[a].name@ != #[trigger] es[b].name@ by {
                            let oa = if a < i { a } else { a + 1 };
                            let ob = if b < i { b } else { b + 1 };
                            assert(es[a] == olds[oa]);
                            assert(es[b] == olds[ob]);
                        }
                        assert forall|a: int| 0 <= a < es.len() implies #[trigger] es[a].name@ != name@ by {
                            let oa = if a < i { a } else { a + 1 };
                            assert(es[a] == olds[oa]);
                        }
                    }
                }
                Ok(e)
            },
            None => Err(KeymgrError::KeyNotFound(name.to_owned())),
        }
    }
}

/// An entry holding a value shows the mask of the whole value: for a value of more than
/// eight characters, its own first four and last four characters around `***`.
pub proof fn lemma_stored_preview(e: KeyEntry, key: Seq<u8>, value: Seq<char>)
    requires
        holds_value(e, key, value),
    ensures
        e.masked_preview@ == mask_chars(value),
        value.len() > 8 ==> e.masked_preview@ == value.subrange(0, 4) + seq!['*', '*', '*']
            + value.subrange(value.len() - 4, value.len() as int),
{
    if value.len() > 8 {
        lemma_mask_long(value);
    }
}

/// A key that `add_key` added is what a lookup of its name then finds, and it holds the
/// value it was added with.
pub proof fn lemma_added_key_found(old_entries: Seq<KeyEntry>, new_entries: Seq<KeyEntry>, key: Seq<u8>, name: Seq<char>, value: Seq<char>, now: i64)
    requires
        !has_name(old_entries, name),
        new_entries.len() == old_entries.len() + 1,
        new_entries.drop_last() == old_entries,
        fresh_entry(new_entries.last(), key, name, value, now),
    ensures
        is_first_of(new_entries, name, old_entries.len() as int),
        holds_value(new_entries[old_entries.len() as int], key, value),
        new_entries[old_entries.len() as int].masked_preview@ == mask_chars(value),
{
    assert forall|j: int| 0 <= j < old_entries.len() implies #[trigger] new_entries[j].name@ != name by {
        assert(new_entries[j] == old_entries[j]);
    }
}

/// After `update_key` a lookup of the name finds the rewritten entry, holding the new value.
pub proof fn lemma_updated_key_found(old_entries: Seq<KeyEntry>, new_entries: Seq<KeyEntry>, i: int, key: Seq<u8>, name: Seq<char>, value: Seq<char>, now: i64)
    requires
        is_first_of(old_entries, name, i),
        new_entries == old_entries.update(i, new_entries[i]),
        rewritten_entry(new_entries[i], old_entries[i], key, value, now),
    ensures
        is_first_of(new_entries, name, i),
        holds_value(new_entries[i], key, value),
        new_entries[i].masked_preview@ == mask_chars(value),
{
    assert forall|j: int| 0 <= j < i implies #[trigger] new_entries[j].name@ != name by {
        assert(new_entries[j] == old_entries[j]);
    }
}

/// The bytes of an entry's name.
pub open spec fn name_bytes(entries: Seq<KeyEntry>, i: int) -> Seq<u8> {
    encode_utf8(entries[i].name@)
}

/// Entry `i` is listed before entry `j`: its name comes first byte-wise, or the names are
/// equal and `i` was stored first.
pub open spec fn listed_before(entries: Seq<KeyEntry>, i: int, j: int) -> bool {
    ||| (name_bytes(entries, i) != name_bytes(entries, j) && bytes_le(
        name_bytes(entries, i),
        name_bytes(entries, j),
    ))
    ||| (name_bytes(entries, i) == name_bytes(entries, j) && i < j)
}

/// `order` lists every entry's position once, sorted by name (stably).
pub open spec fn is_name_order(entries: Seq<KeyEntry>, order: Seq<usize>) -> bool {
    &&& order.len() == entries.len()
    &&& forall|k: int| 0 <= k < order.len() ==> #[trigger] order[k] < entries.len()
    &&& forall|k: int, l: int|
        0 <= k < l < order.len() ==> listed_before(entries, #[trigger] order[k] as int, #[trigger] order[l] as int)
}

proof fn lemma_listed_before_le(entries: Seq<KeyEntry>, i: int, j: int)
    requires
        listed_before(entries, i, j),
    ensures
        bytes_le(name_bytes(entries, i), name_bytes(entries, j)),
{
    if name_bytes(entries, i) == name_bytes(entries, j) {
        lemma_bytes_le_total(name_bytes(entries, i), name_bytes(entries, j));
    }
}

/// Some place of `order` holds position `i`.
pub open spec fn lists_position(order: Seq<usize>, i: int) -> bool {
    exists|k: int| 0 <= k < order.len() && order[k] == i
}

/// In a name order, of two entries whose names' UTF-8 bytes first differ at some place,
/// the one with the smaller byte there (as an unsigned number) is listed first.
pub proof fn lemma_name_order_by_first_differing_byte(entries: Seq<KeyEntry>, order: Seq<usize>, p: int, q: int, k: int)
    requires
        is_name_order(entries, order),
        0 <= p < order.len(),
        0 <= q < order.len(),
        0 <= k < name_bytes(entries, order[p] as int).len(),
        k < name_bytes(entries, order[q] as int).len(),
        name_bytes(entries, order[p] as int).subrange(0, k) == name_bytes(entries, order[q] as int).subrange(0, k),
        (name_bytes(entries, order[p] as int)[k] as int) < (name_bytes(entries, order[q] as int)[k] as int),
    ensures
        p < q,
{
    let a = name_bytes(entries, order[p] as int);
    let b = name_bytes(entries, order[q] as int);
    if q < p {
        assert(listed_before(entries, order[q] as int, order[p] as int));
        assert(a != b);
        lemma_bytes_le_first_difference(b, a, k);
    }
}

/// In a name order, an entry whose name's bytes are a proper prefix of another's is listed
/// first.
pub proof fn lemma_name_order_prefix_first(entries: Seq<KeyEntry>, order: Seq<usize>, p: int, q: int)
    requires
        is_name_order(entries, order),
        0 <= p < order.len(),
        0 <= q < order.len(),
        name_bytes(entries, order[p] as int).len() < name_bytes(entries, order[q] as int).len(),
        name_bytes(entries, order[q] as int).subrange(0, name_bytes(entries, order[p] as int).len() as int)
            == name_bytes(entries, order[p] as int),
    ensures
        p < q,
{
    let a = name_bytes(entries, order[p] as int);
    let b = name_bytes(entries, order[q] as int);
    if q < p {
        assert(listed_before(entries, order[q] as int, order[p] as int));
        assert(a != b);
        lemma_bytes_le_prefix(a, b);
        lemma_bytes_le_antisymmetric(a, b);
    }
}

/// A name order lists every entry exactly once: its positions are distinct and cover all
/// the entries.
pub proof fn lemma_name_order_lists_each_once(entries: Seq<KeyEntry>, order: Seq<usize>)
    requires
        is_name_order(entries, order),
    ensures
        forall|k: int, l: int| 0 <= k < l < order.len() ==> order[k] != order[l],
        forall|i: int| 0 <= i < entries.len() ==> #[trigger] lists_position(order, i),
{
    let n = entries.len() as int;
    let s = order.map_values(|x: usize| x as int);
    assert forall|k: int, l: int| 0 <= k < l < order.len() implies order[k] != order[l] by {
        assert(listed_before(entries, order[k] as int, order[l] as int));
    }
    assert(s.no_duplicates());
    s.unique_seq_to_set();
    vstd::set_lib::lemma_int_range(0, n);
    vstd::seq_lib::seq_to_set_is_finite(s);
    assert forall|x: int| s.to_set().contains(x) implies vstd::set_lib::set_int_range(0, n).contains(x) by {
        let k = choose|k: int| 0 <= k < s.len() && s[k] == x;
        assert(order[k] < entries.len());
    }
    vstd::set_lib::lemma_subset_equality(s.to_set(), vstd::set_lib::set_int_range(0, n));
    assert forall|i: int| 0 <= i < entries.len() implies #[trigger] lists_position(order, i) by {
        assert(vstd::set_lib::set_int_range(0, n).contains(i));
        assert(s.to_set().contains(i));
        let k = choose|k: int| 0 <= k < s.len() && s[k] == i;
        assert(order[k] == i);
    }
}

impl Vault {
    /// The positions of the entries sorted by name, byte-wise; entries of equal names keep
    /// their stored order.
    pub fn name_order(&self) -> (order: Vec<usize>)
        ensures
            is_name_order(self.entries@, order@),
    {
        let ghost es = self.entries@;
        let n = self.entries.len();
        let mut order: Vec<usize> = Vec::new();
        let mut i: usize = 0;
        while i < n
            invariant
                n == es.len(),
                es == self.entries@,
                i <= n,
                order@.len() == i,
                forall|k: int| 0 <= k < order@.len() ==> #[trigger] order@[k] < i,
                forall|k: int, l: int|
                    0 <= k < l < order@.len() ==> listed_before(es, #[trigger] order@[k] as int, #[trigger] order@[l] as int),
            decreases n - i,
        {
            let mut p: usize = order.len();
            loop
                invariant
                    n == es.len(),
                    es == self.entries@,
                    i < n,
                    p <= order@.len(),
                    order@.len() == i,
                    forall|k: int| 0 <= k < order@.len() ==> #[trigger] order@[k] < i,
                    forall|q: int| p <= q < order@.len() ==> !bytes_le(#[trigger] name_bytes(es, order@[q] as int), name_bytes(es, i as int)),
                ensures
                    p <= order@.len(),
                    forall|q: int| p <= q < order@.len() ==> !bytes_le(#[trigger] name_bytes(es, order@[q] as int), name_bytes(es, i as int)),
                    p > 0 ==> bytes_le(name_bytes(es, order@[p - 1] as int), name_bytes(es, i as int)),
                decreases p,
            {
                if p == 0 {
                    break;
                }
                let before = order[p - 1];
                if str_le(self.entries[before].name.as_str(), self.entries[i].name.as_str()) {
                    break;
                }
                p = p - 1;
            }
            let ghost old_order = order@;
            order.insert(p, i);
            proof {
                assert forall|k: int, l: int|
                    0 <= k < l < order@.len() implies listed_before(es, #[trigger] order@[k] as int, #[trigger] order@[l] as int) by {
                    let ni = name_bytes(es, i as int);
                    if l == p {
                        // order[k] is an earlier entry at or before the cut
                        let ok = old_order[k] as int;
                        let last = old_order[p - 1] as int;
                        assert(bytes_le(name_bytes(es, last), ni));
                        if k < p - 1 {
                            lemma_listed_before_le(es, ok, last);
                            lemma_bytes_le_transitive(name_bytes(es, ok), name_bytes(es, last), ni);
                        }
                    } else if k == p {
                        let ol = old_order[l - 1] as int;
                        assert(!bytes_le(name_bytes(es, ol), ni));
                        lemma_bytes_le_total(name_bytes(es, ol), ni);
                    } else {
                        let ok = if k < p { k } else { k - 1 };
                        let ol = if l < p { l } else { l - 1 };
                        assert(order@[k] == old_order[ok]);
                        assert(order@[l] == old_order[ol]);
                    }
                }
            }
            i = i + 1;
        }
        order
    }
}

/// Re-encrypting the entry under a new key goes through: it decrypts under the old key
/// and its value is short enough to encrypt.
pub open spec fn rekey_fine(old_key: Seq<u8>, e: KeyEntry) -> bool {
    stored_plaintext(old_key, e.ciphertext@, e.nonce@) matches Some(pt)
        && encode_utf8(pt).len() <= max_plaintext_len()
}

/// Re-encrypting the entry cannot be done at all: its stored nonce decodes to a length
/// other than 96 bits.
pub open spec fn rekey_aborts(old_key: Seq<u8>, e: KeyEntry) -> bool {
    !decryptable(e.ciphertext@, e.nonce@)
}

/// `new` is `old` re-encrypted: same name and times, same value under the new key, the
/// preview recomputed from the value.
pub open spec fn rekeyed_entry(new: KeyEntry, old: KeyEntry, old_key: Seq<u8>, new_key: Seq<u8>) -> bool {
    &&& new.name@ == old.name@
    &&& new.created_at == old.created_at
    &&& new.updated_at == old.updated_at
    &&& stored_plaintext(old_key, old.ciphertext@, old.nonce@) matches Some(pt) && holds_value(
        new,
        new_key,
        pt,
    )
}

/// Entry `i` is the first whose re-encryption does not go through.
pub open spec fn first_stuck(entries: Seq<KeyEntry>, old_key: Seq<u8>, i: int) -> bool {
    &&& 0 <= i < entries.len()
    &&& !rekey_fine(old_key, entries[i])
    &&& forall|j: int| 0 <= j < i ==> #[trigger] rekey_fine(old_key, entries[j])
}

impl Vault {
    /// Re-encrypts every key under a new data-encryption key (for `passwd`): each value is
    /// decrypted with the old key, masked afresh and encrypted with the new one; names and
    /// times stay. Stops at the first key that fails with its error; answers `None` where
    /// a key cannot be processed at all (its stored nonce is not 96 bits). Each decrypted
    /// value is wiped from memory once it has been encrypted again, or has failed to be.
    pub fn reencrypt(&mut self, old_dek: &Dek, new_dek: &Dek) -> (r: Option<Result<(), KeymgrError>>)
        ensures
            final(self).version == old(self).version,
            final(self).entries@.len() == old(self).entries@.len(),
            forall|i: int|
                0 <= i < old(self).entries@.len() ==> (#[trigger] final(self).entries@[i]).name@
                    == old(self).entries@[i].name@,
            match r {
                None => exists|i: int|
                    #[trigger] first_stuck(old(self).entries@, old_dek.0@, i) && rekey_aborts(
                        old_dek.0@,
                        old(self).entries@[i],
                    ),
                Some(Err(e)) => e is Crypto && exists|i: int|
                    #[trigger] first_stuck(old(self).entries@, old_dek.0@, i) && !rekey_aborts(
                        old_dek.0@,
                        old(self).entries@[i],
                    ),
                Some(Ok(())) => forall|i: int|
                    0 <= i < old(self).entries@.len() ==> rekey_fine(
                        old_dek.0@,
                        #[trigger] old(self).entries@[i],
                    ) && rekeyed_entry(final(self).entries@[i], old(self).entries@[i], old_dek.0@, new_dek.0@),
            },
    {
        let ghost olds = self.entries@;
        let n = self.entries.len();
        let mut i: usize = 0;
        while i < n
            invariant
                n == olds.len(),
                self.version == old(self).version,
                olds == old(self).entries@,
                self.entries@.len() == n,
                i <= n,
                forall|j: int| 0 <= j < i ==> #[trigger] rekey_fine(old_dek.0@, olds[j]),
                forall|j: int| 0 <= j < i ==> #[trigger] rekeyed_entry(self.entries@[j], olds[j], old_dek.0@, new_dek.0@),
                forall|j: int| i <= j < n ==> #[trigger] self.entries@[j] == olds[j],
                forall|j: int| 0 <= j < n ==> (#[trigger] self.entries@[j]).name@ == olds[j].name@,
            decreases n - i,
        {
            let ghost e_old = olds[i as int];
            let decrypted = checked_decrypt(old_dek, self.entries[i].ciphertext.as_str(), self.entries[i].nonce.as_str());
            let mut pt = match decrypted {
                None => {
                    assert(first_stuck(olds, old_dek.0@, i as int));
                    return None;
                },
                Some(Err(e)) => {
                    assert(first_stuck(olds, old_dek.0@, i as int));
                    return Some(Err(e));
                },
                Some(Ok(pt)) => pt,
            };
            let masked_preview = mask_value(pt.as_str());
            let (ciphertext, nonce) = match encrypt(new_dek, pt.as_str()) {
                Ok(pair) => pair,
                Err(e) => {
                    assert(first_stuck(olds, old_dek.0@, i as int));
                    wipe(&mut pt);
                    return Some(Err(e));
                },
            };
            let ghost value = pt@;
            assert(rekey_fine(old_dek.0@, olds[i as int]));
            wipe(&mut pt);
            let entry = KeyEntry {
                name: self.entries[i].name.clone(),
                ciphertext,
                nonce,
                masked_preview,
                created_at: self.entries[i].created_at,
                updated_at: self.entries[i].updated_at,
            };
            self.entries.set(i, entry);
            assert(rekeyed_entry(self.entries@[i as int], olds[i as int], old_dek.0@, new_dek.0@));
            i = i + 1;
        }
        Some(Ok(()))
    }
}

} // verus!
