//! The secret vault: AES-256-GCM encrypted entries, `{{vault:name}}` placeholders and masking.
use vstd::prelude::*;

use crate::crypto::{
    AES_GCM_P_MAX, aes_gcm_decrypt, aes_gcm_encrypt, base64_decode, base64_encode, pbkdf2_sha256, random_bytes,
    random_nonce, spec_aes_gcm_decrypt, spec_base64_decode, spec_pbkdf2_sha256, utf8_decode,
};
use crate::models::opt_view;
use crate::text::{
    chars_of, find, find_from, find_from_exec, has_prefix, lemma_find_from_skip,
    lemma_find_from_spec, push_chars, push_str, range_eq, str_eq, str_starts_with, str_trim,
    string_of_range, trim, trim_bounds,
};
use vstd::utf8::{decode_utf8, encode_utf8, valid_utf8};

verus! {

/// Keychain service under which the master key is kept on macOS.
pub const KEYCHAIN_SERVICE: &'static str = "com.helios.vault";

/// Keychain account under which the master key is kept on macOS.
pub const KEYCHAIN_ACCOUNT: &'static str = "master-key";

/// Length of the master key in bytes (AES-256).
pub const MASTER_KEY_LEN: usize = 32;

/// Length of a nonce in bytes (96-bit GCM nonce).
pub const NONCE_LEN: usize = 12;

/// Length of the GCM authentication tag in bytes.
pub const TAG_LEN: usize = 16;

/// PBKDF2 iteration count for deriving the master key from a passphrase.
pub const PBKDF2_ITERATIONS: u32 = 600000;

/// File name of the encrypted vault.
pub const SECRETS_FILE: &'static str = "secrets.enc";

/// Directory that holds the vault.
pub const HELIOS_DIR: &'static str = ".helios";

/// Environment variable that holds the passphrase.
pub const PASSPHRASE_VAR: &'static str = "HELIOS_VAULT_PASSPHRASE";

/// What a masked secret is shown as.
pub const MASKED_VALUE: &'static str = "***";

/// Salt of the passphrase derivation.
pub const PASSPHRASE_SALT: &'static str = "helios-vault-salt";

/// Why a vault operation failed.
#[derive(Debug, Clone, Copy, PartialEq, Eq, Structural)]
pub enum VaultError {
    /// No passphrase was given and no keychain key is available.
    NoMasterKey,
    /// The master key has the wrong length for AES-256-GCM.
    CipherInit,
    /// Encryption reported an error.
    Encrypt,
    /// The secrets file does not open under the master key (the key has changed).
    Decrypt,
}

impl VaultError {
    /// A description of the error.
    pub fn message(&self) -> (r: String)
        ensures
            r@.len() > 0,
    {
        let r = match self {
            VaultError::NoMasterKey => crate::text::copy_str(
                "HELIOS_VAULT_PASSPHRASE is not set and no keychain key is available",
            ),
            VaultError::CipherInit => crate::text::copy_str("cannot create the AES-256-GCM cipher"),
            VaultError::Encrypt => crate::text::copy_str("cannot encrypt the secret"),
            VaultError::Decrypt => crate::text::copy_str(
                "cannot decrypt the secrets file; the master key may have changed",
            ),
        };
        proof {
            reveal_strlit("HELIOS_VAULT_PASSPHRASE is not set and no keychain key is available");
            reveal_strlit("cannot create the AES-256-GCM cipher");
            reveal_strlit("cannot encrypt the secret");
            reveal_strlit("cannot decrypt the secrets file; the master key may have changed");
        }
        r
    }
}

/// One encrypted secret: its name, the Base64 ciphertext (with tag) and the Base64 nonce.
#[derive(Debug, Clone, PartialEq)]
pub struct VaultEntry {
    pub name: String,
    pub encrypted_value: String,
    pub iv: String,
}

impl VaultEntry {
    /// A copy of this entry.
    pub fn copy(&self) -> (r: Self)
        ensures
            r.name@ == self.name@,
            r.encrypted_value@ == self.encrypted_value@,
            r.iv@ == self.iv@,
    {
        VaultEntry {
            name: self.name.clone(),
            encrypted_value: self.encrypted_value.clone(),
            iv: self.iv.clone(),
        }
    }
}

/// The secret an entry holds under a master key: Base64-decode the ciphertext and the
/// 12-byte nonce, decrypt, and read the plaintext as UTF-8.
pub open spec fn decrypt_entry(key: Seq<u8>, e: VaultEntry) -> Option<Seq<char>> {
    match spec_base64_decode(e.encrypted_value@) {
        None => None,
        Some(ct) => match spec_base64_decode(e.iv@) {
            None => None,
            Some(nonce) => if nonce.len() != 12 || key.len() != 32 {
                None
            } else {
                match spec_aes_gcm_decrypt(key, nonce, ct) {
                    None => None,
                    Some(pt) => if valid_utf8(pt) {
                        Some(decode_utf8(pt))
                    } else {
                        None
                    },
                }
            },
        },
    }
}

/// The position of the first entry named `name` at or after `from`.
pub open spec fn entry_index(es: Seq<VaultEntry>, name: Seq<char>, from: int) -> Option<int>
    decreases es.len() - from,
{
    if from < 0 || from >= es.len() {
        None
    } else if es[from].name@ == name {
        Some(from)
    } else {
        entry_index(es, name, from + 1)
    }
}

/// The position of the last entry named `name`.
pub open spec fn last_entry_index(es: Seq<VaultEntry>, name: Seq<char>) -> Option<int>
    decreases es.len(),
{
    if es.len() == 0 {
        None
    } else if es.last().name@ == name {
        Some(es.len() - 1)
    } else {
        last_entry_index(es.drop_last(), name)
    }
}

/// Whether a name differs from `key`.
pub open spec fn other_name(key: Seq<char>) -> spec_fn(Seq<char>) -> bool {
    |n: Seq<char>| n != key
}

/// The names of the entries, in order.
pub open spec fn entry_names(es: Seq<VaultEntry>) -> Seq<Seq<char>> {
    es.map_values(|e: VaultEntry| e.name@)
}

/// A store of secrets.
pub trait Vault {
    /// The secret stored under `key`, if any. An implementation states what it holds by
    /// defining this; one that does not is taken to hold nothing.
    open spec fn secret(&self, key: Seq<char>) -> Option<Seq<char>> {
        None
    }

    /// Stores `value` under `key`, replacing what was there.
    fn set(&mut self, key: &str, value: &str) -> (r: Result<(), VaultError>)
        ensures
            r is Ok ==> final(self).secret(key@) == Some(value@),
            r is Ok ==> forall|k: Seq<char>|
                k != key@ ==> #[trigger] final(self).secret(k) == old(self).secret(k),
            r is Err ==> forall|k: Seq<char>| #[trigger] final(self).secret(k) == old(self).secret(k),
    ;

    /// The secret stored under `key`.
    fn get(&self, key: &str) -> (r: Option<String>)
        ensures
            opt_view(r) == self.secret(key@),
    ;

    /// The names of all stored secrets.
    fn list(&self) -> Vec<String>;

    /// Removes the secret stored under `key`; returns whether there was one.
    fn delete(&mut self, key: &str) -> (r: bool)
        ensures
            final(self).secret(key@) is None,
            forall|k: Seq<char>| k != key@ ==> #[trigger] final(self).secret(k) == old(self).secret(k),
    ;
}

/// The vault as stored: its entries (no two share a name) and the master key that
/// encrypts them, when one has been supplied.
#[derive(Debug, Clone)]
pub struct VaultStorage {
    pub entries: Vec<VaultEntry>,
    pub master_key: Option<Vec<u8>>,
}

impl VaultStorage {
    /// An empty vault without a master key.
    pub fn new() -> (r: Self)
        ensures
            r.entries@.len() == 0,
            r.master_key is None,
    {
        VaultStorage { entries: Vec::new(), master_key: None }
    }

    /// An empty vault that encrypts with `key`.
    pub fn with_master_key(key: Vec<u8>) -> (r: Self)
        ensures
            r.entries@.len() == 0,
            r.master_key matches Some(k) && k@ == key@,
    {
        VaultStorage { entries: Vec::new(), master_key: Some(key) }
    }

    /// A vault holding `entries`; of two entries with the same name the later one is kept,
    /// as loading them into a map would do.
    pub fn from_entries(entries: Vec<VaultEntry>, master_key: Option<Vec<u8>>) -> (r: Self)
        ensures
            r.master_key == master_key,
            forall|k: Seq<char>|
                (#[trigger] entry_index(r.entries@, k, 0) is Some <==> last_entry_index(entries@, k)
                    is Some) && (entry_index(r.entries@, k, 0) matches Some(a) ==> last_entry_index(
                    entries@,
                    k,
                ) matches Some(b) && 0 <= a < r.entries@.len() && 0 <= b < entries@.len()
                    && same_entry(r.entries@[a], entries@[b])),
    {
        let mut r = VaultStorage { entries: Vec::new(), master_key };
        let mut i: usize = 0;
        while i < entries.len()
            invariant
                i <= entries.len(),
                r.master_key == master_key,
                forall|k: Seq<char>|
                    (#[trigger] entry_index(r.entries@, k, 0) is Some <==> last_entry_index(
                        entries@.take(i as int),
                        k,
                    ) is Some) && (entry_index(r.entries@, k, 0) matches Some(a) ==> last_entry_index(
                        entries@.take(i as int),
                        k,
                    ) matches Some(b) && 0 <= a < r.entries@.len() && 0 <= b < i && same_entry(
                        r.entries@[a],
                        entries@[b],
                    )),
            decreases entries.len() - i,
        {
            let ghost before = r.entries@;
            let c = entries[i].copy();
            let ghost n = c.name@;
            r.put_entry(c);
            proof {
                let t1 = entries@.take(i + 1);
                assert(t1.drop_last() =~= entries@.take(i as int));
                assert(t1.last() == entries@[i as int]);
                assert forall|k: Seq<char>|
                    (#[trigger] entry_index(r.entries@, k, 0) is Some <==> last_entry_index(t1, k)
                        is Some) && (entry_index(r.entries@, k, 0) matches Some(a)
                        ==> last_entry_index(t1, k) matches Some(b) && 0 <= a < r.entries@.len() && 0
                        <= b < i + 1 && same_entry(r.entries@[a], entries@[b])) by {
                    lemma_entry_index_some(r.entries@, k);
                    lemma_entry_index_some(before, k);
                    if k != n {
                        if let Some(a) = entry_index(before, k, 0) {
                            assert(before[a].name@ == k);
                        }
                    }
                }
            }
            i = i + 1;
        }
        assert(entries@.take(entries.len() as int) =~= entries@);
        r
    }

    /// The entries of the vault.
    pub fn entries(&self) -> (r: &Vec<VaultEntry>)
        ensures
            r == &self.entries,
    {
        &self.entries
    }

    /// Stores `e`, replacing an entry of the same name.
    fn put_entry(&mut self, e: VaultEntry)
        ensures
            final(self).master_key == old(self).master_key,
            entry_index(final(self).entries@, e.name@, 0) matches Some(i) && final(self).entries@[i]
                == e,
            forall|k: Seq<char>|
                k != e.name@ ==> #[trigger] entry_index(final(self).entries@, k, 0)
                    == entry_index(old(self).entries@, k, 0),
            old(self).entries@.len() <= final(self).entries@.len(),
            forall|i: int|
                0 <= i < old(self).entries@.len() && old(self).entries@[i].name@ != e.name@
                    ==> #[trigger] final(self).entries@[i] == old(self).entries@[i],
    {
        let ghost es0 = self.entries@;
        let mut i: usize = 0;
        while i < self.entries.len()
            invariant
                i <= self.entries.len(),
                self.entries@ == es0,
                es0 == old(self).entries@,
                self.master_key == old(self).master_key,
                entry_index(es0, e.name@, 0) == entry_index(es0, e.name@, i as int),
            decreases self.entries.len() - i,
        {
            if str_eq(self.entries[i].name.as_str(), e.name.as_str()) {
                let ghost name = e.name@;
                self.entries.set(i, e);
                proof {
                    assert forall|k: Seq<char>| k != name implies #[trigger] entry_index(
                        self.entries@,
                        k,
                        0,
                    ) == entry_index(es0, k, 0) by {
                        lemma_entry_index_update(es0, i as int, self.entries@[i as int], k, 0);
                    }
                    lemma_entry_index_update(es0, i as int, self.entries@[i as int], name, 0);
                    lemma_entry_index_first(es0, name, i as int);
                    lemma_entry_index_first(self.entries@, name, i as int);
                }
                return;
            }
            i = i + 1;
        }
        let ghost name = e.name@;
        self.entries.push(e);
        proof {
            assert forall|k: Seq<char>| k != name implies #[trigger] entry_index(
                self.entries@,
                k,
                0,
            ) == entry_index(es0, k, 0) by {
                lemma_entry_index_push(es0, self.entries@[es0.len() as int], k, 0);
            }
            lemma_entry_index_push(es0, self.entries@[es0.len() as int], name, 0);
        }
    }
}

/// An entry index is the position of an entry of that name, and earlier ones have other names.
proof fn lemma_entry_index_first(es: Seq<VaultEntry>, name: Seq<char>, i: int)
    requires
        0 <= i < es.len(),
        es[i].name@ == name,
        entry_index(es, name, 0) == entry_index(es, name, i),
    ensures
        entry_index(es, name, 0) == Some(i),
{
}

/// `entry_index` finds something exactly when some entry has that name.
proof fn lemma_entry_index_some(es: Seq<VaultEntry>, name: Seq<char>)
    ensures
        entry_index(es, name, 0) is Some <==> exists|j: int| 0 <= j < es.len() && es[j].name@ == name,
        entry_index(es, name, 0) matches Some(i) ==> 0 <= i < es.len() && es[i].name@ == name,
{
    lemma_entry_index_from(es, name, 0);
}

proof fn lemma_entry_index_from(es: Seq<VaultEntry>, name: Seq<char>, from: int)
    requires
        0 <= from,
    ensures
        entry_index(es, name, from) is Some <==> exists|j: int|
            from <= j < es.len() && es[j].name@ == name,
        entry_index(es, name, from) matches Some(i) ==> from <= i < es.len() && es[i].name@ == name
            && forall|j: int| from <= j < i ==> es[j].name@ != name,
    decreases es.len() - from,
{
    if from < es.len() {
        lemma_entry_index_from(es, name, from + 1);
    }
}

/// Replacing the entry at `i` by one of the same name changes no lookup but at `i`'s name.
proof fn lemma_entry_index_update(es: Seq<VaultEntry>, i: int, e: VaultEntry, k: Seq<char>, from: int)
    requires
        0 <= i < es.len(),
        e.name@ == es[i].name@,
        0 <= from,
    ensures
        entry_index(es.update(i, e), k, from) == entry_index(es, k, from),
    decreases es.len() - from,
{
    if from < es.len() {
        lemma_entry_index_update(es, i, e, k, from + 1);
    }
}

/// Appending an entry changes no lookup of a name that is already there or of another name.
proof fn lemma_entry_index_push(es: Seq<VaultEntry>, e: VaultEntry, k: Seq<char>, from: int)
    requires
        0 <= from <= es.len(),
    ensures
        k != e.name@ ==> entry_index(es.push(e), k, from) == entry_index(es, k, from),
        entry_index(es, k, from) is None && k == e.name@ ==> entry_index(es.push(e), k, from)
            == Some(es.len() as int),
        entry_index(es, k, from) is Some ==> entry_index(es.push(e), k, from) == entry_index(
            es,
            k,
            from,
        ),
    decreases es.len() - from,
{
    if from < es.len() {
        lemma_entry_index_push(es, e, k, from + 1);
        assert(es.push(e)[from] == es[from]);
    } else {
        assert(entry_index(es.push(e), k, from + 1) is None);
    }
}

/// Two entries hold the same name, ciphertext and nonce.
pub open spec fn same_entry(a: VaultEntry, b: VaultEntry) -> bool {
    a.name@ == b.name@ && a.encrypted_value@ == b.encrypted_value@ && a.iv@ == b.iv@
}

/// Every name other than `name` is found in `a` exactly when it is found in `b`, and at
/// entries with the same contents.
spec fn same_lookups_except(a: Seq<VaultEntry>, b: Seq<VaultEntry>, name: Seq<char>) -> bool {
    forall|k: Seq<char>|
        k != name ==> (#[trigger] entry_index(a, k, 0) is Some <==> entry_index(b, k, 0) is Some)
            && (entry_index(a, k, 0) matches Some(i) ==> entry_index(b, k, 0) matches Some(j)
            && 0 <= i < a.len() && 0 <= j < b.len() && same_entry(a[i], b[j]))
}

/// Skipping an entry named `name` keeps the lookups of the other names.
proof fn lemma_delete_skip(kept: Seq<VaultEntry>, seen: Seq<VaultEntry>, x: VaultEntry, name: Seq<char>)
    requires
        same_lookups_except(kept, seen, name),
        x.name@ == name,
    ensures
        same_lookups_except(kept, seen.push(x), name),
{
    assert forall|k: Seq<char>| k != name implies (#[trigger] entry_index(kept, k, 0) is Some
        <==> entry_index(seen.push(x), k, 0) is Some) && (entry_index(kept, k, 0) matches Some(i)
        ==> entry_index(seen.push(x), k, 0) matches Some(j) && 0 <= i < kept.len() && 0 <= j
        < seen.push(x).len() && same_entry(kept[i], seen.push(x)[j])) by {
        lemma_entry_index_push(seen, x, k, 0);
        lemma_entry_index_some(seen, k);
    }
}

/// Keeping a copy of an entry with another name keeps the lookups of the other names.
proof fn lemma_delete_keep(
    kept: Seq<VaultEntry>,
    seen: Seq<VaultEntry>,
    x: VaultEntry,
    y: VaultEntry,
    name: Seq<char>,
)
    requires
        same_lookups_except(kept, seen, name),
        x.name@ != name,
        same_entry(x, y),
    ensures
        same_lookups_except(kept.push(y), seen.push(x), name),
{
    assert forall|k: Seq<char>| k != name implies (#[trigger] entry_index(kept.push(y), k, 0) is Some
        <==> entry_index(seen.push(x), k, 0) is Some) && (entry_index(kept.push(y), k, 0) matches Some(i)
        ==> entry_index(seen.push(x), k, 0) matches Some(j) && 0 <= i < kept.push(y).len() && 0 <= j
        < seen.push(x).len() && same_entry(kept.push(y)[i], seen.push(x)[j])) by {
        lemma_entry_index_push(seen, x, k, 0);
        lemma_entry_index_push(kept, y, k, 0);
        lemma_entry_index_some(seen, k);
        lemma_entry_index_some(kept, k);
    }
}

/// Entries with the same contents hold the same secret.
proof fn lemma_same_entry_decrypt(key: Seq<u8>, a: VaultEntry, b: VaultEntry)
    requires
        same_entry(a, b),
    ensures
        decrypt_entry(key, a) == decrypt_entry(key, b),
{
}

impl Vault for VaultStorage {
    open spec fn secret(&self, key: Seq<char>) -> Option<Seq<char>> {
        match self.master_key {
            None => None,
            Some(mk) => match entry_index(self.entries@, key, 0) {
                None => None,
                Some(i) => decrypt_entry(mk@, self.entries@[i]),
            },
        }
    }

    /// Encrypts `value` with a fresh nonce and stores it under `key`. Without a master key it
    /// fails with `NoMasterKey`, with a key of the wrong length with `CipherInit`; with a
    /// 32-byte key it succeeds for every value within AES-GCM's plaintext bound (2^36 bytes).
    fn set(&mut self, key: &str, value: &str) -> (r: Result<(), VaultError>)
        ensures
            old(self).master_key is None ==> r == Err::<(), VaultError>(VaultError::NoMasterKey),
            (old(self).master_key matches Some(k) && k@.len() != 32) ==> r == Err::<(), VaultError>(
                VaultError::CipherInit,
            ),
            (old(self).master_key matches Some(k) && k@.len() == 32) && r is Err ==> r == Err::<
                (),
                VaultError,
            >(VaultError::Encrypt),
            (old(self).master_key matches Some(k) && k@.len() == 32) && encode_utf8(value@).len()
                <= AES_GCM_P_MAX ==> r is Ok,
    {
        let mk = match &self.master_key {
            None => {
                return Err(VaultError::NoMasterKey);
            },
            Some(k) => k,
        };
        if mk.len() != 32 {
            return Err(VaultError::CipherInit);
        }
        let nonce = random_nonce();
        let ct = match aes_gcm_encrypt(mk.as_slice(), nonce.as_slice(), value.as_bytes()) {
            None => {
                return Err(VaultError::Encrypt);
            },
            Some(c) => c,
        };
        let entry = VaultEntry {
            name: crate::text::copy_str(key),
            encrypted_value: base64_encode(ct.as_slice()),
            iv: base64_encode(nonce.as_slice()),
        };
        proof {
            vstd::utf8::encode_utf8_valid_utf8(value@);
            vstd::utf8::encode_utf8_decode_utf8(value@);
            assert(decrypt_entry(mk@, entry) == Some(value@));
        }
        self.put_entry(entry);
        proof {
            assert forall|k: Seq<char>| k != key@ implies #[trigger] self.secret(k) == old(
                self,
            ).secret(k) by {
                lemma_entry_index_some(old(self).entries@, k);
            }
        }
        Ok(())
    }

    /// Decrypts the secret stored under `key`.
    fn get(&self, key: &str) -> (r: Option<String>) {
        let mk = match &self.master_key {
            None => {
                return None;
            },
            Some(k) => k,
        };
        let mut i: usize = 0;
        while i < self.entries.len()
            invariant
                i <= self.entries.len(),
                self.master_key matches Some(m) && m@ == mk@,
                entry_index(self.entries@, key@, 0) == entry_index(self.entries@, key@, i as int),
            decreases self.entries.len() - i,
        {
            let e = &self.entries[i];
            if str_eq(e.name.as_str(), key) {
                proof {
                    lemma_entry_index_first(self.entries@, key@, i as int);
                }
                let ct = match base64_decode(e.encrypted_value.as_str()) {
                    None => {
                        return None;
                    },
                    Some(c) => c,
                };
                let nonce = match base64_decode(e.iv.as_str()) {
                    None => {
                        return None;
                    },
                    Some(n) => n,
                };
                if nonce.len() != 12 || mk.len() != 32 {
                    return None;
                }
                let pt = match aes_gcm_decrypt(mk.as_slice(), nonce.as_slice(), ct.as_slice()) {
                    None => {
                        return None;
                    },
                    Some(p) => p,
                };
                return utf8_decode(pt);
            }
            i = i + 1;
        }
        None
    }

    /// The names of all entries, in order.
    fn list(&self) -> (r: Vec<String>)
        ensures
            r@.map_values(|s: String| s@) == entry_names(self.entries@),
    {
        let mut r: Vec<String> = Vec::new();
        let mut i: usize = 0;
        while i < self.entries.len()
            invariant
                i <= self.entries.len(),
                r@.len() == i,
                forall|j: int| 0 <= j < i ==> #[trigger] r@[j]@ == self.entries@[j].name@,
            decreases self.entries.len() - i,
        {
            r.push(self.entries[i].name.clone());
            i = i + 1;
        }
        assert(r@.map_values(|s: String| s@) =~= entry_names(self.entries@));
        r
    }

    /// Removes every entry named `key`.
    fn delete(&mut self, key: &str) -> (r: bool)
        ensures
            r == (entry_index(old(self).entries@, key@, 0) is Some),
            r == entry_names(old(self).entries@).contains(key@),
            entry_names(final(self).entries@) == entry_names(old(self).entries@).filter(other_name(key@)),
    {
        let ghost es0 = self.entries@;
        let mut kept: Vec<VaultEntry> = Vec::new();
        let mut removed = false;
        let mut i: usize = 0;
        while i < self.entries.len()
            invariant
                i <= self.entries.len(),
                self.entries@ == es0,
                self.master_key == old(self).master_key,
                es0 == old(self).entries@,
                removed == (entry_index(es0.take(i as int), key@, 0) is Some),
                forall|j: int| 0 <= j < kept@.len() ==> #[trigger] kept@[j].name@ != key@,
                same_lookups_except(kept@, es0.take(i as int), key@),
                entry_names(kept@) == entry_names(es0.take(i as int)).filter(other_name(key@)),
            decreases self.entries.len() - i,
        {
            let ghost k0 = kept@;
            let ghost t0 = es0.take(i as int);
            proof {
                assert(es0.take(i + 1) =~= t0.push(es0[i as int]));
                lemma_entry_index_push(t0, es0[i as int], key@, 0);
                assert(entry_names(t0.push(es0[i as int])) =~= entry_names(t0).push(es0[i as int].name@));
                entry_names(t0).lemma_filter_push(es0[i as int].name@, other_name(key@));
            }
            if str_eq(self.entries[i].name.as_str(), key) {
                removed = true;
                proof {
                    lemma_delete_skip(k0, t0, es0[i as int], key@);
                }
            } else {
                let c = self.entries[i].copy();
                kept.push(c);
                proof {
                    lemma_delete_keep(k0, t0, es0[i as int], c, key@);
                    assert(entry_names(kept@) =~= entry_names(k0).push(c.name@));
                }
            }
            i = i + 1;
        }
        assert(es0.take(es0.len() as int) =~= es0);
        proof {
            lemma_entry_index_some(kept@, key@);
        }
        proof {
            lemma_entry_index_some(es0, key@);
            if removed {
                let j = choose|j: int| 0 <= j < es0.len() && es0[j].name@ == key@;
                assert(entry_names(es0)[j] == key@);
            }
            if entry_names(es0).contains(key@) {
                let j = choose|j: int| 0 <= j < entry_names(es0).len() && entry_names(es0)[j] == key@;
                assert(es0[j].name@ == key@);
            }
        }
        self.entries = kept;
        proof {
            assert forall|k: Seq<char>| k != key@ implies #[trigger] self.secret(k) == old(self).secret(k) by {
                if let Some(mk) = self.master_key {
                    if let Some(a) = entry_index(self.entries@, k, 0) {
                        let b = entry_index(es0, k, 0)->0;
                        lemma_same_entry_decrypt(mk@, self.entries@[a], es0[b]);
                    }
                }
            }
        }
        removed
    }
}

/// The master key: derived from the passphrase when one is given
/// (the keychain is consulted by the caller before this).
pub fn get_master_key(passphrase: Option<&str>) -> (r: Result<Vec<u8>, VaultError>)
    ensures
        passphrase is None ==> r == Err::<Vec<u8>, VaultError>(VaultError::NoMasterKey),
        passphrase matches Some(p) ==> r matches Ok(k) && k@ == derived_key(p@) && k@.len() == MASTER_KEY_LEN,
{
    match passphrase {
        None => Err(VaultError::NoMasterKey),
        Some(p) => Ok(derive_key_from_passphrase(p)),
    }
}

/// The key PBKDF2-HMAC-SHA256 derives from a passphrase with the vault's salt and round count.
pub open spec fn derived_key(passphrase: Seq<char>) -> Seq<u8> {
    spec_pbkdf2_sha256(encode_utf8(passphrase), encode_utf8(PASSPHRASE_SALT@), PBKDF2_ITERATIONS, 32)
}

/// Derives the 32-byte master key from a passphrase (PBKDF2-HMAC-SHA256, fixed salt, 600000 rounds).
pub fn derive_key_from_passphrase(passphrase: &str) -> (r: Vec<u8>)
    ensures
        r@ == derived_key(passphrase@),
        r@.len() == 32,
{
    pbkdf2_sha256(passphrase.as_bytes(), PASSPHRASE_SALT.as_bytes(), PBKDF2_ITERATIONS, 32)
}

/// A fresh random 32-byte master key.
pub fn generate_random_key() -> (r: Vec<u8>)
    ensures
        r@.len() == MASTER_KEY_LEN,
{
    random_bytes(MASTER_KEY_LEN)
}

/// The secret name a placeholder body names: `vault:NAME`, with white space around
/// the body and around the name ignored.
pub open spec fn vault_key(inner: Seq<char>) -> Option<Seq<char>> {
    let t = trim(inner);
    if has_prefix(t, "vault:"@) {
        Some(trim(t.skip(6)))
    } else {
        None
    }
}

/// What the placeholder `placeholder`, whose body is `inner`, becomes: the value `f` gives
/// for the vault name, or the placeholder itself when it names no secret `f` knows.
pub open spec fn placeholder_value(
    inner: Seq<char>,
    placeholder: Seq<char>,
    f: spec_fn(Seq<char>) -> Option<Seq<char>>,
) -> Seq<char> {
    match vault_key(inner) {
        Some(k) => match f(k) {
            Some(v) => v,
            None => placeholder,
        },
        None => placeholder,
    }
}

/// Scans `s` left to right for `{{...}}` placeholders and replaces each vault placeholder
/// by what `f` gives for its name; placeholders for which `f` gives nothing, and the others,
/// stay. Scanning resumes after each placeholder, so inserted text is never scanned again.
pub open spec fn subst_vault(s: Seq<char>, f: spec_fn(Seq<char>) -> Option<Seq<char>>) -> Seq<char>
    decreases s.len(),
{
    match find(s, "{{"@) {
        None => s,
        Some(b) => match find_from(s, "}}"@, b) {
            None => s,
            Some(e) => if 0 <= b && b + 2 <= e && e + 2 <= s.len() {
                s.take(b) + placeholder_value(s.subrange(b + 2, e), s.subrange(b, e + 2), f)
                    + subst_vault(s.skip(e + 2), f)
            } else {
                s
            },
        },
    }
}

/// One step of the scan: the first `{{` at `b` and the first `}}` after it at `e` frame a
/// placeholder, which is replaced, and the scan goes on after it.
proof fn lemma_subst_step(
    s: Seq<char>,
    f: spec_fn(Seq<char>) -> Option<Seq<char>>,
    b: int,
    e: int,
)
    requires
        find(s, "{{"@) == Some(b),
        find_from(s, "}}"@, b) == Some(e),
    ensures
        0 <= b,
        b + 2 <= e,
        e + 2 <= s.len(),
        subst_vault(s, f) == s.take(b) + placeholder_value(
            s.subrange(b + 2, e),
            s.subrange(b, e + 2),
            f,
        ) + subst_vault(s.skip(e + 2), f),
{
    reveal_strlit("{{");
    reveal_strlit("}}");
    lemma_find_from_spec(s, "{{"@, 0);
    lemma_find_from_spec(s, "}}"@, b);
    let o = s.subrange(b, b + 2);
    let c = s.subrange(e, e + 2);
    assert(o[0] == s[b] && o[1] == s[b + 1]);
    assert(c[0] == s[e] && c[1] == s[e + 1]);
    assert("{{"@[0] == '{' && "{{"@[1] == '{');
    assert("}}"@[0] == '}' && "}}"@[1] == '}');
}

/// What a vault placeholder is replaced by when secrets are filled in: the secret, if any.
pub open spec fn secret_lookup<V: Vault>(vault: &V) -> spec_fn(Seq<char>) -> Option<Seq<char>> {
    |k: Seq<char>| vault.secret(k)
}

/// What a vault placeholder is replaced by when secrets are masked: always `***`.
pub open spec fn mask_lookup() -> spec_fn(Seq<char>) -> Option<Seq<char>> {
    |k: Seq<char>| Some(MASKED_VALUE@)
}

/// Scans `text` for placeholders; vault placeholders are masked when `mask` holds and
/// otherwise replaced by the secret from `vault` when it has one.
#[verifier::rlimit(40)]
fn subst_text<V: Vault>(text: &str, vault: &V, mask: bool) -> (r: String)
    ensures
        r@ == subst_vault(text@, if mask { mask_lookup() } else { secret_lookup(vault) }),
{
    let ghost f = if mask { mask_lookup() } else { secret_lookup(vault) };
    let v = chars_of(text);
    let open = chars_of("{{");
    let close = chars_of("}}");
    let prefix = chars_of("vault:");
    let mut out = String::new();
    let mut pos: usize = 0;
    assert(v@.skip(0) =~= v@);
    loop
        invariant
            pos <= v.len(),
            v@ == text@,
            f == (if mask { mask_lookup() } else { secret_lookup(vault) }),
            open@ == "{{"@,
            close@ == "}}"@,
            prefix@ == "vault:"@,
            subst_vault(v@, f) == out@ + subst_vault(v@.skip(pos as int), f),
        decreases v.len() - pos,
    {
        let ghost rest = v@.skip(pos as int);
        let ghost out0 = out@;
        proof {
            reveal_strlit("vault:");
            reveal_strlit("***");
            lemma_find_from_skip(v@, "{{"@, pos as int, 0);
        }
        let b = match find_from_exec(&v, &open, pos) {
            None => {
                push_chars_range(&mut out, &v, pos, v.len());
                assert(rest =~= v@.subrange(pos as int, v@.len() as int));
                return out;
            },
            Some(b) => b,
        };
        proof {
            lemma_find_from_spec(v@, "{{"@, pos as int);
            lemma_find_from_skip(v@, "}}"@, pos as int, b - pos);
        }
        let e = match find_from_exec(&v, &close, b) {
            None => {
                push_chars_range(&mut out, &v, pos, v.len());
                assert(rest =~= v@.subrange(pos as int, v@.len() as int));
                return out;
            },
            Some(e) => e,
        };
        proof {
            lemma_find_from_spec(v@, "}}"@, b as int);
            lemma_subst_step(rest, f, b - pos, e - pos);
            assert(rest.take(b - pos) =~= v@.subrange(pos as int, b as int));
            assert(rest.subrange(b - pos, e - pos + 2) =~= v@.subrange(b as int, e + 2));
            assert(rest.subrange(b - pos + 2, e - pos) =~= v@.subrange(b + 2, e as int));
            assert(rest.skip(e - pos + 2) =~= v@.skip(e + 2));
        }
        // the text before the placeholder is kept
        push_chars_range(&mut out, &v, pos, b);
        let ghost inner = v@.subrange(b + 2, e as int);
        let ghost placeholder = v@.subrange(b as int, e + 2);
        let (ta, tb) = trim_bounds(&v, b + 2, e);
        let is_vault = tb - ta >= 6 && range_eq(&v, ta, ta + 6, &prefix, 0, 6);
        proof {
            assert(prefix@.subrange(0, 6) =~= prefix@);
            let t = v@.subrange(ta as int, tb as int);
            if tb - ta >= 6 {
                assert(t.take(6) =~= v@.subrange(ta as int, ta + 6));
            }
            assert(is_vault == vault_key(inner) is Some);
        }
        let ghost out1 = out@;
        if is_vault {
            let (ka, kb) = trim_bounds(&v, ta + 6, tb);
            proof {
                let t = v@.subrange(ta as int, tb as int);
                assert(t.skip(6) =~= v@.subrange(ta + 6, tb as int));
                assert(vault_key(inner) == Some(v@.subrange(ka as int, kb as int)));
            }
            if mask {
                push_str(&mut out, MASKED_VALUE);
            } else {
                let key = string_of_range(&v, ka, kb);
                match vault.get(key.as_str()) {
                    Some(val) => {
                        push_str(&mut out, val.as_str());
                    },
                    None => {
                        push_chars_range(&mut out, &v, b, e + 2);
                    },
                }
            }
        } else {
            push_chars_range(&mut out, &v, b, e + 2);
        }
        proof {
            let repl = placeholder_value(inner, placeholder, f);
            assert(out@ == out1 + repl);
            assert(out1 == out0 + v@.subrange(pos as int, b as int));
            assert(subst_vault(v@, f) == out0 + (v@.subrange(pos as int, b as int) + repl
                + subst_vault(v@.skip(e + 2), f)));
            assert(out0 + (v@.subrange(pos as int, b as int) + repl + subst_vault(v@.skip(e + 2), f))
                =~= out@ + subst_vault(v@.skip(e + 2), f));
        }
        pos = e + 2;
    }
}

/// Appends `v[lo..hi]` to `s`.
fn push_chars_range(s: &mut String, v: &Vec<char>, lo: usize, hi: usize)
    requires
        lo <= hi <= v.len(),
    ensures
        final(s)@ == old(s)@ + v@.subrange(lo as int, hi as int),
{
    let t = string_of_range(v, lo, hi);
    push_str(s, t.as_str());
}

/// Replaces each `{{vault:name}}` (or `{{ vault:name }}`) placeholder by the secret the vault
/// holds under that name; placeholders of missing secrets and other `{{...}}` text stay.
pub fn replace_vault_variables_in_text<V: Vault>(text: &str, vault: &V) -> (r: String)
    ensures
        r@ == subst_vault(text@, secret_lookup(vault)),
{
    subst_text(text, vault, false)
}

/// Replaces every vault placeholder by `***`, whether the vault holds the secret or not.
pub fn mask_vault_values<V: Vault>(text: &str, vault: &V) -> (r: String)
    ensures
        r@ == subst_vault(text@, mask_lookup()),
{
    subst_text(text, vault, true)
}

/// Replaces each `{{vault:name}}` (or `{{ vault:name }}`) placeholder by the secret the vault
/// holds under that name; placeholders of unknown names and other `{{...}}` text are kept.
pub fn replace_vault_variables<V: Vault>(text: &str, vault: &V) -> (r: String)
    ensures
        r@ == subst_vault(text@, secret_lookup(vault)),
{
    replace_vault_variables_in_text(text, vault)
}

/// A value refers to the vault when, trimmed, it starts with `{{vault:` or `{{ vault:`.
pub open spec fn is_vault_ref(value: Seq<char>) -> bool {
    has_prefix(trim(value), "{{vault:"@) || has_prefix(trim(value), "{{ vault:"@)
}

/// Whether an environment value refers to the vault (such values are not exported).
pub fn is_vault_reference(value: &str) -> (r: bool)
    ensures
        r == is_vault_ref(value@),
{
    let t = str_trim(value);
    str_starts_with(t.as_str(), "{{vault:") || str_starts_with(t.as_str(), "{{ vault:")
}

/// Whether a secrets file of `n` bytes holds a sealed store: a nonce, a tag and at least one
/// byte of ciphertext. Shorter content reads as an empty vault.
pub open spec fn sealed_len_ok(n: nat) -> bool {
    n >= NONCE_LEN + TAG_LEN + 1
}

/// Whether the content of a secrets file is long enough to hold a sealed store.
pub fn is_sealed(data: &[u8]) -> (r: bool)
    ensures
        r == sealed_len_ok(data@.len()),
{
    data.len() >= NONCE_LEN + TAG_LEN + 1
}

/// The bytes `data[lo..hi]`.
fn byte_range(data: &[u8], lo: usize, hi: usize) -> (r: Vec<u8>)
    requires
        lo <= hi <= data@.len(),
    ensures
        r@ == data@.subrange(lo as int, hi as int),
{
    let mut r: Vec<u8> = Vec::new();
    let mut i: usize = lo;
    while i < hi
        invariant
            lo <= i <= hi,
            hi <= data@.len(),
            r@ == data@.subrange(lo as int, i as int),
        decreases hi - i,
    {
        r.push(data[i]);
        assert(data@.subrange(lo as int, i + 1) =~= data@.subrange(lo as int, i as int).push(data@[i as int]));
        i = i + 1;
    }
    r
}

/// What opening a sealed secrets file gives: the plaintext under the master key, the nonce
/// being the first 12 bytes and the ciphertext the rest.
pub open spec fn opened_secrets(data: Seq<u8>, key: Seq<u8>) -> Result<Seq<u8>, VaultError> {
    if key.len() != 32 {
        Err(VaultError::CipherInit)
    } else {
        match spec_aes_gcm_decrypt(key, data.take(NONCE_LEN as int), data.skip(NONCE_LEN as int)) {
            Some(p) => Ok(p),
            None => Err(VaultError::Decrypt),
        }
    }
}

/// The view of a byte result.
pub open spec fn bytes_result(r: Result<Vec<u8>, VaultError>) -> Result<Seq<u8>, VaultError> {
    match r {
        Ok(v) => Ok(v@),
        Err(e) => Err(e),
    }
}

/// Opens a sealed secrets file under the master key, giving the serialized store.
pub fn open_secrets(data: &[u8], key: &[u8]) -> (r: Result<Vec<u8>, VaultError>)
    requires
        sealed_len_ok(data@.len()),
    ensures
        bytes_result(r) == opened_secrets(data@, key@),
{
    let nonce = byte_range(data, 0, NONCE_LEN);
    let ciphertext = byte_range(data, NONCE_LEN, data.len());
    assert(nonce@ =~= data@.take(NONCE_LEN as int));
    assert(ciphertext@ =~= data@.skip(NONCE_LEN as int));
    if key.len() != MASTER_KEY_LEN {
        return Err(VaultError::CipherInit);
    }
    match aes_gcm_decrypt(key, nonce.as_slice(), ciphertext.as_slice()) {
        Some(p) => Ok(p),
        None => Err(VaultError::Decrypt),
    }
}

/// Seals a serialized store under the master key: a fresh nonce followed by the ciphertext
/// with its tag.
pub fn seal_secrets(plain: &[u8], key: &[u8]) -> (r: Result<Vec<u8>, VaultError>)
    ensures
        key@.len() != 32 ==> r == Err::<Vec<u8>, VaultError>(VaultError::CipherInit),
        key@.len() == 32 && r is Err ==> r == Err::<Vec<u8>, VaultError>(VaultError::Encrypt),
        key@.len() == 32 && plain@.len() <= AES_GCM_P_MAX ==> r is Ok,
        r matches Ok(s) ==> s@.len() == NONCE_LEN + plain@.len() + TAG_LEN
            && spec_aes_gcm_decrypt(key@, s@.take(NONCE_LEN as int), s@.skip(NONCE_LEN as int))
            == Some(plain@),
{
    if key.len() != MASTER_KEY_LEN {
        return Err(VaultError::CipherInit);
    }
    let nonce = random_nonce();
    match aes_gcm_encrypt(key, nonce.as_slice(), plain) {
        None => Err(VaultError::Encrypt),
        Some(ct) => {
            let mut out = nonce;
            let ghost n = out@;
            let mut i: usize = 0;
            while i < ct.len()
                invariant
                    i <= ct@.len(),
                    out@ == n + ct@.take(i as int),
                decreases ct.len() - i,
            {
                out.push(ct[i]);
                assert(ct@.take(i + 1) =~= ct@.take(i as int).push(ct@[i as int]));
                i = i + 1;
            }
            assert(ct@.take(ct@.len() as int) =~= ct@);
            assert(out@.take(NONCE_LEN as int) =~= n);
            assert(out@.skip(NONCE_LEN as int) =~= ct@);
            Ok(out)
        }
    }
}

/// A secrets file written by sealing a non-empty serialized store reads back as sealed and
/// opens, under the same master key, to exactly what was sealed.
pub proof fn law_sealed_secrets_reopen(key: Seq<u8>, plain: Seq<u8>, sealed: Seq<u8>)
    requires
        key.len() == 32,
        plain.len() >= 1,
        sealed.len() == NONCE_LEN + plain.len() + TAG_LEN,
        spec_aes_gcm_decrypt(key, sealed.take(NONCE_LEN as int), sealed.skip(NONCE_LEN as int))
            == Some(plain),
    ensures
        sealed_len_ok(sealed.len()),
        opened_secrets(sealed, key) == Ok::<Seq<u8>, VaultError>(plain),
{
}

} // verus!
