//! The encrypted secret files used when the OS keyring is unavailable: the
//! machine-bound key, the stored form of a secret, and whether a stored
//! file holds a readable secret.

use vstd::prelude::*;
use vstd::string::StringSliceAdditionalSpecFns;
use aes_gcm::aead::{Aead, KeyInit};
use crate::digest::{sha256, sha256_of};
use crate::integration_domain::IntegrationCommandError;

verus! {

/// The salt that binds the file key to this application.
pub open spec fn machine_key_salt() -> Seq<char> {
    "autolycus-integrations-encrypted-file-store-v1"@
}

/// The most plaintext bytes AES-GCM encrypts at once.
pub const PLAINTEXT_MAX: u64 = 0x10_0000_0000;

/// Names the AES-256-GCM encryption (ciphertext followed by the tag) of a
/// plaintext under a 32-byte key and a 12-byte nonce, without associated
/// data.
pub uninterp spec fn aes256gcm_seal(key: Seq<u8>, nonce: Seq<u8>, plaintext: Seq<u8>) -> Seq<u8>;

/// Names the AES-256-GCM decryption of a ciphertext with its tag: the
/// plaintext when the tag is authentic, else nothing.
pub uninterp spec fn aes256gcm_open(key: Seq<u8>, nonce: Seq<u8>, ciphertext: Seq<u8>) -> Option<Seq<u8>>;

/// `Aes256Gcm::encrypt`: the ciphertext of the plaintext with its 16-byte
/// tag appended; it fails only for a plaintext longer than
/// `PLAINTEXT_MAX` bytes.
#[verifier::external_body]
fn seal(key: &[u8], nonce: &[u8], plaintext: &[u8]) -> (r: Option<Vec<u8>>)
    requires
        key@.len() == 32,
        nonce@.len() == 12,
    ensures
        match r {
            Some(c) => plaintext@.len() <= PLAINTEXT_MAX && c@ == aes256gcm_seal(key@, nonce@, plaintext@)
                && c@.len() == plaintext@.len() + 16,
            None => plaintext@.len() > PLAINTEXT_MAX,
        },
{
    let cipher = aes_gcm::Aes256Gcm::new_from_slice(key).ok()?;
    cipher.encrypt(aes_gcm::Nonce::from_slice(nonce), plaintext).ok()
}

/// `Aes256Gcm::decrypt`: the plaintext when the tag authenticates the
/// ciphertext under the key and nonce; a ciphertext sealed with the same
/// key and nonce opens to its plaintext.
#[verifier::external_body]
fn open(key: &[u8], nonce: &[u8], ciphertext: &[u8]) -> (r: Option<Vec<u8>>)
    requires
        key@.len() == 32,
        nonce@.len() == 12,
    ensures
        match r {
            Some(p) => aes256gcm_open(key@, nonce@, ciphertext@) == Some(p@),
            None => aes256gcm_open(key@, nonce@, ciphertext@) is None,
        },
        forall|p: Seq<u8>|
            p.len() <= PLAINTEXT_MAX && ciphertext@ == #[trigger] aes256gcm_seal(key@, nonce@, p) ==> (r is Some && r->Some_0@ == p),
{
    let cipher = aes_gcm::Aes256Gcm::new_from_slice(key).ok()?;
    cipher.decrypt(aes_gcm::Nonce::from_slice(nonce), ciphertext).ok()
}

/// The file key of a machine: the SHA-256 digest of its identifier's UTF-8
/// bytes followed by the application salt's.
pub fn machine_key(machine_id: &str) -> (r: Vec<u8>)
    ensures
        r@ == sha256_of(vstd::utf8::encode_utf8(machine_id@) + vstd::utf8::encode_utf8(machine_key_salt())),
        r@.len() == 32,
{
    let salt = "autolycus-integrations-encrypted-file-store-v1";
    let mut data: Vec<u8> = Vec::new();
    let a = machine_id.as_bytes();
    let b = salt.as_bytes();
    let mut i: usize = 0;
    while i < a.len()
        invariant
            i <= a@.len(),
            data@ == a@.take(i as int),
        decreases a@.len() - i,
    {
        data.push(a[i]);
        i = i + 1;
        assert(data@ =~= a@.take(i as int));
    }
    let mut j: usize = 0;
    while j < b.len()
        invariant
            j <= b@.len(),
            i == a@.len(),
            data@ == a@ + b@.take(j as int),
        decreases b@.len() - j,
    {
        data.push(b[j]);
        j = j + 1;
        assert(data@ =~= a@ + b@.take(j as int));
    }
    assert(a@.take(a@.len() as int) =~= a@);
    assert(b@.take(b@.len() as int) =~= b@);
    proof {
        assert(a@ == machine_id.spec_bytes());
        assert(machine_id.spec_bytes() =~= vstd::utf8::encode_utf8(machine_id@));
        assert(salt.spec_bytes() =~= vstd::utf8::encode_utf8(salt@));
    }
    sha256(data.as_slice())
}

/// The stored form of a secret: the nonce (the first 12 bytes of the
/// random nonce source) followed by the sealed UTF-8 bytes of the value;
/// the store is unavailable when the value cannot be sealed.
pub fn seal_secret(key: &Vec<u8>, nonce_source: &[u8; 16], value: &str) -> (r: Result<Vec<u8>, IntegrationCommandError>)
    requires
        key@.len() == 32,
    ensures
        match r {
            Ok(stored) => stored@ == nonce_source@.take(12) + aes256gcm_seal(
                key@,
                nonce_source@.take(12),
                vstd::utf8::encode_utf8(value@),
            ) && vstd::utf8::encode_utf8(value@).len() <= PLAINTEXT_MAX
                && stored@.len() == 12 + vstd::utf8::encode_utf8(value@).len() + 16,
            Err(e) => e == IntegrationCommandError::SecretStoreUnavailable && vstd::utf8::encode_utf8(value@).len() > PLAINTEXT_MAX,
        },
{
    let mut nonce: Vec<u8> = Vec::new();
    let mut i: usize = 0;
    while i < 12
        invariant
            i <= 12,
            nonce@ == nonce_source@.take(i as int),
        decreases 12 - i,
    {
        nonce.push(nonce_source[i]);
        i = i + 1;
        assert(nonce@ =~= nonce_source@.take(i as int));
    }
    let pt = value.as_bytes();
    proof {
        assert(value.spec_bytes() =~= vstd::utf8::encode_utf8(value@));
    }
    match seal(key.as_slice(), nonce.as_slice(), pt) {
        Some(ct) => {
            let mut stored = nonce;
            let mut j: usize = 0;
            let ghost n = stored@;
            while j < ct.len()
                invariant
                    j <= ct@.len(),
                    stored@ == n + ct@.take(j as int),
                decreases ct@.len() - j,
            {
                stored.push(ct[j]);
                j = j + 1;
                assert(stored@ =~= n + ct@.take(j as int));
            }
            assert(ct@.take(ct@.len() as int) =~= ct@);
            Ok(stored)
        },
        None => Err(IntegrationCommandError::SecretStoreUnavailable),
    }
}

/// Whether a stored secret file is readable under the key: one of 12
/// bytes or fewer, or one whose sealed part does not open, makes the store
/// unavailable.
pub open spec fn stored_secret_ok(key: Seq<u8>, stored: Seq<u8>) -> bool {
    stored.len() > 12 && aes256gcm_open(key, stored.take(12), stored.skip(12)) is Some
}

/// Whether a stored secret file holds a readable secret (see
/// `stored_secret_ok`); a secret stored by `seal_secret` under the same
/// key always is.
pub fn secret_present(key: &Vec<u8>, stored: &Vec<u8>) -> (r: Result<bool, IntegrationCommandError>)
    requires
        key@.len() == 32,
    ensures
        stored_secret_ok(key@, stored@) ==> r == Ok::<bool, IntegrationCommandError>(true),
        !stored_secret_ok(key@, stored@) ==> r == Err::<bool, IntegrationCommandError>(IntegrationCommandError::SecretStoreUnavailable),
        forall|n: Seq<u8>, p: Seq<u8>|
            n.len() == 12 && p.len() <= PLAINTEXT_MAX && stored@.len() > 12 && stored@ == n + #[trigger] aes256gcm_seal(key@, n, p)
                ==> r == Ok::<bool, IntegrationCommandError>(true),
{
    if stored.len() <= 12 {
        return Err(IntegrationCommandError::SecretStoreUnavailable);
    }
    let nonce = crate::digest::byte_range(stored.as_slice(), 0, 12);
    let ct = crate::digest::byte_range(stored.as_slice(), 12, stored.len());
    assert(nonce@ =~= stored@.take(12));
    assert(ct@ =~= stored@.skip(12));
    match open(key.as_slice(), nonce.as_slice(), ct.as_slice()) {
        Some(_) => Ok(true),
        None => {
            proof {
                assert forall|n: Seq<u8>, p: Seq<u8>|
                    n.len() == 12 && p.len() <= PLAINTEXT_MAX && stored@.len() > 12 && stored@ == n + #[trigger] aes256gcm_seal(key@, n, p) implies false by {
                    assert(stored@.take(12) =~= n);
                    assert(stored@.skip(12) =~= aes256gcm_seal(key@, n, p));
                }
            }
            Err(IntegrationCommandError::SecretStoreUnavailable)
        },
    }
}

/// The identifier of this machine: the Windows machine GUID, else the
/// trimmed contents of `/etc/machine-id` on Linux, else `COMPUTERNAME`,
/// else `HOSTNAME`, else `unknown-machine`. Each argument is what the
/// platform gave, when it gave anything.
pub fn machine_identifier(
    machine_guid: Option<String>,
    machine_id_file: Option<String>,
    computer_name: Option<String>,
    host_name: Option<String>,
) -> (r: String)
    ensures
        r@ == (match machine_guid {
            Some(g) => g@,
            None => match machine_id_file {
                Some(f) => crate::text::trim(f@),
                None => match computer_name {
                    Some(c) => c@,
                    None => match host_name {
                        Some(h) => h@,
                        None => "unknown-machine"@,
                    },
                },
            },
        }),
{
    match machine_guid {
        Some(g) => g,
        None => match machine_id_file {
            Some(f) => {
                let t = crate::text::trim_chars(&crate::text::chars_of(f.as_str()));
                crate::text::string_from_chars(t.as_slice())
            },
            None => match computer_name {
                Some(c) => c,
                None => match host_name {
                    Some(h) => h,
                    None => "unknown-machine".to_owned(),
                },
            },
        },
    }
}

} // verus!
