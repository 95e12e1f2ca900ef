//! Decoding of the fixed-size wide-character name buffers the OS hands back,
//! and the authentication-type policy that turns one profile's parsed
//! configuration document into a credential result.
use vstd::prelude::*;
use vstd::string::StringExecFns;
use crate::tree::TreeNode;
use crate::tree::spec_query;

verus! {

/// What `String::from_utf16_lossy` returns for the given code units; it
/// depends on the code units alone.
pub uninterp spec fn utf16_lossy_of(units: Seq<u16>) -> Seq<char>;

/// Relies on `String::from_utf16_lossy`: decodes UTF-16, replacing any
/// invalid data with the replacement character; no code units give no text.
#[verifier::external_body]
fn utf16_lossy(units: &[u16]) -> (r: String)
    ensures
        r@ == utf16_lossy_of(units@),
        units@.len() == 0 ==> r@.len() == 0,
{
    String::from_utf16_lossy(units)
}

/// Index of the first null code unit in `s`, or `s.len()` when there is none.
pub open spec fn null_index(s: Seq<u16>) -> int
    decreases s.len(),
{
    if s.len() == 0 {
        0
    } else if s[0] == 0 {
        0
    } else {
        1 + null_index(s.drop_first())
    }
}

proof fn lemma_null_index(s: Seq<u16>)
    ensures
        0 <= null_index(s) <= s.len(),
        null_index(s) < s.len() ==> s[null_index(s)] == 0,
        forall|k: int| 0 <= k < null_index(s) ==> #[trigger] s[k] != 0,
    decreases s.len(),
{
    if s.len() > 0 && s[0] != 0 {
        lemma_null_index(s.drop_first());
        assert(null_index(s) < s.len() ==> s[null_index(s)] == s.drop_first()[null_index(
            s.drop_first(),
        )]);
        assert forall|k: int| 0 <= k < null_index(s) implies #[trigger] s[k] != 0 by {
            if k > 0 {
                assert(s.drop_first()[k - 1] == s[k]);
            }
        }
    }
}

/// Decode one fixed-size wide-character buffer: take the code units before
/// the first null terminator. A buffer with no null terminator at all, or
/// with empty content (a terminator in first position), is a decode failure.
pub fn parse_utf16_slice(buf: &[u16]) -> (r: Option<String>)
    ensures
        r is None <==> (null_index(buf@) == buf@.len() || null_index(buf@) == 0),
        r matches Some(s) ==> s@ == utf16_lossy_of(buf@.take(null_index(buf@))),
{
    let n: usize = buf.len();
    let mut i: usize = 0;
    while i < n
        invariant
            n == buf@.len(),
            0 <= i <= n,
            forall|k: int| 0 <= k < i ==> #[trigger] buf@[k] != 0,
        decreases n - i,
    {
        if *vstd::slice::slice_index_get(buf, i) == 0 {
            proof {
                lemma_null_index(buf@);
            }
            assert(null_index(buf@) == i);
            if i == 0 {
                return None;
            }
            let mut prefix: Vec<u16> = Vec::new();
            let mut k: usize = 0;
            while k < i
                invariant
                    0 <= k <= i < buf@.len(),
                    prefix@ == buf@.take(k as int),
                decreases i - k,
            {
                prefix.push(*vstd::slice::slice_index_get(buf, k));
                proof {
                    assert(prefix@ =~= buf@.take(k + 1));
                }
                k += 1;
            }
            return Some(utf16_lossy(prefix.as_slice()));
        }
        i += 1;
    }
    proof {
        lemma_null_index(buf@);
    }
    assert(null_index(buf@) == buf@.len());
    None
}

/// How far credential retrieval got for one profile, and why it stopped
/// where it did.
#[derive(PartialEq, Eq, Structural, Clone, Copy, Debug)]
pub enum CredStatus {
    /// An open network: there is no password to recover.
    NoPassword,
    /// A supported authentication type with its key material disclosed.
    Supported,
    /// A supported authentication type whose key the policy did not disclose.
    KeyUnavailable,
    /// An authentication type this policy does not know how to retrieve.
    NotSupported,
}

/// Why one profile had to be skipped; the scan continues with the next.
#[derive(PartialEq, Eq, Structural, Clone, Copy, Debug)]
pub enum ProfileError {
    /// The profile name buffer could not be decoded.
    NameUndecodable,
    /// The configuration document could not be obtained.
    Unreadable,
    /// The configuration document could not be parsed.
    Malformed,
    /// The document carries no authentication node, so the profile cannot
    /// be classified.
    AuthTypeUnknown,
}

/// What was recovered from one profile.
pub struct CredentialResult {
    pub profile_name: String,
    pub auth_type: String,
    pub key_material: Option<String>,
    pub status: CredStatus,
}

/// The path to the authentication-type node of a configuration document.
pub open spec fn spec_auth_path() -> Seq<Seq<char>> {
    seq!["MSM"@, "security"@, "authEncryption"@, "authentication"@]
}

/// The path to the pre-shared key node of a configuration document.
pub open spec fn spec_key_path() -> Seq<Seq<char>> {
    seq!["MSM"@, "security"@, "sharedKey"@, "keyMaterial"@]
}

/// The authentication-type path, as a value `TreeNode::query` takes.
pub fn auth_path() -> (r: Vec<String>)
    ensures
        r.deep_view() == spec_auth_path(),
{
    let mut v: Vec<String> = Vec::new();
    v.push(String::from_str("MSM"));
    v.push(String::from_str("security"));
    v.push(String::from_str("authEncryption"));
    v.push(String::from_str("authentication"));
    proof {
        assert(v.deep_view() =~= spec_auth_path());
    }
    v
}

/// The key-material path, as a value `TreeNode::query` takes.
pub fn key_path() -> (r: Vec<String>)
    ensures
        r.deep_view() == spec_key_path(),
{
    let mut v: Vec<String> = Vec::new();
    v.push(String::from_str("MSM"));
    v.push(String::from_str("security"));
    v.push(String::from_str("sharedKey"));
    v.push(String::from_str("keyMaterial"));
    proof {
        assert(v.deep_view() =~= spec_key_path());
    }
    v
}

/// The three-way authentication-type policy applied to one parsed document.
///
/// A missing authentication node makes the profile unclassifiable. An `open`
/// network never carries key material. For `WPA2` and `WPA2PSK` the key is
/// reproduced verbatim when its node is present; its absence is a degraded
/// success, not an error. Every other authentication type degrades to
/// "retrieval not supported", again with no key material.
pub fn extract_credentials(profile_name: String, root: &TreeNode) -> (r: Result<
    CredentialResult,
    ProfileError,
>)
    ensures
        spec_query(*root, spec_auth_path()) is None <==> r == Err::<
            CredentialResult,
            ProfileError,
        >(ProfileError::AuthTypeUnknown),
        spec_query(*root, spec_auth_path()) matches Some(a) ==> {
            &&& r is Ok
            &&& r->Ok_0.profile_name == profile_name
            &&& r->Ok_0.auth_type@ == a
            &&& (a == "open"@ ==> r->Ok_0.key_material is None && r->Ok_0.status
                == CredStatus::NoPassword)
            &&& ((a == "WPA2"@ || a == "WPA2PSK"@) ==> match spec_query(
                *root,
                spec_key_path(),
            ) {
                Some(k) => r->Ok_0.key_material matches Some(km) && km@ == k
                    && r->Ok_0.status == CredStatus::Supported,
                None => r->Ok_0.key_material is None && r->Ok_0.status
                    == CredStatus::KeyUnavailable,
            })
            &&& (!(a == "open"@ || a == "WPA2"@ || a == "WPA2PSK"@)
                ==> r->Ok_0.key_material is None && r->Ok_0.status == CredStatus::NotSupported)
        },
{
    proof {
        reveal_strlit("open");
        reveal_strlit("WPA2");
        reveal_strlit("WPA2PSK");
        assert("open"@[0] != "WPA2"@[0]);
        assert("open"@[0] != "WPA2PSK"@[0]);
    }
    let auth = match root.query(&auth_path()) {
        None => {
            return Err(ProfileError::AuthTypeUnknown);
        },
        Some(a) => a,
    };
    if auth == String::from_str("open") {
        Ok(CredentialResult {
            profile_name,
            auth_type: auth,
            key_material: None,
            status: CredStatus::NoPassword,
        })
    } else if auth == String::from_str("WPA2") || auth == String::from_str("WPA2PSK") {
        match root.query(&key_path()) {
            Some(key) => Ok(CredentialResult {
                profile_name,
                auth_type: auth,
                key_material: Some(key),
                status: CredStatus::Supported,
            }),
            None => Ok(CredentialResult {
                profile_name,
                auth_type: auth,
                key_material: None,
                status: CredStatus::KeyUnavailable,
            }),
        }
    } else {
        Ok(CredentialResult {
            profile_name,
            auth_type: auth,
            key_material: None,
            status: CredStatus::NotSupported,
        })
    }
}

} // verus!
