use wlanscan::creds::{extract_credentials, parse_utf16_slice, CredStatus, ProfileError};
use wlanscan::tree::TreeNode;

fn leaf(name: &str, text: &str) -> TreeNode {
    TreeNode { name: name.to_string(), text: text.to_string(), children: Vec::new() }
}

fn node(name: &str, children: Vec<TreeNode>) -> TreeNode {
    TreeNode { name: name.to_string(), text: String::new(), children }
}

fn profile_tree(auth: &str, key: Option<&str>) -> TreeNode {
    let mut security = vec![node("authEncryption", vec![leaf("authentication", auth)])];
    if let Some(k) = key {
        security.push(node("sharedKey", vec![leaf("keyMaterial", k)]));
    }
    node("WLANProfile", vec![node("MSM", vec![node("security", security)])])
}

#[test]
fn open_network_has_no_password() {
    let root = profile_tree("open", None);
    let r = extract_credentials("home".to_string(), &root).unwrap();
    assert_eq!(r.profile_name, "home");
    assert_eq!(r.auth_type, "open");
    assert_eq!(r.key_material, None);
    assert_eq!(r.status, CredStatus::NoPassword);
}

#[test]
fn open_network_ignores_key_material_in_tree() {
    // Even with a sharedKey branch present, an open network yields no key.
    let root = profile_tree("open", Some("ignored"));
    let r = extract_credentials("home".to_string(), &root).unwrap();
    assert_eq!(r.key_material, None);
    assert_eq!(r.status, CredStatus::NoPassword);
}

#[test]
fn wpa2psk_key_reproduced_verbatim() {
    let root = profile_tree("WPA2PSK", Some("hunter2"));
    let r = extract_credentials("home".to_string(), &root).unwrap();
    assert_eq!(r.auth_type, "WPA2PSK");
    assert_eq!(r.key_material, Some("hunter2".to_string()));
    assert_eq!(r.status, CredStatus::Supported);
}

#[test]
fn wpa2_key_reproduced_verbatim() {
    let root = profile_tree("WPA2", Some(" sp aces !@#$%^&*()"));
    let r = extract_credentials("office".to_string(), &root).unwrap();
    assert_eq!(r.auth_type, "WPA2");
    assert_eq!(r.key_material, Some(" sp aces !@#$%^&*()".to_string()));
    assert_eq!(r.status, CredStatus::Supported);
}

#[test]
fn wpa2psk_without_shared_key_degrades_to_key_unavailable() {
    let root = profile_tree("WPA2PSK", None);
    let r = extract_credentials("home".to_string(), &root).unwrap();
    assert_eq!(r.auth_type, "WPA2PSK");
    assert_eq!(r.key_material, None);
    assert_eq!(r.status, CredStatus::KeyUnavailable);
}

#[test]
fn unknown_auth_type_is_not_supported() {
    let root = profile_tree("WEP", Some("13375p33d"));
    let r = extract_credentials("legacy".to_string(), &root).unwrap();
    assert_eq!(r.auth_type, "WEP");
    assert_eq!(r.key_material, None);
    assert_eq!(r.status, CredStatus::NotSupported);
}

#[test]
fn missing_authentication_node_is_profile_error() {
    let root = node("WLANProfile", vec![node("MSM", vec![node("security", vec![])])]);
    let r = extract_credentials("odd".to_string(), &root);
    assert!(matches!(r, Err(ProfileError::AuthTypeUnknown)));
}

#[test]
fn empty_authentication_text_is_classified_not_skipped() {
    // An authentication node with empty text is present, hence no error;
    // the empty type falls under the default arm of the policy.
    let root = profile_tree("", None);
    let r = extract_credentials("odd".to_string(), &root).unwrap();
    assert_eq!(r.auth_type, "");
    assert_eq!(r.status, CredStatus::NotSupported);
}

#[test]
fn parse_utf16_slice_reads_up_to_terminator() {
    let buf: Vec<u16> = vec![104, 111, 109, 101, 0, 88, 88];
    assert_eq!(parse_utf16_slice(&buf), Some("home".to_string()));
}

#[test]
fn parse_utf16_slice_decodes_non_ascii() {
    // One euro sign (U+20AC) followed by the terminator: real UTF-16
    // decoding, not a copy of the code units.
    let buf: Vec<u16> = vec![0x20AC, 0];
    assert_eq!(parse_utf16_slice(&buf), Some("\u{20AC}".to_string()));
}

#[test]
fn parse_utf16_slice_without_terminator_fails() {
    let buf: Vec<u16> = vec![104, 111, 109, 101];
    assert_eq!(parse_utf16_slice(&buf), None);
}

#[test]
fn parse_utf16_slice_empty_content_fails() {
    assert_eq!(parse_utf16_slice(&[0, 104, 111]), None);
    assert_eq!(parse_utf16_slice(&[]), None);
}
