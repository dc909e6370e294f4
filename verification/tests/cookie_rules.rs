use aes_gcm::aead::{Aead, KeyInit};
use base64::Engine;
use cbc::cipher::{block_padding::Pkcs7, BlockEncryptMut, KeyIvInit};
use sitescrape::cookies::{
    browser_for_prog_id, chrome_cookies, chrome_row_cookie, check_aes_key, chrome_cookie, chrome_expiry, choose_profile, cookie_header, cookie_site,
    cookie_url, decrypt_cookie, decrypt_value, derive_key, detect_from_listing, dpapi_blob, encrypted_key_blob,
    extract_plist_value, firefox_cookie, map_samesite, match_browser, normalize_expiry, prog_id_from_registry,
    validate_profile_name, wide, zeroize, Browser, ProfileChoice, SameSite,
};

#[test]
fn firefox_expiries() {
    assert_eq!(normalize_expiry(0), -1);
    assert_eq!(normalize_expiry(-7), -1);
    assert_eq!(normalize_expiry(1_700_000_000), 1_700_000_000);
    assert_eq!(normalize_expiry(32_503_680_000), 32_503_680_000);
    assert_eq!(normalize_expiry(1_700_000_000_123), 1_700_000_000);
}

#[test]
fn chrome_expiries() {
    assert_eq!(chrome_expiry(0), -1);
    assert_eq!(chrome_expiry(-1), -1);
    assert_eq!(chrome_expiry(13_300_000_000_000_000), 1_655_526_400);
}

#[test]
fn same_site_codes() {
    assert_eq!(map_samesite(1), SameSite::Lax);
    assert_eq!(map_samesite(2), SameSite::Strict);
    assert_eq!(map_samesite(0), SameSite::Unrestricted);
    assert_eq!(map_samesite(-1), SameSite::Unrestricted);
}

#[test]
fn cookie_rows() {
    let f = firefox_cookie(
        "sid".to_string(),
        "abc".to_string(),
        ".example.com".to_string(),
        "/".to_string(),
        1_700_000_000_000,
        1,
        0,
        2,
    );
    assert_eq!(f.domain, ".example.com");
    assert_eq!(f.expires, 1_700_000_000);
    assert!(f.secure);
    assert!(!f.http_only);
    assert_eq!(f.same_site, SameSite::Strict);
    let c = chrome_cookie("n".to_string(), "v".to_string(), "x.com".to_string(), "/p".to_string(), 0, 0, 1, 1);
    assert_eq!(c.expires, -1);
    assert!(!c.secure);
    assert!(c.http_only);
    assert_eq!(c.same_site, SameSite::Lax);
    assert_eq!(cookie_site(&f), "https://example.com");
    assert_eq!(cookie_url(&c), "https://x.com/p");
    assert_eq!(cookie_header(&f), "sid=abc; Domain=.example.com; Path=/");
}

#[test]
fn profile_names() {
    assert_eq!(validate_profile_name("Default"), Ok(()));
    assert_eq!(validate_profile_name("Profile 1"), Ok(()));
    assert_eq!(validate_profile_name(""), Ok(()));
    for bad in ["a/b", "a\\b", "..", "x..y", "nul\0"] {
        assert_eq!(validate_profile_name(bad), Err("Invalid profile name".to_string()));
    }
}

#[test]
fn firefox_profile_choice() {
    let entries = vec![
        ("abc.default".to_string(), true),
        ("file.default-release".to_string(), false),
        ("xyz.default-release".to_string(), true),
        ("zzz.default-release".to_string(), true),
    ];
    assert_eq!(choose_profile(&entries, true), Ok(ProfileChoice::Entry(2)));
    assert_eq!(choose_profile(&entries[..2], true), Ok(ProfileChoice::Default));
    assert_eq!(choose_profile(&entries[..2], false), Err("No Firefox profile found".to_string()));
    assert_eq!(choose_profile(&[], false), Err("No Firefox profile found".to_string()));
}

#[test]
fn plist_values() {
    assert_eq!(extract_plist_value("LSHandlerURLScheme = https;", "LSHandlerURLScheme"), Some("https".to_string()));
    assert_eq!(
        extract_plist_value("LSHandlerRoleAll = \"com.google.chrome\";", "LSHandlerRoleAll"),
        Some("com.google.chrome".to_string())
    );
    assert_eq!(extract_plist_value("Other = x;", "LSHandlerRoleAll"), None);
    assert_eq!(extract_plist_value("LSHandlerRoleAll", "LSHandlerRoleAll"), None);
}

#[test]
fn handler_roles() {
    assert_eq!(match_browser("COM.GOOGLE.CHROME"), Some(Browser::Chrome));
    assert_eq!(match_browser("org.mozilla.firefox"), Some(Browser::Firefox));
    assert_eq!(match_browser("com.apple.safari"), None);
}

#[test]
fn default_browser_from_launch_services() {
    let listing = "(\n    {\n        LSHandlerPreferredVersions =         {\n            LSHandlerRoleAll = \"-\";\n        };\n        LSHandlerRoleAll = \"com.google.chrome\";\n        LSHandlerURLScheme = http;\n    },\n    {\n        LSHandlerRoleAll = \"org.mozilla.firefox\";\n        LSHandlerURLScheme = https;\n    }\n)\n";
    assert_eq!(detect_from_listing(listing), Some(Browser::Firefox));
    let other = "(\n    {\n        LSHandlerRoleAll = \"com.apple.safari\";\n        LSHandlerURLScheme = https;\n    }\n)\n";
    assert_eq!(detect_from_listing(other), None);
    assert_eq!(detect_from_listing(""), None);
    let nested = "(\n    {\n        LSHandlerRoleAll = \"org.mozilla.firefox\";\n        LSHandlerPreferredVersions =         {\n            LSHandlerRoleAll = \"com.google.chrome\";\n        };\n        LSHandlerURLScheme = https;\n    }\n)\n";
    assert_eq!(detect_from_listing(nested), Some(Browser::Firefox));
}

#[test]
fn windows_handler_ids() {
    assert_eq!(browser_for_prog_id("ChromeHTML"), Some(Browser::Chrome));
    assert_eq!(browser_for_prog_id("FirefoxURL-308046B0AF4A39CB"), Some(Browser::Firefox));
    assert_eq!(browser_for_prog_id("MSEdgeHTM"), None);
    assert_eq!(wide("ab"), vec![97u16, 98, 0]);
    assert_eq!(wide("€"), vec![0x20ACu16, 0]);
    assert_eq!(wide("😀"), vec![0xD83Du16, 0xDE00, 0]);
    let bytes: Vec<u8> = "ChromeHTML\0".encode_utf16().flat_map(|u| u.to_le_bytes()).collect();
    assert_eq!(prog_id_from_registry(&bytes), "ChromeHTML");
    let mut odd = bytes.clone();
    odd.push(0x41);
    assert_eq!(prog_id_from_registry(&odd), "ChromeHTML");
}

#[test]
fn mac_cookie_values() {
    let key = derive_key(b"peanuts");
    let mut expected = [0u8; 16];
    pbkdf2::pbkdf2_hmac::<sha1::Sha1>(b"peanuts", b"saltysalt", 1003, &mut expected);
    assert_eq!(key, expected.to_vec());
    let iv = [0x20u8; 16];
    let msg = b"session=42";
    let mut buf = [0u8; 32];
    buf[..msg.len()].copy_from_slice(msg);
    let ct = cbc::Encryptor::<aes::Aes128>::new_from_slices(&key, &iv)
        .unwrap()
        .encrypt_padded_mut::<Pkcs7>(&mut buf, msg.len())
        .unwrap()
        .to_vec();
    let mut stored = b"v10".to_vec();
    stored.extend_from_slice(&ct);
    assert_eq!(decrypt_value(&stored, &key), Ok("session=42".to_string()));
    stored[1] = b'1';
    stored[2] = b'1';
    assert_eq!(decrypt_value(&stored, &key), Ok("session=42".to_string()));
    assert_eq!(decrypt_value(b"v10", &key), Ok(String::new()));
    assert_eq!(decrypt_value(b"plain", &key), Ok("plain".to_string()));
    assert_eq!(decrypt_value(b"v10abc", &key), Err("Decryption failed".to_string()));
}

#[test]
fn windows_cookie_values() {
    let key = [7u8; 32];
    let nonce = [1u8; 12];
    let cipher = aes_gcm::Aes256Gcm::new(aes_gcm::Key::<aes_gcm::Aes256Gcm>::from_slice(&key));
    let ct = cipher.encrypt(aes_gcm::Nonce::from_slice(&nonce), b"token".as_ref()).unwrap();
    let mut stored = b"v10".to_vec();
    stored.extend_from_slice(&nonce);
    stored.extend_from_slice(&ct);
    assert_eq!(decrypt_cookie(&key, &stored), Ok("token".to_string()));
    stored[1] = b'2';
    assert_eq!(decrypt_cookie(&key, &stored), Ok("token".to_string()));
    let last = stored.len() - 1;
    stored[last] ^= 1;
    assert_eq!(decrypt_cookie(&key, &stored), Err("AES-GCM decryption failed".to_string()));
    assert_eq!(decrypt_cookie(&key, b"short"), Ok(String::new()));
    assert_eq!(decrypt_cookie(&key, b"plain text value"), Ok("plain text value".to_string()));
}

#[test]
fn local_state_key() {
    let b64 = base64::engine::general_purpose::STANDARD.encode(b"DPAPIsecret");
    let text = format!("{{\"os_crypt\":{{\"encrypted_key\":\"{}\"}}}}", b64);
    assert_eq!(encrypted_key_blob(&text), Ok(b"secret".to_vec()));
    let bad = base64::engine::general_purpose::STANDARD.encode(b"XXXXXsecret");
    let text = format!("{{\"os_crypt\":{{\"encrypted_key\":\"{}\"}}}}", bad);
    assert_eq!(encrypted_key_blob(&text), Err("Unexpected encrypted_key format".to_string()));
    assert_eq!(
        encrypted_key_blob("{\"os_crypt\":{}}"),
        Err("os_crypt.encrypted_key not found".to_string())
    );
    assert!(encrypted_key_blob("not json").is_err());
    assert!(encrypted_key_blob("{\"os_crypt\":{\"encrypted_key\":\"***\"}}").is_err());
    assert_eq!(dpapi_blob(b"DPAPI"), Ok(vec![]));
    assert_eq!(dpapi_blob(b"DPAP"), Err("Unexpected encrypted_key format".to_string()));
}

#[test]
fn aes_key_size() {
    assert_eq!(check_aes_key(vec![3u8; 32]), Ok(vec![3u8; 32]));
    assert_eq!(check_aes_key(vec![3u8; 16]), Err("Expected 32-byte AES key, got 16".to_string()));
    let mut k = vec![9u8; 5];
    zeroize(&mut k);
    assert_eq!(k, vec![0u8; 5]);
}

#[test]
fn chrome_rows_that_do_not_decrypt_are_skipped() {
    let c = chrome_row_cookie("n".to_string(), Ok("v".to_string()), "x.com".to_string(), "/".to_string(), 0, 1, 0, 2)
        .unwrap();
    assert_eq!(c.value, "v");
    assert!(c.secure);
    assert_eq!(c.same_site, SameSite::Strict);
    assert!(chrome_row_cookie("n".to_string(), Err("bad".to_string()), "x".to_string(), "/".to_string(), 0, 0, 0, 0)
        .is_none());
}

#[test]
fn chrome_rows_keep_their_order_and_count_the_skipped() {
    let row = |n: &str, v: Result<String, String>| (n.to_string(), v, "x.com".to_string(), "/".to_string(), 0i64, 0, 0, 0);
    let rows = vec![
        row("a", Ok("1".to_string())),
        row("b", Err("bad".to_string())),
        row("c", Ok("3".to_string())),
        row("d", Err("bad".to_string())),
    ];
    let (cookies, skipped) = chrome_cookies(rows);
    assert_eq!(skipped, 2);
    let names: Vec<&str> = cookies.iter().map(|c| c.name.as_str()).collect();
    assert_eq!(names, vec!["a", "c"]);
    assert_eq!(cookies[1].value, "3");
}
