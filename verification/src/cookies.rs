//! Browser cookies: the record the scraper carries, and the rules for reading
//! the browsers' cookie stores and for telling which browser is the default.
use vstd::prelude::*;
use aes_gcm::aead::{Aead, KeyInit};
use base64::Engine;
use cbc::cipher::{block_padding::Pkcs7, BlockDecryptMut, KeyIvInit};
use crate::text::{
    append_str, chars_eq, ends_with, chars_of, contains, contains_char, contains_chars, has_prefix, is_ws,
    lower_chars, split_char, split_on, starts_with, lower_text, string_from, trim, trimmed, views,
};

verus! {

/// How a cookie restricts cross-site requests.
#[derive(Debug, Clone, Copy, PartialEq, Eq, Structural)]
pub enum SameSite {
    /// `SameSite=None`: sent with cross-site requests too.
    Unrestricted,
    Lax,
    Strict,
}

/// A browser whose cookies can be read.
#[derive(Debug, Clone, Copy, PartialEq, Eq, Structural)]
pub enum Browser {
    Firefox,
    Chrome,
}

/// A cookie read from a browser's store.
#[derive(Debug, Clone)]
pub struct Cookie {
    pub name: String,
    pub value: String,
    pub domain: String,
    pub path: String,
    /// Expiry in whole seconds since the Unix epoch, `-1` for a session cookie.
    pub expires: i64,
    pub http_only: bool,
    pub secure: bool,
    pub same_site: SameSite,
}

/// The same-site policy a browser's numeric code stands for.
pub open spec fn samesite_of(val: i32) -> SameSite {
    if val == 1 {
        SameSite::Lax
    } else if val == 2 {
        SameSite::Strict
    } else {
        SameSite::Unrestricted
    }
}

/// Maps the browser's numeric same-site code to its policy.
pub fn map_samesite(val: i32) -> (r: SameSite)
    ensures
        r == samesite_of(val),
{
    match val {
        1 => SameSite::Lax,
        2 => SameSite::Strict,
        _ => SameSite::Unrestricted,
    }
}

/// Firefox expiries beyond this are in milliseconds.
pub const MAX_EXPIRY_MS: i64 = 32503680000;

/// Seconds between 1601-01-01 (Chrome's epoch) and 1970-01-01.
pub const CHROME_EPOCH_OFFSET: i64 = 11644473600;

/// A Firefox expiry in seconds: millisecond values are divided down, non-positive ones mean
/// a session cookie (`-1`).
pub open spec fn firefox_expiry(e: i64) -> i64 {
    if e > MAX_EXPIRY_MS {
        (e / 1000) as i64
    } else if e <= 0 {
        -1i64
    } else {
        e
    }
}

/// Converts a Firefox `moz_cookies.expiry` to seconds since the Unix epoch.
pub fn normalize_expiry(expiry: i64) -> (r: i64)
    ensures
        r == firefox_expiry(expiry),
{
    if expiry > MAX_EXPIRY_MS {
        expiry / 1000
    } else if expiry <= 0 {
        -1
    } else {
        expiry
    }
}

/// A Chrome expiry (microseconds since 1601) in seconds since 1970; `-1` for a session cookie.
pub open spec fn chrome_expiry_secs(e: i64) -> i64 {
    if e <= 0 {
        -1i64
    } else {
        (e / 1_000_000 - CHROME_EPOCH_OFFSET) as i64
    }
}

/// Converts a Chrome `expires_utc` to seconds since the Unix epoch.
pub fn chrome_expiry(expires_utc: i64) -> (r: i64)
    ensures
        r == chrome_expiry_secs(expires_utc),
{
    if expires_utc <= 0 {
        -1
    } else {
        expires_utc / 1_000_000 - CHROME_EPOCH_OFFSET
    }
}

/// The cookie a row of Firefox's `moz_cookies` table describes.
pub fn firefox_cookie(
    name: String,
    value: String,
    host: String,
    path: String,
    expiry: i64,
    is_secure: i32,
    is_http_only: i32,
    same_site: i32,
) -> (c: Cookie)
    ensures
        c == (Cookie {
            name,
            value,
            domain: host,
            path,
            expires: firefox_expiry(expiry),
            http_only: is_http_only != 0,
            secure: is_secure != 0,
            same_site: samesite_of(same_site),
        }),
{
    Cookie {
        name,
        value,
        domain: host,
        path,
        expires: normalize_expiry(expiry),
        http_only: is_http_only != 0,
        secure: is_secure != 0,
        same_site: map_samesite(same_site),
    }
}

/// The cookie a row of Chrome's `cookies` table describes, its value already decrypted.
pub fn chrome_cookie(
    name: String,
    value: String,
    host_key: String,
    path: String,
    expires_utc: i64,
    is_secure: i32,
    is_httponly: i32,
    samesite: i32,
) -> (c: Cookie)
    ensures
        c == (Cookie {
            name,
            value,
            domain: host_key,
            path,
            expires: chrome_expiry_secs(expires_utc),
            http_only: is_httponly != 0,
            secure: is_secure != 0,
            same_site: samesite_of(samesite),
        }),
{
    Cookie {
        name,
        value,
        domain: host_key,
        path,
        expires: chrome_expiry(expires_utc),
        http_only: is_httponly != 0,
        secure: is_secure != 0,
        same_site: map_samesite(samesite),
    }
}

/// The cookie a row of Chrome's `cookies` table gives once its value was decrypted, or
/// nothing when the value could not be decrypted (such a row is skipped).
pub fn chrome_row_cookie(
    name: String,
    decrypted: Result<String, String>,
    host_key: String,
    path: String,
    expires_utc: i64,
    is_secure: i32,
    is_httponly: i32,
    samesite: i32,
) -> (c: Option<Cookie>)
    ensures
        match decrypted {
            Ok(value) => c == Some(
                Cookie {
                    name,
                    value,
                    domain: host_key,
                    path,
                    expires: chrome_expiry_secs(expires_utc),
                    http_only: is_httponly != 0,
                    secure: is_secure != 0,
                    same_site: samesite_of(samesite),
                },
            ),
            Err(_) => c is None,
        },
{
    match decrypted {
        Ok(value) => Some(chrome_cookie(name, value, host_key, path, expires_utc, is_secure, is_httponly, samesite)),
        Err(_) => None,
    }
}

/// A row of Chrome's `cookies` table with its value decrypted (or the decryption's error):
/// name, value, host key, path, `expires_utc`, `is_secure`, `is_httponly`, `samesite`.
pub type ChromeRow = (String, Result<String, String>, String, String, i64, i32, i32, i32);

/// The cookie a decrypted row gives, if its value decrypted.
pub open spec fn row_cookie(r: ChromeRow) -> Option<Cookie> {
    match r.1 {
        Ok(value) => Some(
            Cookie {
                name: r.0,
                value,
                domain: r.2,
                path: r.3,
                expires: chrome_expiry_secs(r.4),
                http_only: r.6 != 0,
                secure: r.5 != 0,
                same_site: samesite_of(r.7),
            },
        ),
        Err(_) => None,
    }
}

/// The cookies of the rows that decrypted, in order.
pub open spec fn row_cookies(rows: Seq<ChromeRow>) -> Seq<Cookie>
    decreases rows.len(),
{
    if rows.len() == 0 {
        seq![]
    } else {
        match row_cookie(rows.last()) {
            Some(c) => row_cookies(rows.drop_last()).push(c),
            None => row_cookies(rows.drop_last()),
        }
    }
}

/// The cookies of Chrome's rows, skipping each row whose value did not decrypt, and how many
/// rows were skipped.
pub fn chrome_cookies(rows: Vec<ChromeRow>) -> (r: (Vec<Cookie>, usize))
    ensures
        r.0@ == row_cookies(rows@),
        r.1 + r.0@.len() == rows@.len(),
{
    let mut out: Vec<Cookie> = Vec::new();
    let mut skipped: usize = 0;
    let mut rest = rows;
    let ghost all = rest@;
    let n = rest.len();
    let mut i: usize = 0;
    while i < n
        invariant
            n == all.len(),
            i <= n,
            rest@ == all.skip(i as int),
            out@ == row_cookies(all.take(i as int)),
            skipped + out@.len() == i,
        decreases n - i,
    {
        let row = rest.remove(0);
        assert(rest@ =~= all.skip(i + 1));
        let ghost sub = all.take(i + 1);
        assert(sub.drop_last() =~= all.take(i as int));
        assert(sub.last() == all[i as int]);
        let (name, decrypted, host_key, path, expires_utc, is_secure, is_httponly, samesite) = row;
        match chrome_row_cookie(name, decrypted, host_key, path, expires_utc, is_secure, is_httponly, samesite) {
            Some(c) => out.push(c),
            None => skipped = skipped + 1,
        }
        i = i + 1;
    }
    assert(all.take(n as int) =~= all);
    (out, skipped)
}

/// A profile name that could lead out of the browser's profile directory.
pub open spec fn unsafe_profile_name(name: Seq<char>) -> bool {
    name.contains('/') || name.contains('\\') || contains(name, ".."@) || name.contains('\0')
}

/// Refuses a profile name with a path separator, `..` or a NUL.
pub fn validate_profile_name(name: &str) -> (r: Result<(), String>)
    ensures
        r is Err <==> unsafe_profile_name(name@),
        r matches Err(e) ==> e@ == "Invalid profile name"@,
{
    let n = chars_of(name);
    if contains_char(n.as_slice(), '/') || contains_char(n.as_slice(), '\\') || contains_chars(
        n.as_slice(),
        chars_of("..").as_slice(),
    ) || contains_char(n.as_slice(), '\0') {
        return Err("Invalid profile name".to_string());
    }
    Ok(())
}

/// Firefox's usual profile directory has `default-release` in its name.
fn is_release_profile(dir_name: &str) -> (r: bool)
    ensures
        r == contains(dir_name@, "default-release"@),
{
    contains_chars(chars_of(dir_name).as_slice(), chars_of("default-release").as_slice())
}

/// Which Firefox profile directory to read.
#[derive(Debug, Clone, Copy, PartialEq, Eq, Structural)]
pub enum ProfileChoice {
    /// The entry of the listing at this index.
    Entry(usize),
    /// The directory named `default`.
    Default,
}

/// An entry of the profiles directory (its name, and whether it is a directory) that holds
/// the usual profile.
pub open spec fn is_release_entry(e: (String, bool)) -> bool {
    e.1 && contains(e.0@, "default-release"@)
}

/// Picks the profile from a listing of the profiles directory: the first directory whose name
/// has `default-release` in it, else the `default` directory when it exists.
pub fn choose_profile(entries: &[(String, bool)], default_exists: bool) -> (r: Result<ProfileChoice, String>)
    ensures
        match r {
            Ok(ProfileChoice::Entry(i)) => i < entries@.len() && is_release_entry(entries@[i as int])
                && forall|j: int| 0 <= j < i ==> !is_release_entry(#[trigger] entries@[j]),
            Ok(ProfileChoice::Default) => default_exists && forall|j: int|
                0 <= j < entries@.len() ==> !is_release_entry(#[trigger] entries@[j]),
            Err(e) => !default_exists && e@ == "No Firefox profile found"@ && forall|j: int|
                0 <= j < entries@.len() ==> !is_release_entry(#[trigger] entries@[j]),
        },
{
    let mut i: usize = 0;
    while i < entries.len()
        invariant
            i <= entries@.len(),
            forall|j: int| 0 <= j < i ==> !is_release_entry(#[trigger] entries@[j]),
        decreases entries@.len() - i,
    {
        let e = &entries[i];
        if e.1 && is_release_profile(e.0.as_str()) {
            return Ok(ProfileChoice::Entry(i));
        }
        i = i + 1;
    }
    if default_exists {
        Ok(ProfileChoice::Default)
    } else {
        Err("No Firefox profile found".to_string())
    }
}

/// The browser a LaunchServices handler id names (case-insensitively), if any.
pub open spec fn browser_named(role: Seq<char>) -> Option<Browser> {
    let l = lower_text(role);
    if contains(l, "chrome"@) || contains(l, "com.google.chrome"@) {
        Some(Browser::Chrome)
    } else if contains(l, "firefox"@) || contains(l, "org.mozilla.firefox"@) {
        Some(Browser::Firefox)
    } else {
        None
    }
}

/// The browser a LaunchServices `LSHandlerRoleAll` value names, if any.
pub fn match_browser(role_all: &str) -> (r: Option<Browser>)
    ensures
        r == browser_named(role_all@),
{
    let l = lower_chars(chars_of(role_all).as_slice());
    if contains_chars(l.as_slice(), chars_of("chrome").as_slice()) || contains_chars(
        l.as_slice(),
        chars_of("com.google.chrome").as_slice(),
    ) {
        Some(Browser::Chrome)
    } else if contains_chars(l.as_slice(), chars_of("firefox").as_slice()) || contains_chars(
        l.as_slice(),
        chars_of("org.mozilla.firefox").as_slice(),
    ) {
        Some(Browser::Firefox)
    } else {
        None
    }
}

/// `s` without leading and trailing `c`.
pub open spec fn trim_char(s: Seq<char>, c: char) -> Seq<char>
    decreases s.len(),
{
    if s.len() > 0 && s[0] == c {
        trim_char(s.drop_first(), c)
    } else if s.len() > 0 && s.last() == c {
        trim_char(s.drop_last(), c)
    } else {
        s
    }
}

/// `s` without trailing `c`.
pub open spec fn trim_end_char(s: Seq<char>, c: char) -> Seq<char>
    decreases s.len(),
{
    if s.len() > 0 && s.last() == c {
        trim_end_char(s.drop_last(), c)
    } else {
        s
    }
}

fn trim_char_exec(s: &[char], c: char, both: bool) -> (r: Vec<char>)
    ensures
        both ==> r@ == trim_char(s@, c),
        !both ==> r@ == trim_end_char(s@, c),
{
    let mut a: usize = 0;
    let mut b: usize = s.len();
    assert(s@.subrange(0, s@.len() as int) =~= s@);
    if both {
        while a < b && s[a] == c
            invariant
                a <= b == s@.len(),
                trim_char(s@, c) == trim_char(s@.subrange(a as int, b as int), c),
            decreases b - a,
        {
            assert(s@.subrange(a as int, b as int).drop_first() =~= s@.subrange(a + 1, b as int));
            a = a + 1;
        }
    }
    while a < b && s[b - 1] == c
        invariant
            a <= b <= s@.len(),
            both ==> (a < b ==> s@[a as int] != c),
            both ==> trim_char(s@, c) == trim_char(s@.subrange(a as int, b as int), c),
            !both ==> a == 0,
            !both ==> trim_end_char(s@, c) == trim_end_char(s@.subrange(0, b as int), c),
        decreases b - a,
    {
        assert(s@.subrange(a as int, b as int).drop_last() =~= s@.subrange(a as int, b - 1));
        b = b - 1;
    }
    crate::text::slice_chars(s, a, b)
}

/// The value of a `key = value;` line of a property list, for the given key: the text after the
/// first `=`, trimmed, without its trailing `;`s, trimmed again, without surrounding quotes.
pub open spec fn plist_value(line: Seq<char>, key: Seq<char>) -> Option<Seq<char>> {
    let parts = split_on(line, '=');
    if !starts_with(line, key) || parts.len() < 2 {
        None
    } else {
        Some(trim_char(trim(trim_end_char(trim(parts[1]), ';')), '"'))
    }
}

/// The value of `key` on a line of `defaults read` output (`key = value;`), unquoted.
pub fn extract_plist_value(line: &str, key: &str) -> (r: Option<String>)
    ensures
        crate::text::opt_view(r) == plist_value(line@, key@),
{
    let l = chars_of(line);
    if !has_prefix(l.as_slice(), chars_of(key).as_slice()) {
        return None;
    }
    let parts = split_char(l.as_slice(), '=');
    if parts.len() < 2 {
        return None;
    }
    assert(views(parts@)[1] == parts@[1]@);
    let a = trimmed(parts[1].as_slice());
    let b = trim_char_exec(a.as_slice(), ';', false);
    let c = trimmed(b.as_slice());
    let d = trim_char_exec(c.as_slice(), '"', true);
    Some(string_from(d.as_slice()))
}

/// What has been read of the current top-level handler entry.
pub struct PlistScan {
    pub role_all: Seq<char>,
    pub url_scheme: Seq<char>,
    pub depth: nat,
}

/// Reads one trimmed line of the `LSHandlers` listing: a line ending in `{` opens a dictionary
/// (`{` alone opens an entry, which at top level starts empty; `key = {` opens a nested
/// dictionary); a line starting with `}` (`}`, `},`, `};`) closes one, and closing a top-level
/// entry for `https` whose role handler names a browser ends the search with it. Only at top
/// level, outside nested dictionaries, are the URL-scheme and role-handler keys recorded.
pub open spec fn plist_step(st: PlistScan, t: Seq<char>) -> (PlistScan, Option<Browser>) {
    if ends_with(t, "{"@) {
        let d = st.depth + 1;
        if d == 1 {
            (PlistScan { role_all: seq![], url_scheme: seq![], depth: d }, None)
        } else {
            (PlistScan { depth: d, ..st }, None)
        }
    } else if starts_with(t, "}"@) {
        let found = if st.depth == 1 && st.url_scheme == "https"@ {
            browser_named(st.role_all)
        } else {
            None
        };
        (PlistScan { depth: if st.depth > 0 { (st.depth - 1) as nat } else { 0 }, ..st }, found)
    } else if st.depth != 1 {
        (st, None)
    } else {
        match plist_value(t, "LSHandlerURLScheme"@) {
            Some(v) => (PlistScan { url_scheme: v, ..st }, None),
            None => match plist_value(t, "LSHandlerRoleAll"@) {
                Some(v) => (PlistScan { role_all: v, ..st }, None),
                None => (st, None),
            },
        }
    }
}

/// The first browser found reading `lines[i..]` from state `st`.
pub open spec fn plist_scan(lines: Seq<Seq<char>>, i: int, st: PlistScan) -> Option<Browser>
    decreases lines.len() - i,
{
    if i < 0 || i >= lines.len() {
        None
    } else {
        let (st2, found) = plist_step(st, trim(lines[i]));
        match found {
            Some(b) => Some(b),
            None => plist_scan(lines, i + 1, st2),
        }
    }
}

/// The default browser named by the output of
/// `defaults read com.apple.LaunchServices/com.apple.launchservices.secure LSHandlers`:
/// the role handler of the first top-level `https` entry that names a browser.
/// (Lines are split at `\n`; the `\r` that `str::lines` would drop is whitespace and
/// trimmed anyway, and a trailing empty line changes nothing.)
pub open spec fn default_browser_in(listing: Seq<char>) -> Option<Browser> {
    plist_scan(split_on(listing, '\n'), 0, PlistScan { role_all: seq![], url_scheme: seq![], depth: 0 })
}

/// The default browser for `https` links, read from the output of
/// `defaults read com.apple.LaunchServices/com.apple.launchservices.secure LSHandlers`.
pub fn detect_from_listing(listing: &str) -> (r: Option<Browser>)
    ensures
        r == default_browser_in(listing@),
{
    let lines = split_char(chars_of(listing).as_slice(), '\n');
    let mut role_all: Vec<char> = Vec::new();
    let mut url_scheme: Vec<char> = Vec::new();
    let mut depth: usize = 0;
    let open = chars_of("{");
    let close = chars_of("}");
    let https = chars_of("https");
    let mut i: usize = 0;
    while i < lines.len()
        invariant
            i <= lines@.len(),
            open@ == "{"@,
            close@ == "}"@,
            https@ == "https"@,
            default_browser_in(listing@) == plist_scan(
                views(lines@),
                i as int,
                PlistScan { role_all: role_all@, url_scheme: url_scheme@, depth: depth as nat },
            ),
            depth <= i,
        decreases lines@.len() - i,
    {
        let t = trimmed(lines[i].as_slice());
        assert(views(lines@)[i as int] == lines@[i as int]@);
        if crate::text::has_suffix(t.as_slice(), open.as_slice()) {
            depth = depth + 1;
            if depth == 1 {
                role_all = Vec::new();
                url_scheme = Vec::new();
            }
        } else if has_prefix(t.as_slice(), close.as_slice()) {
            if depth == 1 && chars_eq(url_scheme.as_slice(), https.as_slice()) {
                let role = string_from(role_all.as_slice());
                match match_browser(role.as_str()) {
                    Some(b) => return Some(b),
                    None => {},
                }
            }
            depth = if depth > 0 { depth - 1 } else { 0 };
        } else if depth == 1 {
            let ts = string_from(t.as_slice());
            match extract_plist_value(ts.as_str(), "LSHandlerURLScheme") {
                Some(v) => {
                    url_scheme = chars_of(v.as_str());
                },
                None => match extract_plist_value(ts.as_str(), "LSHandlerRoleAll") {
                    Some(v) => {
                        role_all = chars_of(v.as_str());
                    },
                    None => {},
                },
            }
        }
        i = i + 1;
    }
    None
}

} // verus!

verus! {

/// Names the key PBKDF2 with HMAC-SHA1 derives (`pbkdf2::pbkdf2::<Hmac<Sha1>>`).
pub uninterp spec fn pbkdf2_sha1(password: Seq<u8>, salt: Seq<u8>, rounds: u32, len: nat) -> Seq<u8>;

/// `pbkdf2::pbkdf2::<Hmac<Sha1>>` into a buffer of `len` bytes.
/// Trusted: the result has `len` bytes and is `pbkdf2_sha1` of the arguments; HMAC takes
/// keys of any length, so the call does not fail.
#[verifier::external_body]
fn pbkdf2_hmac_sha1(password: &[u8], salt: &[u8], rounds: u32, len: usize) -> (r: Vec<u8>)
    ensures
        r@ == pbkdf2_sha1(password@, salt@, rounds, len as nat),
        r@.len() == len,
{
    let mut key = vec![0u8; len];
    pbkdf2::pbkdf2::<hmac::Hmac<sha1::Sha1>>(password, salt, rounds, &mut key)
        .expect("HMAC can be initialized with any key length");
    key
}

/// Chrome's cookie key on macOS: 16 bytes of PBKDF2-HMAC-SHA1 of the Keychain password
/// with salt `saltysalt` and 1003 rounds.
pub open spec fn mac_cookie_key(password: Seq<u8>) -> Seq<u8> {
    pbkdf2_sha1(password, "saltysalt"@.map_values(|c: char| c as u8), 1003, 16)
}

/// The AES key Chrome on macOS derives from its Keychain password.
pub fn derive_key(password: &[u8]) -> (key: Vec<u8>)
    ensures
        key@ == mac_cookie_key(password@),
        key@.len() == 16,
{
    let salt: Vec<u8> = vec![0x73, 0x61, 0x6c, 0x74, 0x79, 0x73, 0x61, 0x6c, 0x74];
    proof {
        reveal_strlit("saltysalt");
        assert(salt@ =~= "saltysalt"@.map_values(|c: char| c as u8));
    }
    pbkdf2_hmac_sha1(password, salt.as_slice(), 1003, 16)
}

/// Names what `String::from_utf8_lossy` makes of some bytes.
pub uninterp spec fn utf8_lossy(bytes: Seq<u8>) -> Seq<char>;

/// std `String::from_utf8_lossy`. Trusted: the result is `utf8_lossy` of the bytes, and
/// valid UTF-8 is decoded as it is.
#[verifier::external_body]
pub(crate) fn from_utf8_lossy(bytes: &[u8]) -> (r: String)
    ensures
        r@ == utf8_lossy(bytes@),
        vstd::utf8::valid_utf8(bytes@) ==> r@ == vstd::utf8::decode_utf8(bytes@),
{
    String::from_utf8_lossy(bytes).to_string()
}

/// Names the plaintext AES-128-CBC with PKCS#7 padding recovers, or `None` when the
/// padding is malformed or the length is not a whole number of blocks.
pub uninterp spec fn aes128_cbc_decrypt(key: Seq<u8>, iv: Seq<u8>, data: Seq<u8>) -> Option<Seq<u8>>;

/// `cbc::Decryptor::<aes::Aes128>::new_from_slices(key, iv)` then
/// `decrypt_padded_mut::<Pkcs7>`. Trusted: the result is `aes128_cbc_decrypt` of the arguments.
#[verifier::external_body]
fn cbc_decrypt(key: &[u8], iv: &[u8], data: &[u8]) -> (r: Option<Vec<u8>>)
    requires
        key@.len() == 16,
        iv@.len() == 16,
    ensures
        match r {
            Some(v) => aes128_cbc_decrypt(key@, iv@, data@) == Some(v@),
            None => aes128_cbc_decrypt(key@, iv@, data@) is None,
        },
{
    let mut buf = data.to_vec();
    let dec = cbc::Decryptor::<aes::Aes128>::new_from_slices(key, iv).ok()?;
    dec.decrypt_padded_mut::<Pkcs7>(&mut buf).ok().map(|pt| pt.to_vec())
}

/// `s` begins with the ASCII text `p`.
pub open spec fn bytes_start_with(s: Seq<u8>, p: Seq<char>) -> bool {
    p.len() <= s.len() && forall|i: int| 0 <= i < p.len() ==> s[i] == p[i] as u8
}

fn bytes_prefix(s: &[u8], p: &[u8]) -> (r: bool)
    ensures
        r == (p@.len() <= s@.len() && s@.subrange(0, p@.len() as int) == p@),
{
    if p.len() > s.len() {
        return false;
    }
    let mut i: usize = 0;
    while i < p.len()
        invariant
            i <= p@.len() <= s@.len(),
            forall|j: int| 0 <= j < i ==> s@[j] == p@[j],
        decreases p@.len() - i,
    {
        if s[i] != p[i] {
            assert(s@.subrange(0, p@.len() as int)[i as int] != p@[i as int]);
            return false;
        }
        i = i + 1;
    }
    assert(s@.subrange(0, p@.len() as int) =~= p@);
    true
}

fn copy_bytes(s: &[u8], a: usize, b: usize) -> (r: Vec<u8>)
    requires
        a <= b <= s@.len(),
    ensures
        r@ == s@.subrange(a as int, b as int),
{
    let mut r: Vec<u8> = Vec::new();
    let mut i = a;
    while i < b
        invariant
            a <= i <= b <= s@.len(),
            r@ == s@.subrange(a as int, i as int),
        decreases b - i,
    {
        r.push(s[i]);
        i = i + 1;
        assert(r@ =~= s@.subrange(a as int, i as int));
    }
    r
}

/// A stored Chrome cookie value on macOS: empty when it has three bytes or fewer; taken as
/// text when it lacks the `v10`/`v11` marker; otherwise the rest is AES-128-CBC decrypted with
/// the key and an IV of sixteen spaces, and the plaintext is read as text.
pub open spec fn mac_cookie_value(enc: Seq<u8>, key: Seq<u8>) -> Option<Seq<char>> {
    if enc.len() <= 3 {
        Some(seq![])
    } else if enc.take(3) != seq![0x76u8, 0x31u8, 0x30u8] && enc.take(3) != seq![0x76u8, 0x31u8, 0x31u8] {
        Some(utf8_lossy(enc))
    } else {
        match aes128_cbc_decrypt(key, Seq::new(16, |i: int| 0x20u8), enc.skip(3)) {
            Some(pt) => Some(utf8_lossy(pt)),
            None => None,
        }
    }
}

/// Decrypts a Chrome cookie value stored on macOS.
pub fn decrypt_value(encrypted: &[u8], key: &[u8]) -> (r: Result<String, String>)
    requires
        key@.len() == 16,
    ensures
        match r {
            Ok(v) => mac_cookie_value(encrypted@, key@) == Some(v@),
            Err(e) => mac_cookie_value(encrypted@, key@) is None && e@ == "Decryption failed"@,
        },
{
    if encrypted.len() <= 3 {
        return Ok(String::new());
    }
    let v10: Vec<u8> = vec![0x76, 0x31, 0x30];
    let v11: Vec<u8> = vec![0x76, 0x31, 0x31];
    assert(encrypted@.take(3) =~= encrypted@.subrange(0, 3));
    if !bytes_prefix(encrypted, v10.as_slice()) && !bytes_prefix(encrypted, v11.as_slice()) {
        assert(v10@ =~= seq![0x76u8, 0x31u8, 0x30u8]);
        assert(v11@ =~= seq![0x76u8, 0x31u8, 0x31u8]);
        return Ok(from_utf8_lossy(encrypted));
    }
    assert(v10@ =~= seq![0x76u8, 0x31u8, 0x30u8]);
    assert(v11@ =~= seq![0x76u8, 0x31u8, 0x31u8]);
    let iv: Vec<u8> = vec![0x20u8; 16];
    assert(iv@ =~= Seq::new(16, |i: int| 0x20u8));
    let rest = copy_bytes(encrypted, 3, encrypted.len());
    assert(rest@ =~= encrypted@.skip(3));
    match cbc_decrypt(key, iv.as_slice(), rest.as_slice()) {
        Some(pt) => Ok(from_utf8_lossy(pt.as_slice())),
        None => Err("Decryption failed".to_string()),
    }
}

/// Names the plaintext AES-256-GCM recovers from a ciphertext with its tag, or `None` when
/// authentication fails.
pub uninterp spec fn aes256_gcm_decrypt(key: Seq<u8>, nonce: Seq<u8>, data: Seq<u8>) -> Option<Seq<u8>>;

/// `aes_gcm::Aes256Gcm::new(key).decrypt(nonce, data)`. Trusted: the result is
/// `aes256_gcm_decrypt` of the arguments.
#[verifier::external_body]
fn gcm_decrypt(key: &[u8], nonce: &[u8], data: &[u8]) -> (r: Option<Vec<u8>>)
    requires
        key@.len() == 32,
        nonce@.len() == 12,
    ensures
        match r {
            Some(v) => aes256_gcm_decrypt(key@, nonce@, data@) == Some(v@),
            None => aes256_gcm_decrypt(key@, nonce@, data@) is None,
        },
{
    let cipher = aes_gcm::Aes256Gcm::new(aes_gcm::Key::<aes_gcm::Aes256Gcm>::from_slice(key));
    cipher.decrypt(aes_gcm::Nonce::from_slice(nonce), data).ok()
}

/// A stored Chrome cookie value on Windows: empty below fifteen bytes; taken as text when it
/// lacks the `v10`/`v20` marker; otherwise bytes 3..15 are the nonce and the rest the
/// AES-256-GCM ciphertext with its tag.
pub open spec fn win_cookie_value(enc: Seq<u8>, key: Seq<u8>) -> Option<Seq<char>> {
    if enc.len() < 15 {
        Some(seq![])
    } else if enc.take(3) != seq![0x76u8, 0x31u8, 0x30u8] && enc.take(3) != seq![0x76u8, 0x32u8, 0x30u8] {
        Some(utf8_lossy(enc))
    } else {
        match aes256_gcm_decrypt(key, enc.subrange(3, 15), enc.skip(15)) {
            Some(pt) => Some(utf8_lossy(pt)),
            None => None,
        }
    }
}

/// Decrypts a Chrome cookie value stored on Windows.
pub fn decrypt_cookie(key: &[u8], encrypted_value: &[u8]) -> (r: Result<String, String>)
    requires
        key@.len() == 32,
    ensures
        match r {
            Ok(v) => win_cookie_value(encrypted_value@, key@) == Some(v@),
            Err(e) => win_cookie_value(encrypted_value@, key@) is None && e@ == "AES-GCM decryption failed"@,
        },
{
    if encrypted_value.len() < 15 {
        return Ok(String::new());
    }
    let v10: Vec<u8> = vec![0x76, 0x31, 0x30];
    let v20: Vec<u8> = vec![0x76, 0x32, 0x30];
    assert(encrypted_value@.take(3) =~= encrypted_value@.subrange(0, 3));
    assert(v10@ =~= seq![0x76u8, 0x31u8, 0x30u8]);
    assert(v20@ =~= seq![0x76u8, 0x32u8, 0x30u8]);
    if !bytes_prefix(encrypted_value, v10.as_slice()) && !bytes_prefix(encrypted_value, v20.as_slice()) {
        return Ok(from_utf8_lossy(encrypted_value));
    }
    let nonce = copy_bytes(encrypted_value, 3, 15);
    let ct = copy_bytes(encrypted_value, 15, encrypted_value.len());
    assert(ct@ =~= encrypted_value@.skip(15));
    match gcm_decrypt(key, nonce.as_slice(), ct.as_slice()) {
        Some(pt) => Ok(from_utf8_lossy(pt.as_slice())),
        None => Err("AES-GCM decryption failed".to_string()),
    }
}

/// Overwrites key material with zeros.
pub fn zeroize(v: &mut Vec<u8>)
    ensures
        final(v)@.len() == old(v)@.len(),
        forall|i: int| 0 <= i < final(v)@.len() ==> final(v)@[i] == 0,
{
    let mut i: usize = 0;
    while i < v.len()
        invariant
            i <= v@.len() == old(v)@.len(),
            forall|j: int| 0 <= j < i ==> v@[j] == 0,
        decreases v@.len() - i,
    {
        v.set(i, 0);
        i = i + 1;
    }
}

} // verus!

verus! {

/// Names what `serde_json::from_str::<serde_json::Value>` makes of a text: success, or the
/// message of its error.
pub uninterp spec fn json_parse_result(text: Seq<char>) -> Result<(), Seq<char>>;

/// `serde_json::from_str::<serde_json::Value>` accepts the text.
pub open spec fn json_parses(text: Seq<char>) -> bool {
    json_parse_result(text) is Ok
}

/// The message of the error `serde_json::from_str` reports for a text it rejects.
pub open spec fn json_error(text: Seq<char>) -> Seq<char> {
    match json_parse_result(text) {
        Err(e) => e,
        Ok(()) => seq![],
    }
}

/// Names the string at `value[outer][inner]` of the JSON document a text holds, if that
/// member exists and is a string.
pub uninterp spec fn json_str_at(text: Seq<char>, outer: Seq<char>, inner: Seq<char>) -> Option<Seq<char>>;

/// `serde_json::from_str::<serde_json::Value>(text)`, then `value[outer][inner].as_str()`.
/// Trusted: success and the string found are the names above applied to the arguments.
#[verifier::external_body]
fn json_lookup(text: &str, outer: &str, inner: &str) -> (r: Result<Option<String>, String>)
    ensures
        r is Ok <==> json_parse_result(text@) is Ok,
        r matches Ok(v) ==> crate::text::opt_view(v) == json_str_at(text@, outer@, inner@),
        r matches Err(e) ==> json_parse_result(text@) is Err && json_parse_result(text@)->Err_0 == e@,
{
    let v: serde_json::Value = serde_json::from_str(text).map_err(|e| e.to_string())?;
    Ok(v[outer][inner].as_str().map(|s| s.to_string()))
}

/// Names what standard Base64 decoding makes of a text: the bytes, or the message of its error.
pub uninterp spec fn base64_result(text: Seq<char>) -> Result<Seq<u8>, Seq<char>>;

/// The bytes standard Base64 decodes a text to, or `None` when it is not valid Base64.
pub open spec fn base64_decoded(text: Seq<char>) -> Option<Seq<u8>> {
    match base64_result(text) {
        Ok(b) => Some(b),
        Err(_) => None,
    }
}

/// The message of the error standard Base64 decoding reports for a text.
pub open spec fn base64_error(text: Seq<char>) -> Seq<char> {
    match base64_result(text) {
        Err(e) => e,
        Ok(_) => seq![],
    }
}

/// `base64::engine::general_purpose::STANDARD.decode(text)`. Trusted: the bytes, or the
/// error's message, are `base64_result` of the text.
#[verifier::external_body]
fn base64_decode(text: &str) -> (r: Result<Vec<u8>, String>)
    ensures
        match r {
            Ok(v) => base64_result(text@) is Ok && base64_result(text@)->Ok_0 == v@,
            Err(e) => base64_result(text@) is Err && base64_result(text@)->Err_0 == e@,
        },
{
    base64::engine::general_purpose::STANDARD.decode(text).map_err(|e| e.to_string())
}

/// The DPAPI-protected key that Chrome's `Local State` file holds on Windows: the Base64
/// text at `os_crypt.encrypted_key`, decoded, which must start with `DPAPI`; the rest is
/// returned.
pub open spec fn protected_key(text: Seq<char>) -> Result<Seq<u8>, Seq<char>> {
    if !json_parses(text) {
        Err(json_error(text))
    } else {
        match json_str_at(text, "os_crypt"@, "encrypted_key"@) {
            None => Err("os_crypt.encrypted_key not found"@),
            Some(b64) => match base64_decoded(b64) {
                None => Err(base64_error(b64)),
                Some(raw) => dpapi_payload(raw),
            },
        }
    }
}

/// The bytes after the `DPAPI` tag that starts a decoded `encrypted_key`.
pub open spec fn dpapi_payload(raw: Seq<u8>) -> Result<Seq<u8>, Seq<char>> {
    if raw.len() < 5 || !bytes_start_with(raw, "DPAPI"@) {
        Err("Unexpected encrypted_key format"@)
    } else {
        Ok(raw.skip(5))
    }
}

/// Strips the `DPAPI` tag from a decoded `encrypted_key`; a key without it is refused.
pub fn dpapi_blob(raw: &[u8]) -> (r: Result<Vec<u8>, String>)
    ensures
        match r {
            Ok(v) => dpapi_payload(raw@) == Ok::<Seq<u8>, Seq<char>>(v@),
            Err(e) => dpapi_payload(raw@) == Err::<Seq<u8>, Seq<char>>(e@),
        },
{
    let dpapi: Vec<u8> = vec![0x44, 0x50, 0x41, 0x50, 0x49];
    proof {
        reveal_strlit("DPAPI");
    }
    if raw.len() < 5 || !bytes_prefix(raw, dpapi.as_slice()) {
        proof {
            if raw@.len() >= 5 && bytes_start_with(raw@, "DPAPI"@) {
                assert(raw@.subrange(0, 5) =~= dpapi@);
            }
        }
        return Err("Unexpected encrypted_key format".to_string());
    }
    proof {
        assert forall|i: int| 0 <= i < 5 implies raw@[i] == "DPAPI"@[i] as u8 by {
            assert(raw@.subrange(0, 5)[i] == dpapi@[i]);
        }
    }
    let rest = copy_bytes(raw, 5, raw.len());
    assert(rest@ =~= raw@.skip(5));
    Ok(rest)
}

/// Reads the DPAPI-protected AES key from the text of Chrome's `Local State` file.
pub fn encrypted_key_blob(local_state: &str) -> (r: Result<Vec<u8>, String>)
    ensures
        match r {
            Ok(v) => protected_key(local_state@) == Ok::<Seq<u8>, Seq<char>>(v@),
            Err(e) => protected_key(local_state@) == Err::<Seq<u8>, Seq<char>>(e@),
        },
{
    let b64 = match json_lookup(local_state, "os_crypt", "encrypted_key") {
        Err(e) => return Err(e),
        Ok(None) => return Err("os_crypt.encrypted_key not found".to_string()),
        Ok(Some(s)) => s,
    };
    let raw = match base64_decode(b64.as_str()) {
        Ok(v) => v,
        Err(e) => return Err(e),
    };
    dpapi_blob(raw.as_slice())
}

/// Accepts the unprotected key only when it has exactly 32 bytes; a wrong-sized key is
/// zeroed before it is refused.
pub fn check_aes_key(key_bytes: Vec<u8>) -> (r: Result<Vec<u8>, String>)
    ensures
        key_bytes@.len() == 32 ==> r == Ok::<Vec<u8>, String>(key_bytes),
        key_bytes@.len() != 32 ==> (r matches Err(e) && e@ == "Expected 32-byte AES key, got "@
            + crate::text::decimal(key_bytes@.len())),
{
    let mut key_bytes = key_bytes;
    if key_bytes.len() != 32 {
        let n = key_bytes.len();
        zeroize(&mut key_bytes);
        let mut m = chars_of("Expected 32-byte AES key, got ");
        crate::text::append_chars(&mut m, crate::text::decimal_chars(n as u64).as_slice());
        return Err(string_from(m.as_slice()));
    }
    Ok(key_bytes)
}

/// The UTF-16 code units of `s`.
pub open spec fn utf16_units(s: Seq<char>) -> Seq<u16>
    decreases s.len(),
{
    if s.len() == 0 {
        seq![]
    } else {
        let v = s.last() as u32;
        let rest = utf16_units(s.drop_last());
        if v < 0x10000 {
            rest.push(v as u16)
        } else {
            rest.push((0xD800 + (v - 0x10000) / 0x400) as u16).push(
                (0xDC00 + (v - 0x10000) % 0x400) as u16,
            )
        }
    }
}

/// `s` as NUL-terminated UTF-16, as the Windows registry functions take it.
pub fn wide(s: &str) -> (r: Vec<u16>)
    ensures
        r@ == utf16_units(s@).push(0u16),
{
    let c = chars_of(s);
    let mut r: Vec<u16> = Vec::new();
    let mut i: usize = 0;
    while i < c.len()
        invariant
            i <= c@.len(),
            r@ == utf16_units(c@.take(i as int)),
        decreases c@.len() - i,
    {
        let ghost t = c@.take(i + 1);
        assert(t.drop_last() =~= c@.take(i as int));
        let v = c[i] as u32;
        if v < 0x10000 {
            r.push(v as u16);
        } else {
            proof {
                vstd::utf8::char_is_scalar(c@[i as int]);
            }
            r.push((0xD800 + (v - 0x10000) / 0x400) as u16);
            r.push((0xDC00 + (v - 0x10000) % 0x400) as u16);
        }
        i = i + 1;
    }
    assert(c@.take(c@.len() as int) =~= c@);
    r.push(0);
    r
}

/// The browser a Windows `https` handler ProgId names, if it is a known one.
pub open spec fn browser_of_prog_id(p: Seq<char>) -> Option<Browser> {
    if p == "ChromeHTML"@ {
        Some(Browser::Chrome)
    } else if starts_with(p, "FirefoxURL"@) {
        Some(Browser::Firefox)
    } else {
        None
    }
}

/// The browser a Windows `https` handler ProgId names, if it is a known one.
pub fn browser_for_prog_id(prog_id: &str) -> (r: Option<Browser>)
    ensures
        r == browser_of_prog_id(prog_id@),
{
    let p = chars_of(prog_id);
    if chars_eq(p.as_slice(), chars_of("ChromeHTML").as_slice()) {
        Some(Browser::Chrome)
    } else if has_prefix(p.as_slice(), chars_of("FirefoxURL").as_slice()) {
        Some(Browser::Firefox)
    } else {
        None
    }
}

/// Little-endian 16-bit words of a byte buffer; an odd last byte is dropped (`chunks_exact(2)`).
pub open spec fn le_words(b: Seq<u8>) -> Seq<u16> {
    Seq::new(b.len() / 2, |i: int| (b[2 * i] as int + 256 * b[2 * i + 1] as int) as u16)
}

/// Names what `String::from_utf16_lossy` makes of some code units.
pub uninterp spec fn utf16_lossy(units: Seq<u16>) -> Seq<char>;

/// std `String::from_utf16_lossy`. Trusted: the result is `utf16_lossy` of the units.
#[verifier::external_body]
fn from_utf16_lossy(units: &[u16]) -> (r: String)
    ensures
        r@ == utf16_lossy(units@),
{
    String::from_utf16_lossy(units)
}

/// The ProgId text in the bytes a registry query returned: the bytes as UTF-16 words,
/// decoded, without trailing NULs.
pub open spec fn prog_id_text(bytes: Seq<u8>) -> Seq<char> {
    trim_end_char(utf16_lossy(le_words(bytes)), '\0')
}

/// The ProgId text of a registry value: little-endian UTF-16 code units (a trailing odd byte
/// dropped), decoded lossily, with trailing NULs removed.
pub fn prog_id_from_registry(bytes: &[u8]) -> (r: String)
    ensures
        r@ == prog_id_text(bytes@),
{
    let mut words: Vec<u16> = Vec::new();
    let bl = bytes.len();
    let n = bl / 2;
    let mut i: usize = 0;
    while i < n
        invariant
            bl == bytes@.len(),
            i <= n == bytes@.len() / 2,
            words@ =~= le_words(bytes@).take(i as int),
        decreases n - i,
    {
        assert(2 * i + 1 < bytes@.len()) by (nonlinear_arith)
            requires
                i < n,
                n == bytes@.len() / 2,
        ;
        assert(2 * i + 1 < bl);
        let b0 = bytes[2 * i];
        let b1 = bytes[2 * i + 1];
        assert(b1 as int * 256 <= 65280) by (nonlinear_arith)
            requires
                b1 <= 255,
        ;
        let w: u16 = (b0 as u16) + (b1 as u16) * 256;
        assert(w == (b0 as int + 256 * b1 as int) as u16);
        let ghost before = words@;
        words.push(w);
        assert(words@ =~= le_words(bytes@).take(i + 1));
        i = i + 1;
    }
    assert(le_words(bytes@).take(n as int) =~= le_words(bytes@));
    let s = from_utf16_lossy(words.as_slice());
    let t = trim_char_exec(chars_of(s.as_str()).as_slice(), '\0', false);
    string_from(t.as_slice())
}

} // verus!

verus! {

/// `s` without leading `c`s.
pub open spec fn trim_start_char(s: Seq<char>, c: char) -> Seq<char>
    decreases s.len(),
{
    if s.len() > 0 && s[0] == c {
        trim_start_char(s.drop_first(), c)
    } else {
        s
    }
}

fn host_of(domain: &str) -> (r: Vec<char>)
    ensures
        r@ == trim_start_char(domain@, '.'),
{
    let d = chars_of(domain);
    let mut a: usize = 0;
    assert(d@.subrange(0, d@.len() as int) =~= d@);
    while a < d.len() && d[a] == '.'
        invariant
            a <= d@.len(),
            trim_start_char(domain@, '.') == trim_start_char(d@.subrange(a as int, d@.len() as int), '.'),
            d@ == domain@,
        decreases d@.len() - a,
    {
        assert(d@.subrange(a as int, d@.len() as int).drop_first() =~= d@.subrange(a + 1, d@.len() as int));
        a = a + 1;
    }
    crate::text::slice_chars(d.as_slice(), a, d.len())
}

/// The site a cookie belongs to: `https://` and its domain without leading dots.
pub open spec fn cookie_site_of(domain: Seq<char>) -> Seq<char> {
    "https://"@ + trim_start_char(domain, '.')
}

/// The site a cookie belongs to, as a URL.
pub fn cookie_site(c: &Cookie) -> (r: String)
    ensures
        r@ == cookie_site_of(c.domain@),
{
    let mut m = chars_of("https://");
    crate::text::append_chars(&mut m, host_of(c.domain.as_str()).as_slice());
    string_from(m.as_slice())
}

/// The URL a cookie is set for in the browser: its site followed by its path.
pub fn cookie_url(c: &Cookie) -> (r: String)
    ensures
        r@ == cookie_site_of(c.domain@) + c.path@,
{
    let mut m = chars_of("https://");
    crate::text::append_chars(&mut m, host_of(c.domain.as_str()).as_slice());
    append_str(&mut m, c.path.as_str());
    string_from(m.as_slice())
}

/// A cookie as a `Set-Cookie`-style header: `name=value; Domain=…; Path=…`.
pub open spec fn cookie_line(c: Cookie) -> Seq<char> {
    c.name@ + "="@ + c.value@ + "; Domain="@ + c.domain@ + "; Path="@ + c.path@
}

/// A cookie as the cookie jar reads it.
pub fn cookie_header(c: &Cookie) -> (r: String)
    ensures
        r@ == cookie_line(*c),
{
    let mut m = chars_of(c.name.as_str());
    append_str(&mut m, "=");
    append_str(&mut m, c.value.as_str());
    append_str(&mut m, "; Domain=");
    append_str(&mut m, c.domain.as_str());
    append_str(&mut m, "; Path=");
    append_str(&mut m, c.path.as_str());
    string_from(m.as_slice())
}

} // verus!
