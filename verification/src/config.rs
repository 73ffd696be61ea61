//! This device's settings: its identity and the sync repository's URL.
use vstd::prelude::*;

verus! {

/// This device's settings.
#[derive(Debug)]
pub struct AppConfig {
    pub device_id: String,
    pub repo_url: Option<String>,
}

/// A lowercase hexadecimal digit.
pub open spec fn is_lower_hex(c: char) -> bool {
    ('0' <= c && c <= '9') || ('a' <= c && c <= 'f')
}

/// The hyphenated text of a version-4 UUID: 36 characters, hyphens at 8, 13,
/// 18 and 23, lowercase hex digits elsewhere, version digit `4`, and a
/// variant digit among `8`, `9`, `a`, `b`.
pub open spec fn is_uuid_v4_text(s: Seq<char>) -> bool {
    &&& s.len() == 36
    &&& forall|i: int|
        0 <= i < 36 ==> if i == 8 || i == 13 || i == 18 || i == 23 {
            #[trigger] s[i] == '-'
        } else {
            is_lower_hex(s[i])
        }
    &&& s[14] == '4'
    &&& (s[19] == '8' || s[19] == '9' || s[19] == 'a' || s[19] == 'b')
}

/// A fresh random device id (`uuid::Uuid::new_v4().to_string()`). The
/// contract states the shape of every outcome (the hyphenated lowercase form
/// that `Uuid`'s `Display` writes, with the version and variant bits that
/// `new_v4` sets); which id comes is chance. `new_v4` panics when the
/// operating system yields no random bytes, which no precondition can rule out.
#[verifier::external_body]
fn new_device_id() -> (r: String)
    ensures
        is_uuid_v4_text(r@),
{
    uuid::Uuid::new_v4().to_string()
}

impl AppConfig {
    /// The settings of a device seen for the first time: a fresh random id
    /// and no repository configured.
    pub fn first_run() -> (r: AppConfig)
        ensures
            is_uuid_v4_text(r.device_id@),
            r.repo_url is None,
    {
        AppConfig { device_id: new_device_id(), repo_url: None }
    }

    /// These settings pointing at the repository `url` (or at none).
    pub fn with_repo_url(self, url: Option<String>) -> (r: AppConfig)
        ensures
            r.device_id == self.device_id,
            r.repo_url == url,
    {
        AppConfig { device_id: self.device_id, repo_url: url }
    }
}

} // verus!
