//! Cloud backend description and its credential-scrubbed form.
//!
//! The library only describes backends and scrubs their credentials for
//! logging; talking to a backend is the caller's business.

use vstd::prelude::*;
use vstd::string::StringExecFns;

verus! {

/// A cloud storage backend, with its credentials.
#[derive(Debug, Clone)]
pub enum Backend {
    Disabled,
    WebDAV { endpoint: String, username: String, password: String },
    S3 {
        endpoint: String,
        bucket: String,
        region: String,
        access_key_id: String,
        secret_access_key: String,
    },
}

/// The backend `r` is `orig` with every credential replaced by its
/// placeholder: nothing secret survives.
pub open spec fn scrubbed(orig: Backend, r: Backend) -> bool {
    match orig {
        Backend::Disabled => r is Disabled,
        Backend::WebDAV { endpoint, .. } => {
            &&& r matches Backend::WebDAV { endpoint: e, username: u, password: p }
            &&& e@ == endpoint@
            &&& u@ == "*username*"@
            &&& p@ == "*password*"@
        },
        Backend::S3 { .. } => {
            &&& r matches Backend::S3 {
                endpoint: e,
                bucket: b,
                region: g,
                access_key_id: a,
                secret_access_key: s,
            }
            &&& e@ == "*endpoint*"@
            &&& b@ == "*bucket*"@
            &&& g@ == "*region*"@
            &&& a@ == "*access_key_id*"@
            &&& s@ == "*secret_access_key*"@
        },
    }
}

impl Backend {
    /// The same backend with every credential replaced by a placeholder,
    /// safe to log or display.
    pub fn sanitize(self) -> (r: Backend)
        ensures
            scrubbed(self, r),
    {
        match self {
            Backend::Disabled => Backend::Disabled,
            Backend::WebDAV { endpoint, username: _, password: _ } => Backend::WebDAV {
                endpoint,
                username: String::from_str("*username*"),
                password: String::from_str("*password*"),
            },
            Backend::S3 { .. } => Backend::S3 {
                endpoint: String::from_str("*endpoint*"),
                bucket: String::from_str("*bucket*"),
                region: String::from_str("*region*"),
                access_key_id: String::from_str("*access_key_id*"),
                secret_access_key: String::from_str("*secret_access_key*"),
            },
        }
    }
}

/// Cloud synchronisation settings.
#[derive(Debug, Clone)]
pub struct CloudSettings {
    pub always_sync: bool,
    pub backend: Backend,
    pub root_path: String,
}

impl CloudSettings {
    /// The same settings with backend credentials scrubbed.
    pub fn sanitize(self) -> (r: CloudSettings)
        ensures
            r.always_sync == self.always_sync,
            r.root_path@ == self.root_path@,
            scrubbed(self.backend, r.backend),
    {
        CloudSettings {
            always_sync: self.always_sync,
            backend: self.backend.sanitize(),
            root_path: self.root_path,
        }
    }
}

impl Default for CloudSettings {
    /// Synchronisation off, no backend, a conventional root.
    fn default() -> (r: CloudSettings)
        ensures
            !r.always_sync,
            r.backend is Disabled,
            r.root_path@ == "/game_save_manager"@,
    {
        CloudSettings {
            always_sync: false,
            backend: Backend::Disabled,
            root_path: String::from_str("/game_save_manager"),
        }
    }
}

} // verus!
