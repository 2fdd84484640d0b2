//! Keys of the connections to remote file systems.

use vstd::prelude::*;
use crate::text::{str_equal, copy_str};

verus! {

/// What identifies a connection to a remote file system.
#[derive(Clone, Debug, PartialEq, Eq, Hash)]
pub struct RemoteKey {
    pub scheme: String,
    pub username: String,
    pub host: String,
    pub port_opt: Option<u16>,
}

/// Why no connection can be made for a URL.
#[derive(Clone, Copy, Debug, PartialEq, Eq, Structural)]
pub enum RemoteKeyError {
    /// Only `sftp` is supported.
    UnsupportedScheme,
    /// The URL names no host.
    NoHost,
}

impl RemoteKey {
    /// The key for a URL, by its parts: only `sftp` URLs with a host have
    /// one; an empty user name stands for `current_user`.
    pub fn from_url_parts(
        scheme: &str,
        host: Option<&str>,
        username: &str,
        port: Option<u16>,
        current_user: &str,
    ) -> (r: Result<RemoteKey, RemoteKeyError>)
        ensures
            scheme@ != "sftp"@ ==> r == Err::<RemoteKey, RemoteKeyError>(RemoteKeyError::UnsupportedScheme),
            scheme@ == "sftp"@ && host is None ==> r == Err::<RemoteKey, RemoteKeyError>(RemoteKeyError::NoHost),
            scheme@ == "sftp"@ && host is Some ==> (r matches Ok(k) && k.scheme@ == scheme@ && k.host@ == host->0@
                && k.port_opt == port && k.username@ == if username@.len() == 0 {
                current_user@
            } else {
                username@
            }),
    {
        if !str_equal(scheme, "sftp") {
            return Err(RemoteKeyError::UnsupportedScheme);
        }
        match host {
            None => Err(RemoteKeyError::NoHost),
            Some(h) => {
                let user = if username.unicode_len() == 0 {
                    copy_str(current_user)
                } else {
                    copy_str(username)
                };
                Ok(RemoteKey { scheme: copy_str(scheme), username: user, host: copy_str(h), port_opt: port })
            },
        }
    }
}

} // verus!
