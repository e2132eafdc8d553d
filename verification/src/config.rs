//! The application configuration, constructed once at process start and
//! passed by reference into every component.  Expiry windows are kept in
//! seconds here and converted to milliseconds for the store.

use vstd::prelude::*;
use vstd::string::StringExecFns;
use crate::repo::MemRepo;

verus! {

/// The widest expiry window the configuration accepts, in seconds: a
/// hundred years, so that millisecond conversions never overflow.
pub const MAX_WINDOW_SECS: i64 = 3_153_600_000;

/// Process configuration: storage location, listen address, session
/// expiry and refresh windows, sweep interval and mail credentials.
#[derive(Debug)]
pub struct Config {
    pub avatar_path: String,
    pub session_expire: i64,
    pub session_refresh: i64,
    pub db_url: String,
    pub listen: String,
    pub clear_interval: usize,
    pub smtp_sender: Option<String>,
    pub smtp_host: Option<String>,
    pub smtp_passwd: Option<String>,
}

impl Config {
    /// Windows are nonnegative and small enough that millisecond
    /// arithmetic on timestamps cannot overflow.
    pub open spec fn wf(self) -> bool {
        &&& 0 <= self.session_expire <= MAX_WINDOW_SECS
        &&& 0 <= self.session_refresh <= MAX_WINDOW_SECS
    }

    /// The session expiry window in milliseconds.
    pub fn expire_millis(&self) -> (r: i64)
        requires
            self.wf(),
        ensures
            r == self.session_expire * 1000,
    {
        self.session_expire * 1000
    }

    /// The session refresh window in milliseconds.
    pub fn refresh_millis(&self) -> (r: i64)
        requires
            self.wf(),
        ensures
            r == self.session_refresh * 1000,
    {
        self.session_refresh * 1000
    }

    /// An empty repository configured with this expiry policy.
    pub fn open_repo(&self) -> (r: MemRepo)
        requires
            self.wf(),
        ensures
            r.wf(),
            r.expire_millis == self.session_expire * 1000,
            r.refresh_millis == self.session_refresh * 1000,
            r.users@.len() == 0,
            r.products@.len() == 0,
            r.memberships@.len() == 0,
            r.sessions@.len() == 0,
            r.recently@.len() == 0,
            r.groups@.len() == 0,
            r.favorites@.len() == 0,
    {
        MemRepo::new(self.expire_millis(), self.refresh_millis())
    }
}

impl Default for Config {
    /// The stock configuration: a local store, a fifteen-day session
    /// expiry, a one-hour refresh window, and no mail credentials.
    fn default() -> (r: Config)
        ensures
            r.wf(),
            r.session_expire == 1296000,
            r.session_refresh == 3600,
            r.clear_interval == 60,
            r.smtp_sender is None,
            r.smtp_host is None,
            r.smtp_passwd is None,
    {
        Config {
            avatar_path: String::from_str("./avatar"),
            session_expire: 1296000,
            session_refresh: 3600,
            db_url: String::from_str("sqlite://appserv.db"),
            listen: String::from_str("127.0.0.1:3000"),
            clear_interval: 60,
            smtp_sender: None,
            smtp_host: None,
            smtp_passwd: None,
        }
    }
}

} // verus!
