//! Outbound notifications and the channels that deliver them.
use vstd::prelude::*;

verus! {

/// One outbound notification.
#[derive(Clone, Debug)]
pub struct Notification {
    pub title: String,
    pub body: String,
    /// The page to open on click, when there is a single one.
    pub click_url: Option<String>,
}

/// Why a notification could not be delivered.
#[derive(Debug)]
pub enum NotificationError {
    /// The delivery backend failed.
    Backend(String),
}

impl NotificationError {
    /// Human-readable description: the backend's own message.
    pub fn message(&self) -> (r: String)
        ensures
            self matches NotificationError::Backend(s) && r@ == s@,
    {
        match self {
            NotificationError::Backend(s) => s.clone(),
        }
    }
}

/// The desktop notification channel of the operating system.
pub struct OsChannel;

impl OsChannel {
    /// The channel.
    pub fn new() -> (c: OsChannel) {
        OsChannel
    }

    /// The name recorded in the notification audit table.
    pub fn name(&self) -> (r: &'static str)
        ensures
            r@ == "os"@,
    {
        "os"
    }
}

impl Default for OsChannel {
    fn default() -> (c: OsChannel) {
        OsChannel::new()
    }
}

/// What the audit table records of a delivery attempt: success, and the
/// error text when it failed.
pub fn delivery_record(sent: Result<(), NotificationError>) -> (r: (bool, Option<String>))
    ensures
        sent is Ok ==> r.0 && r.1.is_none(),
        sent matches Err(NotificationError::Backend(s)) ==> !r.0 && (r.1 matches Some(m) && m@ == s@),
{
    match sent {
        Ok(()) => (true, None),
        Err(e) => (false, Some(e.message())),
    }
}

} // verus!
