//! Desktop-notification content: decides whether a notification is due
//! and composes its summary and body; a collaborator delivers it.

use vstd::prelude::*;

use crate::text::{chars_to_string, dec_digits, push_dec, push_str_chars};

verus! {

/// The notification gate: when disabled, nothing is composed.
pub struct Notifier {
    pub enabled: bool,
}

impl Notifier {
    pub fn new(enabled: bool) -> (r: Notifier)
        ensures
            r.enabled == enabled,
    {
        Notifier { enabled }
    }

    /// The summary and body announcing a new episode of a tracked
    /// series, or nothing when notifications are off.
    pub fn new_episode(&self, series_title: &str, episode: u32) -> (r: Option<(String, String)>)
        ensures
            r is Some <==> self.enabled,
            r is Some ==> (r->0).0@ == series_title@ && (r->0).1@ == "Episode "@ + dec_digits(
                episode as nat,
            ) + " is now available"@,
    {
        if !self.enabled {
            return None;
        }
        let mut body: Vec<char> = Vec::new();
        push_str_chars(&mut body, "Episode ");
        push_dec(&mut body, episode);
        push_str_chars(&mut body, " is now available");
        let summary = String::from_str(series_title);
        Some((summary, chars_to_string(&body)))
    }

    /// The summary and body announcing a finished download, or nothing
    /// when notifications are off.
    pub fn download_complete(&self, name: &str) -> (r: Option<(String, String)>)
        ensures
            r is Some <==> self.enabled,
            r is Some ==> (r->0).0@ == "Download Complete"@ && (r->0).1@ == name@,
    {
        if !self.enabled {
            return None;
        }
        Some((String::from_str("Download Complete"), String::from_str(name)))
    }
}

} // verus!
