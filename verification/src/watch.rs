//! Focus-based automatic profile switching: the decisions of the focus service.
//!
//! A compositor script reports each window activation and the cycle-profile
//! shortcut; the caller forwards those events here, performs the profile change
//! that is decided, and reports the daemon's reply back.
use vstd::prelude::*;

use crate::ipc::Response;
use crate::rules::{spec_profile_for, Rules};

verus! {

/// The profile to switch to when the window `app_id` gains focus, given the
/// rules and the current profile: the profile the rules select, unless there
/// are no rules, they select nothing, or it is already the current one.
pub open spec fn spec_activated(rules: Option<Rules>, current: Option<String>, app_id: Seq<char>) -> Option<Seq<char>> {
    match rules {
        None => None,
        Some(rules) => match spec_profile_for(rules.rules@, rules.default, app_id) {
            None => None,
            Some(p) => if (current matches Some(c) && c@ == p) {
                None
            } else {
                Some(p)
            },
        },
    }
}

/// The current profile after the daemon replied `response` to applying
/// `profile`: the profile on success, unchanged otherwise.
pub open spec fn spec_record_apply(current: Option<String>, profile: String, response: Response) -> Option<String> {
    if response is Success {
        Some(profile)
    } else {
        current
    }
}

/// Once a profile the rules select for a window has been applied, focusing a
/// window that selects the same profile applies nothing again.
pub proof fn lemma_no_reapply(
    rules: Rules,
    current: Option<String>,
    profile: String,
    first: Seq<char>,
    second: Seq<char>,
)
    requires
        spec_activated(Some(rules), current, first) == Some(profile@),
        spec_profile_for(rules.rules@, rules.default, second) == Some(profile@),
    ensures
        spec_activated(
            Some(rules),
            spec_record_apply(current, profile, Response::Success),
            second,
        ) is None,
{
}

/// The focus service's state: the window rules (absent when no rules file
/// exists, which turns auto-switching off) and the profile last switched to.
pub struct FocusService {
    pub rules: Option<Rules>,
    pub current: Option<String>,
}

impl FocusService {
    /// A service with the given rules that has not switched profiles yet.
    pub fn new(rules: Option<Rules>) -> (s: FocusService)
        ensures
            s.rules == rules,
            s.current is None,
    {
        FocusService { rules, current: None }
    }

    /// The profile to apply when the window `app_id` gains focus: the profile
    /// the rules select, unless there are no rules, they select nothing, or that
    /// profile is already the current one (it is not re-applied on every focus).
    pub fn activated(&self, app_id: &str) -> (r: Option<String>)
        ensures
            match spec_activated(self.rules, self.current, app_id@) {
                None => r is None,
                Some(p) => r matches Some(s) && s@ == p,
            },
    {
        let rules = match &self.rules {
            Some(rules) => rules,
            None => return None,
        };
        let profile = match rules.profile_for(app_id) {
            Some(p) => String::from_str(p),
            None => return None,
        };
        match &self.current {
            Some(c) => {
                if *c == profile {
                    return None;
                }
            },
            None => {},
        }
        Some(profile)
    }

    /// Record the daemon's reply to applying `profile`: on success it becomes the
    /// current profile.
    pub fn record_apply(&mut self, profile: String, response: &Response)
        ensures
            final(self).rules == old(self).rules,
            final(self).current == spec_record_apply(old(self).current, profile, *response),
    {
        if let Response::Success = response {
            self.current = Some(profile);
        }
    }

    /// Record the daemon's reply to the cycle-profile shortcut: a status reply
    /// names the profile now active.
    pub fn cycle_profile(&mut self, response: Response)
        ensures
            final(self).rules == old(self).rules,
            final(self).current == match response {
                Response::Status(s) => s.active_profile,
                _ => old(self).current,
            },
    {
        if let Response::Status(status) = response {
            self.current = status.active_profile;
        }
    }
}

} // verus!
