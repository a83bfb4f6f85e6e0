//! Pending-approval card for the desktop chrome.

use vstd::prelude::*;
use crate::text::{append_str, chars_of, string_of};
use crate::workspace::Workspace;

verus! {

/// One tool-approval prompt waiting on the user.
#[derive(Debug, Clone, PartialEq, Eq)]
pub struct PendingApproval {
    pub request_id: String,
    pub tool: String,
    pub session_id: String,
    pub summary: String,
}

pub open spec fn card_body_of(summary: Seq<char>) -> Seq<char> {
    if summary.len() == 0 {
        "Agent wants to run this tool."@
    } else {
        summary
    }
}

impl PendingApproval {
    pub fn allow_label(&self) -> (r: &'static str)
        ensures
            r@ == "Allow"@,
    {
        "Allow"
    }

    pub fn deny_label(&self) -> (r: &'static str)
        ensures
            r@ == "Deny"@,
    {
        "Deny"
    }

    /// `Allow <tool>?`
    pub fn card_title(&self) -> (r: String)
        ensures
            r@ == "Allow "@ + self.tool@ + "?"@,
    {
        let mut v: Vec<char> = Vec::new();
        append_str(&mut v, "Allow ");
        append_str(&mut v, self.tool.as_str());
        append_str(&mut v, "?");
        string_of(&v)
    }

    /// The summary, or a generic line when it is empty.
    pub fn card_body(&self) -> (r: String)
        ensures
            r@ == card_body_of(self.summary@),
    {
        if chars_of(self.summary.as_str()).len() == 0 {
            "Agent wants to run this tool.".to_owned()
        } else {
            self.summary.clone()
        }
    }
}

impl Workspace {
    /// Holds `a` as the approval the user is asked for, replacing any other.
    pub fn set_pending_approval(&mut self, a: PendingApproval)
        ensures
            *final(self) == (Workspace { pending: Some(a), ..*old(self) }),
    {
        self.pending = Some(a);
    }

    pub fn clear_pending_approval(&mut self)
        ensures
            *final(self) == (Workspace { pending: None, ..*old(self) }),
    {
        self.pending = None;
    }

    pub fn pending_approval(&self) -> (r: Option<&PendingApproval>)
        ensures
            r == (match self.pending {
                Some(a) => Some(&a),
                None => None,
            }),
    {
        match &self.pending {
            Some(a) => Some(a),
            None => None,
        }
    }
}

} // verus!
