//! Access-control policy: unattended access versus asking the local user.
//!
//! For an operator, a host state and a requested mode the policy decides
//! whether to grant at once, prompt the person at the console, or deny.
use vstd::prelude::*;
use crate::text::{eq_ignore_ascii_case, eq_ignore_ascii_case_spec, string_from_str, append_str};

verus! {

#[derive(Debug, Clone, Copy, PartialEq, Eq, Structural)]
pub enum AccessMode {
    /// No console prompt; rely on policy and credentials.
    Unattended,
    /// Require the local user to approve.
    AskUser,
}

/// The outcome of evaluating an access request.
#[derive(Debug, Clone, PartialEq, Eq)]
pub enum AccessOutcome {
    Grant,
    Prompt,
    /// Refuse the connection, with a human-readable reason.
    Deny(String),
}

/// Configurable access policy for a host.
#[derive(Debug, Clone)]
pub struct AccessPolicy {
    /// Is unattended access permitted on this host at all?
    pub allow_unattended: bool,
    /// Operators explicitly allowed to connect unattended.
    pub unattended_allowlist: Vec<String>,
    /// Deny an attended request when nobody is at the console to answer it;
    /// when false, an absent user counts as consent.
    pub require_present_user_for_attended: bool,
}

/// The host state at the moment of the request.
#[derive(Debug, Clone, Copy, PartialEq, Eq, Structural)]
pub struct HostContext {
    pub local_user_present: bool,
}

/// What kind of answer the policy gives.
#[derive(Debug, Clone, Copy, PartialEq, Eq, Structural)]
pub enum Verdict {
    Grant,
    Prompt,
    Deny,
}

impl AccessOutcome {
    pub open spec fn verdict(self) -> Verdict {
        match self {
            AccessOutcome::Grant => Verdict::Grant,
            AccessOutcome::Prompt => Verdict::Prompt,
            AccessOutcome::Deny(_) => Verdict::Deny,
        }
    }
}

impl AccessPolicy {
    /// Whether `operator` is on the unattended allow-list, ignoring ASCII case.
    pub open spec fn allowlisted(self, operator: Seq<char>) -> bool {
        exists|i: int| 0 <= i < self.unattended_allowlist@.len()
            && eq_ignore_ascii_case_spec(self.unattended_allowlist@[i]@, operator)
    }

    /// The verdict for a request.
    pub open spec fn decide(self, operator: Seq<char>, mode: AccessMode, ctx: HostContext) -> Verdict {
        match mode {
            AccessMode::Unattended => if self.allow_unattended && self.allowlisted(operator) {
                Verdict::Grant
            } else {
                Verdict::Deny
            },
            AccessMode::AskUser => if ctx.local_user_present {
                Verdict::Prompt
            } else if self.require_present_user_for_attended {
                Verdict::Deny
            } else {
                Verdict::Grant
            },
        }
    }

    /// The reason given with a denial.
    pub open spec fn deny_reason(self, operator: Seq<char>, mode: AccessMode) -> Seq<char> {
        match mode {
            AccessMode::Unattended => if !self.allow_unattended {
                "Unattended access is disabled on this host"@
            } else {
                "Operator '"@ + operator + "' is not on the unattended allow-list"@
            },
            AccessMode::AskUser => "No local user is present to approve the connection"@,
        }
    }

    fn is_allowlisted(&self, operator: &str) -> (r: bool)
        ensures
            r == self.allowlisted(operator@),
    {
        let mut i: usize = 0;
        while i < self.unattended_allowlist.len()
            invariant
                i <= self.unattended_allowlist@.len(),
                forall|j: int| 0 <= j < i ==> !eq_ignore_ascii_case_spec(self.unattended_allowlist@[j]@, operator@),
            decreases self.unattended_allowlist.len() - i,
        {
            if eq_ignore_ascii_case(self.unattended_allowlist[i].as_str(), operator) {
                return true;
            }
            i = i + 1;
        }
        false
    }

    /// Decide what to do with an access request.
    pub fn evaluate(&self, operator: &str, mode: AccessMode, ctx: HostContext) -> (r: AccessOutcome)
        ensures
            r.verdict() == self.decide(operator@, mode, ctx),
            r matches AccessOutcome::Deny(m) ==> m@ == self.deny_reason(operator@, mode),
    {
        match mode {
            AccessMode::Unattended => {
                if !self.allow_unattended {
                    return AccessOutcome::Deny(string_from_str("Unattended access is disabled on this host"));
                }
                if self.is_allowlisted(operator) {
                    AccessOutcome::Grant
                } else {
                    let mut m = string_from_str("Operator '");
                    append_str(&mut m, operator);
                    append_str(&mut m, "' is not on the unattended allow-list");
                    AccessOutcome::Deny(m)
                }
            },
            AccessMode::AskUser => {
                if ctx.local_user_present {
                    AccessOutcome::Prompt
                } else if self.require_present_user_for_attended {
                    AccessOutcome::Deny(string_from_str("No local user is present to approve the connection"))
                } else {
                    AccessOutcome::Grant
                }
            },
        }
    }
}

impl Default for AccessPolicy {
    /// The secure default: attended only, empty allow-list, and attended
    /// requests refused when nobody is at the console.
    fn default() -> (p: AccessPolicy)
        ensures
            !p.allow_unattended,
            p.unattended_allowlist@.len() == 0,
            p.require_present_user_for_attended,
    {
        AccessPolicy {
            allow_unattended: false,
            unattended_allowlist: Vec::new(),
            require_present_user_for_attended: true,
        }
    }

}

/// Under the default policy nothing is ever granted without a prompt.
pub proof fn lemma_default_never_grants(p: AccessPolicy, operator: Seq<char>, mode: AccessMode, ctx: HostContext)
    requires
        !p.allow_unattended,
        p.require_present_user_for_attended,
    ensures
        p.decide(operator, mode, ctx) != Verdict::Grant,
{
}

/// Unattended access is granted only to an allow-listed operator on a host
/// that permits it, and never depends on whether a user is present.
pub proof fn lemma_unattended_grant(p: AccessPolicy, operator: Seq<char>, ctx: HostContext, ctx2: HostContext)
    ensures
        p.decide(operator, AccessMode::Unattended, ctx) == Verdict::Grant
            <==> (p.allow_unattended && p.allowlisted(operator)),
        p.decide(operator, AccessMode::Unattended, ctx) == p.decide(operator, AccessMode::Unattended, ctx2),
{
}

/// An attended request prompts exactly when a local user is present.
pub proof fn lemma_attended_prompts_iff_present(p: AccessPolicy, operator: Seq<char>, ctx: HostContext)
    ensures
        p.decide(operator, AccessMode::AskUser, ctx) == Verdict::Prompt <==> ctx.local_user_present,
        p.decide(operator, AccessMode::Unattended, ctx) != Verdict::Prompt,
{
}

}
