//! Results of the message authentication checks, as far as the directory
//! layer reads them: which of a few outcomes a check had. Why a check failed
//! is not kept; callers that need the reason ask the subsystem that ran the
//! check.

use vstd::prelude::*;

verus! {

/// A result that reduces to one word of the `Authentication-Results`
/// vocabulary.
pub trait AuthResult {
    /// The word that the result reduces to.
    spec fn token(&self) -> Seq<char>;

    fn as_str(&self) -> (word: &'static str)
        ensures
            word@ == self.token(),
    ;
}

/// Outcome of an SPF check.
#[derive(Debug, Clone, Copy, PartialEq, Eq, Hash, Structural)]
pub enum SpfResult {
    Pass,
    Fail,
    SoftFail,
    Neutral,
    NoRecord,
    TempError,
    PermError,
}

/// Outcome of the check that the address of a client resolves back to it.
#[derive(Debug, Clone, Copy, PartialEq, Eq, Hash, Structural)]
pub enum IprevResult {
    Pass,
    Fail,
    TempError,
    PermError,
    NoRecord,
}

/// Outcome of the verification of a DKIM signature.
#[derive(Debug, Clone, Copy, PartialEq, Eq, Hash, Structural)]
pub enum DkimResult {
    Pass,
    NoSignature,
    Neutral,
    Fail,
    PermError,
    TempError,
}

/// Outcome of a DMARC evaluation.
#[derive(Debug, Clone, Copy, PartialEq, Eq, Hash, Structural)]
pub enum DmarcResult {
    Pass,
    Fail,
    TempError,
    PermError,
    NoRecord,
}

/// What a DMARC record asks receivers to do with mail that fails.
#[derive(Debug, Clone, Copy, PartialEq, Eq, Hash, Structural)]
pub enum Policy {
    Reject,
    Quarantine,
    NoAction,
    Unspecified,
}

impl AuthResult for SpfResult {
    open spec fn token(&self) -> Seq<char> {
        match self {
            SpfResult::Pass => "pass"@,
            SpfResult::Fail => "fail"@,
            SpfResult::SoftFail => "softfail"@,
            SpfResult::Neutral => "neutral"@,
            SpfResult::NoRecord => "none"@,
            SpfResult::TempError => "temperror"@,
            SpfResult::PermError => "permerror"@,
        }
    }

    fn as_str(&self) -> (word: &'static str) {
        match self {
            SpfResult::Pass => "pass",
            SpfResult::Fail => "fail",
            SpfResult::SoftFail => "softfail",
            SpfResult::Neutral => "neutral",
            SpfResult::NoRecord => "none",
            SpfResult::TempError => "temperror",
            SpfResult::PermError => "permerror",
        }
    }
}

impl AuthResult for IprevResult {
    open spec fn token(&self) -> Seq<char> {
        match self {
            IprevResult::Pass => "pass"@,
            IprevResult::Fail => "fail"@,
            IprevResult::TempError => "temperror"@,
            IprevResult::PermError => "permerror"@,
            IprevResult::NoRecord => "none"@,
        }
    }

    fn as_str(&self) -> (word: &'static str) {
        match self {
            IprevResult::Pass => "pass",
            IprevResult::Fail => "fail",
            IprevResult::TempError => "temperror",
            IprevResult::PermError => "permerror",
            IprevResult::NoRecord => "none",
        }
    }
}

impl AuthResult for DkimResult {
    open spec fn token(&self) -> Seq<char> {
        match self {
            DkimResult::Pass => "pass"@,
            DkimResult::NoSignature => "none"@,
            DkimResult::Neutral => "neutral"@,
            DkimResult::Fail => "fail"@,
            DkimResult::PermError => "permerror"@,
            DkimResult::TempError => "temperror"@,
        }
    }

    fn as_str(&self) -> (word: &'static str) {
        match self {
            DkimResult::Pass => "pass",
            DkimResult::NoSignature => "none",
            DkimResult::Neutral => "neutral",
            DkimResult::Fail => "fail",
            DkimResult::PermError => "permerror",
            DkimResult::TempError => "temperror",
        }
    }
}

impl AuthResult for DmarcResult {
    open spec fn token(&self) -> Seq<char> {
        match self {
            DmarcResult::Pass => "pass"@,
            DmarcResult::Fail => "fail"@,
            DmarcResult::TempError => "temperror"@,
            DmarcResult::PermError => "permerror"@,
            DmarcResult::NoRecord => "none"@,
        }
    }

    fn as_str(&self) -> (word: &'static str) {
        match self {
            DmarcResult::Pass => "pass",
            DmarcResult::Fail => "fail",
            DmarcResult::TempError => "temperror",
            DmarcResult::PermError => "permerror",
            DmarcResult::NoRecord => "none",
        }
    }
}

impl AuthResult for Policy {
    open spec fn token(&self) -> Seq<char> {
        match self {
            Policy::Reject => "reject"@,
            Policy::Quarantine => "quarantine"@,
            Policy::NoAction | Policy::Unspecified => "none"@,
        }
    }

    fn as_str(&self) -> (word: &'static str) {
        match self {
            Policy::Reject => "reject",
            Policy::Quarantine => "quarantine",
            Policy::NoAction | Policy::Unspecified => "none",
        }
    }
}

/// The words that a check can reduce to.
pub open spec fn is_result_word(word: Seq<char>) -> bool {
    word == "pass"@ || word == "fail"@ || word == "softfail"@ || word == "neutral"@ || word
        == "none"@ || word == "temperror"@ || word == "permerror"@
}

/// The words that a policy can reduce to.
pub open spec fn is_policy_word(word: Seq<char>) -> bool {
    word == "reject"@ || word == "quarantine"@ || word == "none"@
}

/// Every outcome of every check reduces to one of the seven result words,
/// and every policy to one of the three policy words.
pub proof fn lemma_results_reduce(
    spf: SpfResult,
    iprev: IprevResult,
    dkim: DkimResult,
    dmarc: DmarcResult,
    policy: Policy,
)
    ensures
        is_result_word(spf.token()),
        is_result_word(iprev.token()),
        is_result_word(dkim.token()),
        is_result_word(dmarc.token()),
        is_policy_word(policy.token()),
{
}

} // verus!
