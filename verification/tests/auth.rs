use directory::auth::{AuthResult, DkimResult, DmarcResult, IprevResult, Policy, SpfResult};

#[test]
fn spf_tokens() {
    assert_eq!(SpfResult::Pass.as_str(), "pass");
    assert_eq!(SpfResult::Fail.as_str(), "fail");
    assert_eq!(SpfResult::SoftFail.as_str(), "softfail");
    assert_eq!(SpfResult::Neutral.as_str(), "neutral");
    assert_eq!(SpfResult::NoRecord.as_str(), "none");
    assert_eq!(SpfResult::TempError.as_str(), "temperror");
    assert_eq!(SpfResult::PermError.as_str(), "permerror");
}

#[test]
fn iprev_tokens() {
    assert_eq!(IprevResult::Pass.as_str(), "pass");
    assert_eq!(IprevResult::Fail.as_str(), "fail");
    assert_eq!(IprevResult::TempError.as_str(), "temperror");
    assert_eq!(IprevResult::PermError.as_str(), "permerror");
    assert_eq!(IprevResult::NoRecord.as_str(), "none");
}

#[test]
fn dkim_tokens() {
    assert_eq!(DkimResult::Pass.as_str(), "pass");
    assert_eq!(DkimResult::NoSignature.as_str(), "none");
    assert_eq!(DkimResult::Neutral.as_str(), "neutral");
    assert_eq!(DkimResult::Fail.as_str(), "fail");
    assert_eq!(DkimResult::PermError.as_str(), "permerror");
    assert_eq!(DkimResult::TempError.as_str(), "temperror");
}

#[test]
fn dmarc_tokens() {
    assert_eq!(DmarcResult::Pass.as_str(), "pass");
    assert_eq!(DmarcResult::Fail.as_str(), "fail");
    assert_eq!(DmarcResult::TempError.as_str(), "temperror");
    assert_eq!(DmarcResult::PermError.as_str(), "permerror");
    assert_eq!(DmarcResult::NoRecord.as_str(), "none");
}

#[test]
fn policy_tokens() {
    assert_eq!(Policy::Reject.as_str(), "reject");
    assert_eq!(Policy::Quarantine.as_str(), "quarantine");
    assert_eq!(Policy::NoAction.as_str(), "none");
    assert_eq!(Policy::Unspecified.as_str(), "none");
}
