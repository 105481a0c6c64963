//! Which private cross-signing keys are held locally.
use vstd::prelude::*;

verus! {

/// The state of the private cross-signing keys as the crypto store reports
/// it: one flag per key.
#[derive(Clone, Copy, Debug, PartialEq, Eq, Structural)]
pub struct OlmCrossSigningStatus {
    /// Whether the master key is stored locally.
    pub has_master: bool,
    /// Whether the self-signing key is stored locally.
    pub has_self_signing: bool,
    /// Whether the user-signing key is stored locally.
    pub has_user_signing: bool,
}

/// Struct representing the state of our private cross signing keys,
/// it shows which private cross signing keys we have locally stored.
#[derive(Clone, Copy, Debug)]
pub struct CrossSigningStatus {
    inner: OlmCrossSigningStatus,
}

impl View for CrossSigningStatus {
    type V = OlmCrossSigningStatus;

    closed spec fn view(&self) -> OlmCrossSigningStatus {
        self.inner
    }
}

impl From<OlmCrossSigningStatus> for CrossSigningStatus {
    fn from(inner: OlmCrossSigningStatus) -> (status: Self) {
        CrossSigningStatus { inner }
    }
}

impl vstd::std_specs::convert::FromSpecImpl<OlmCrossSigningStatus> for CrossSigningStatus {
    open spec fn obeys_from_spec() -> bool {
        true
    }

    closed spec fn from_spec(inner: OlmCrossSigningStatus) -> Self {
        CrossSigningStatus { inner }
    }
}

impl CrossSigningStatus {
    /// Do we have the master key.
    pub fn has_master(&self) -> (b: bool)
        ensures
            b == self@.has_master,
    {
        self.inner.has_master
    }

    /// Do we have the self signing key, this one is necessary to sign
    /// our own devices.
    pub fn has_self_signing(&self) -> (b: bool)
        ensures
            b == self@.has_self_signing,
    {
        self.inner.has_self_signing
    }

    /// Do we have the user signing key, this one is necessary to sign
    /// other users.
    pub fn has_user_signing(&self) -> (b: bool)
        ensures
            b == self@.has_user_signing,
    {
        self.inner.has_user_signing
    }
}

/// Converting a key status keeps every flag: the status built from `inner`
/// reports exactly the keys that `inner` reports.
pub proof fn lemma_from_keeps_flags(inner: OlmCrossSigningStatus)
    ensures
        <CrossSigningStatus as vstd::std_specs::convert::FromSpec<OlmCrossSigningStatus>>::from_spec(inner)@ == inner,
{
}

} // verus!
