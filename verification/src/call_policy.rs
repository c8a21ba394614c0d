//! How long a call to the ledger may take and how often it may be tried.
//!
//! Both limits are settings. They are held to their ranges here, and a caller
//! who makes a call asks the policy after each failure whether it may try
//! again.

use vstd::prelude::*;

verus! {

/// The longest time, in seconds, that can be allowed for one try.
pub const MAX_TIMEOUT_SECS: u64 = 20;

/// The largest number of tries that can be allowed for one call.
pub const MAX_ATTEMPTS: u64 = 20;

/// Why two numbers are no policy.
#[derive(Clone, Copy, Debug, PartialEq, Eq, Structural)]
pub enum PolicyError {
    /// More than `MAX_TIMEOUT_SECS` seconds were asked for.
    TimeoutTooLong,
    /// More than `MAX_ATTEMPTS` tries were asked for.
    TooManyAttempts,
}

/// The limits for a call to the ledger.
#[derive(Clone, Copy, Debug, PartialEq, Eq, Structural)]
pub struct CallPolicy {
    timeout_secs: u64,
    attempts: u64,
}

/// `CallPolicy` as plain values.
pub struct PolicyView {
    pub timeout_secs: nat,
    pub attempts: nat,
}

impl View for CallPolicy {
    type V = PolicyView;

    closed spec fn view(&self) -> PolicyView {
        PolicyView { timeout_secs: self.timeout_secs as nat, attempts: self.attempts as nat }
    }
}

impl PolicyView {
    /// Whether a call that has failed `failures` times may be tried once
    /// more: the tries, this one counted, must not be more than are allowed.
    pub open spec fn allows(self, failures: nat) -> bool {
        failures < self.attempts
    }
}

impl CallPolicy {
    #[verifier::type_invariant]
    spec fn within_limits(&self) -> bool {
        self.timeout_secs <= MAX_TIMEOUT_SECS && self.attempts <= MAX_ATTEMPTS
    }

    /// The policy that allows `timeout_secs` seconds for each of `attempts`
    /// tries. The time is looked at first.
    pub fn new(timeout_secs: u64, attempts: u64) -> (policy: Result<CallPolicy, PolicyError>)
        ensures
            match policy {
                Ok(policy) => {
                    &&& timeout_secs <= MAX_TIMEOUT_SECS
                    &&& attempts <= MAX_ATTEMPTS
                    &&& policy@.timeout_secs == timeout_secs
                    &&& policy@.attempts == attempts
                },
                Err(PolicyError::TimeoutTooLong) => timeout_secs > MAX_TIMEOUT_SECS,
                Err(PolicyError::TooManyAttempts) => timeout_secs <= MAX_TIMEOUT_SECS && attempts
                    > MAX_ATTEMPTS,
            },
    {
        if timeout_secs > MAX_TIMEOUT_SECS {
            Err(PolicyError::TimeoutTooLong)
        } else if attempts > MAX_ATTEMPTS {
            Err(PolicyError::TooManyAttempts)
        } else {
            Ok(CallPolicy { timeout_secs, attempts })
        }
    }

    /// The time allowed for one try, in seconds.
    pub fn timeout_secs(&self) -> (secs: u64)
        ensures
            secs == self@.timeout_secs,
            secs <= MAX_TIMEOUT_SECS,
    {
        proof {
            use_type_invariant(self);
        }
        self.timeout_secs
    }

    /// The number of tries allowed for one call.
    pub fn attempts(&self) -> (attempts: u64)
        ensures
            attempts == self@.attempts,
            attempts <= MAX_ATTEMPTS,
    {
        proof {
            use_type_invariant(self);
        }
        self.attempts
    }

    /// Tells whether a call that has failed `failures` times may be tried
    /// once more.
    pub fn allows(&self, failures: u64) -> (allowed: bool)
        ensures
            allowed == self@.allows(failures as nat),
    {
        failures < self.attempts
    }
}

} // verus!
