//! Parameters state
//!
//! This module contains all the logic related to parameters management.

use super::session::SessionKind;
use crate::text::decimal;
use vstd::prelude::*;
use vstd::string::*;

verus! {

/// Parameters error.
#[derive(Debug, Clone, Copy, PartialEq, Eq, Structural)]
pub enum ParametersError {
    InvalidThreshold(u16),
    InvalidParties(u16),
}

impl ParametersError {
    /// The text of the error, as a sequence of characters.
    pub open spec fn message(self) -> Seq<char> {
        match self {
            ParametersError::InvalidThreshold(t) => "invalid threshold "@ + crate::text::decimal_text(
                t as nat,
            ),
            ParametersError::InvalidParties(n) => "invalid number of parties "@
                + crate::text::decimal_text(n as nat),
        }
    }

    /// Renders the error for a human reader.
    pub fn to_string(&self) -> (s: String)
        ensures
            s@ == self.message(),
    {
        match self {
            ParametersError::InvalidThreshold(t) => {
                let digits = decimal(*t);
                String::from_str("invalid threshold ").concat(digits.as_str())
            },
            ParametersError::InvalidParties(n) => {
                let digits = decimal(*n);
                String::from_str("invalid number of parties ").concat(digits.as_str())
            },
        }
    }
}

/// Parameters for the secret sharing scheme.
#[derive(Debug, Clone, Copy, PartialEq, Eq, Structural)]
pub struct Parameters {
    /// Number of parties `n`.
    n: u16,
    /// Threshold for the secret sharing scheme `t`.
    ///
    /// Threshold must be in range `0 < t < n`.
    /// `t + 1` shares are required for the secret sharing scheme.
    t: u16,
}

impl Parameters {
    /// The number of parties, in contracts.
    pub closed spec fn spec_n(&self) -> u16 {
        self.n
    }

    /// The threshold, in contracts.
    pub closed spec fn spec_t(&self) -> u16 {
        self.t
    }

    /// What validation says of a pair `(n, t)`: the number of parties is
    /// judged first, the threshold second.
    pub open spec fn check(n: u16, t: u16) -> Result<(), ParametersError> {
        if n < 2 {
            Err(ParametersError::InvalidParties(n))
        } else if t == 0 || t >= n {
            Err(ParametersError::InvalidThreshold(t))
        } else {
            Ok(())
        }
    }

    /// Holds of parameters with `n >= 2` and `0 < t < n`.
    pub open spec fn valid(&self) -> bool {
        self.n() >= 2 && 0 < self.t() < self.n()
    }

    /// Whether `parties` signed-up parties are enough for a session of `kind`:
    /// key generation needs all `n` of them, signing more than `t`.
    pub open spec fn quorum(&self, kind: SessionKind, parties: nat) -> bool {
        match kind {
            SessionKind::Keygen => parties == self.n(),
            SessionKind::Sign => parties > self.t(),
        }
    }

    /// Creates new parameters for the secret sharing scheme.
    ///
    /// # Errors
    ///
    /// * Returns an error if `n` is less than 2.
    /// * Returns an error if `t` is not in range `0 < t < n`.
    pub fn new(n: u16, t: u16) -> (r: Result<Self, ParametersError>)
        ensures
            match r {
                Ok(p) => Self::check(n, t) is Ok && p.n() == n && p.t() == t && p.valid(),
                Err(e) => Self::check(n, t) == Err::<(), ParametersError>(e),
            },
    {
        let params = Self { n, t };
        match params.validate() {
            Ok(()) => Ok(params),
            Err(e) => Err(e),
        }
    }

    /// Takes `n` and `t` as they come, valid or not; `validate` judges them.
    pub fn unchecked(n: u16, t: u16) -> (p: Self)
        ensures
            p.n() == n,
            p.t() == t,
    {
        Self { n, t }
    }

    /// Returns the number of parties `n`.
    #[verifier::when_used_as_spec(spec_n)]
    pub fn n(&self) -> (n: u16)
        ensures
            n == self.spec_n(),
    {
        self.n
    }

    /// Returns the threshold `t`.
    #[verifier::when_used_as_spec(spec_t)]
    pub fn t(&self) -> (t: u16)
        ensures
            t == self.spec_t(),
    {
        self.t
    }

    /// Checks if parameters are valid.
    pub fn validate(&self) -> (r: Result<(), ParametersError>)
        ensures
            r == Self::check(self.n(), self.t()),
            r is Ok <==> self.valid(),
    {
        if self.n < 2 {
            return Err(ParametersError::InvalidParties(self.n));
        }
        if self.t == 0 || self.t >= self.n {
            return Err(ParametersError::InvalidThreshold(self.t));
        }
        Ok(())
    }

    /// Returns boolean indicating if threshold has been reached.
    pub fn threshold_reached(&self, kind: SessionKind, parties: usize) -> (reached: bool)
        ensures
            reached == self.quorum(kind, parties as nat),
    {
        match kind {
            SessionKind::Keygen => parties == self.n as usize,
            SessionKind::Sign => parties > self.t as usize,
        }
    }
}

} // verus!
