//! The Unicode normalization forms.

use vstd::prelude::*;

verus! {

/// A Unicode normalization form.
#[derive(Clone, Copy, Debug, PartialEq, Eq, Structural)]
pub enum NormalizationForm {
    /// Canonical decomposition, then canonical composition.
    NFC,
    /// Compatibility decomposition, then canonical composition.
    NFKC,
    /// Canonical decomposition.
    NFD,
    /// Compatibility decomposition.
    NFKD,
}

} // verus!
