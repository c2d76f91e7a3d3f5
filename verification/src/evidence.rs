//! Availability of an evidence section.
//!
//! Distinguishes measured empty/zero results from "not declared" / "not observable".
//! Never encode unknown as zero.
use vstd::prelude::*;

verus! {

/// Tagged evidence container. Prefer this over bare `Vec` / `Option`.
#[derive(Debug, PartialEq, Eq)]
pub enum EvidenceSection<T> {
    /// Section was requested and computed (payload may be empty if truly measured empty).
    Available { data: T },
    /// Project did not declare this evidence class (e.g. no routes).
    NotDeclared { reason: String },
    /// Declared as of interest, but observations/linkage are unavailable.
    NotObservable { reason: String },
}

impl<T> EvidenceSection<T> {
    pub fn available(data: T) -> (r: Self)
        ensures
            r == (EvidenceSection::Available { data }),
    {
        EvidenceSection::Available { data }
    }

    pub fn not_declared(reason: String) -> (r: Self)
        ensures
            r == (EvidenceSection::<T>::NotDeclared { reason }),
    {
        EvidenceSection::NotDeclared { reason }
    }

    pub fn not_observable(reason: String) -> (r: Self)
        ensures
            r == (EvidenceSection::<T>::NotObservable { reason }),
    {
        EvidenceSection::NotObservable { reason }
    }

    pub fn is_available(&self) -> (r: bool)
        ensures
            r == (*self is Available),
    {
        match self {
            EvidenceSection::Available { .. } => true,
            _ => false,
        }
    }
}

} // verus!
