//! Severity labels attached to fingerprint rules.

use std::cmp::Ordering;
use vstd::prelude::*;
use vstd::std_specs::cmp::PartialOrdSpecImpl;

verus! {

/// Operational importance of a rule, from least to most important:
/// `Low < Medium < High < Critical`.
///
/// The scan engine only carries the label from the store to the match; it
/// never filters or aggregates by it.
#[derive(Debug, Clone, Copy, PartialEq, Eq, Structural)]
pub enum Severity {
    Low,
    Medium,
    High,
    Critical,
}

impl Severity {
    /// Position of the label in the order, starting at 1 for `Low`.
    pub open spec fn rank(self) -> nat {
        match self {
            Severity::Low => 1,
            Severity::Medium => 2,
            Severity::High => 3,
            Severity::Critical => 4,
        }
    }

    /// The numeric level of the label: 1 for `Low` up to 4 for `Critical`.
    pub fn level(self) -> (n: u8)
        ensures
            n == self.rank(),
    {
        match self {
            Severity::Low => 1,
            Severity::Medium => 2,
            Severity::High => 3,
            Severity::Critical => 4,
        }
    }

    /// The label with the given numeric level, if there is one.
    pub fn from_level(n: u8) -> (label: Option<Severity>)
        ensures
            label is Some <==> 1 <= n <= 4,
            label matches Some(s) ==> s.rank() == n,
    {
        if n == 1 {
            Some(Severity::Low)
        } else if n == 2 {
            Some(Severity::Medium)
        } else if n == 3 {
            Some(Severity::High)
        } else if n == 4 {
            Some(Severity::Critical)
        } else {
            None
        }
    }

    /// How `self` stands to `other` in the order of ranks.
    pub open spec fn order(self, other: Severity) -> Ordering {
        if self.rank() < other.rank() {
            Ordering::Less
        } else if self.rank() == other.rank() {
            Ordering::Equal
        } else {
            Ordering::Greater
        }
    }
}

impl PartialOrd for Severity {
    fn partial_cmp(&self, other: &Severity) -> (r: Option<Ordering>) {
        let a = self.level();
        let b = other.level();
        if a < b {
            Some(Ordering::Less)
        } else if a == b {
            Some(Ordering::Equal)
        } else {
            Some(Ordering::Greater)
        }
    }
}

impl PartialOrdSpecImpl for Severity {
    open spec fn obeys_partial_cmp_spec() -> bool {
        true
    }

    open spec fn partial_cmp_spec(&self, other: &Severity) -> Option<Ordering> {
        Some(self.order(*other))
    }
}

/// Two labels with the same rank are the same label.
pub proof fn lemma_rank_injective(a: Severity, b: Severity)
    requires
        a.rank() == b.rank(),
    ensures
        a == b,
{
}

/// The order on labels is total: any two labels are comparable, and exactly
/// one of "less", "equal" and "greater" holds between them.
pub proof fn lemma_order_total(a: Severity, b: Severity)
    ensures
        a.order(b) == Ordering::Less <==> b.order(a) == Ordering::Greater,
        a.order(b) == Ordering::Equal <==> a == b,
{
}

/// The order on labels is transitive.
pub proof fn lemma_order_transitive(a: Severity, b: Severity, c: Severity)
    requires
        a.order(b) == Ordering::Less,
        b.order(c) == Ordering::Less,
    ensures
        a.order(c) == Ordering::Less,
{
}

} // verus!
