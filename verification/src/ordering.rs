//! The order of versions: by major number, then minor, then patch.

use vstd::prelude::*;

use core::cmp::Ordering;

use crate::version::Version;
use vstd::std_specs::cmp::PartialOrdSpec;

verus! {

/// Compares two numbers.
pub open spec fn number_order(a: u32, b: u32) -> Ordering {
    if a < b {
        Ordering::Less
    } else if a == b {
        Ordering::Equal
    } else {
        Ordering::Greater
    }
}

/// Compares two versions: the first number that differs decides.
pub open spec fn version_order(a: (u32, u32, u32), b: (u32, u32, u32)) -> Ordering {
    if a.0 != b.0 {
        number_order(a.0, b.0)
    } else if a.1 != b.1 {
        number_order(a.1, b.1)
    } else {
        number_order(a.2, b.2)
    }
}

/// The opposite answer.
pub open spec fn reversed(o: Ordering) -> Ordering {
    match o {
        Ordering::Less => Ordering::Greater,
        Ordering::Equal => Ordering::Equal,
        Ordering::Greater => Ordering::Less,
    }
}

impl PartialOrd for Version {
    fn partial_cmp(&self, other: &Self) -> (r: Option<Ordering>) {
        proof {
            self.lemma_view_fields();
            other.lemma_view_fields();
        }
        let (a, b) = if self.major != other.major {
            (self.major, other.major)
        } else if self.minor != other.minor {
            (self.minor, other.minor)
        } else {
            (self.patch, other.patch)
        };
        if a < b {
            Some(Ordering::Less)
        } else if a == b {
            Some(Ordering::Equal)
        } else {
            Some(Ordering::Greater)
        }
    }
}

impl vstd::std_specs::cmp::PartialOrdSpecImpl for Version {
    open spec fn obeys_partial_cmp_spec() -> bool {
        true
    }

    open spec fn partial_cmp_spec(&self, other: &Self) -> Option<Ordering> {
        Some(version_order(self@, other@))
    }
}

/// Two versions compare equal exactly when they are the same version.
pub proof fn lemma_order_equal_iff_same(a: (u32, u32, u32), b: (u32, u32, u32))
    ensures
        (version_order(a, b) == Ordering::Equal) <==> a == b,
{
}

/// Swapping the two versions reverses the answer.
pub proof fn lemma_order_antisymmetric(a: (u32, u32, u32), b: (u32, u32, u32))
    ensures
        version_order(b, a) == reversed(version_order(a, b)),
{
}

/// If `a` comes before `b` and `b` before `c`, then `a` comes before `c`.
pub proof fn lemma_order_transitive(
    a: (u32, u32, u32),
    b: (u32, u32, u32),
    c: (u32, u32, u32),
)
    requires
        version_order(a, b) == Ordering::Less,
        version_order(b, c) == Ordering::Less,
    ensures
        version_order(a, c) == Ordering::Less,
{
}

/// A version comes before another exactly when its major number is smaller,
/// or the major numbers agree and its minor number is smaller, or both agree
/// and its patch number is smaller; it comes after in the mirrored case, and
/// it compares equal only to the same three numbers.
pub proof fn lemma_version_order_numeric(a: Version, b: Version)
    ensures
        a.partial_cmp_spec(&b) == Some(Ordering::Less) <==> (a@.0 < b@.0 || (a@.0 == b@.0 && a@.1
            < b@.1) || (a@.0 == b@.0 && a@.1 == b@.1 && a@.2 < b@.2)),
        a.partial_cmp_spec(&b) == Some(Ordering::Greater) <==> (a@.0 > b@.0 || (a@.0 == b@.0
            && a@.1 > b@.1) || (a@.0 == b@.0 && a@.1 == b@.1 && a@.2 > b@.2)),
        a.partial_cmp_spec(&b) == Some(Ordering::Equal) <==> a@ == b@,
{
}

} // verus!
