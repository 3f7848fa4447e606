//! Equality and order of identifiers: those of their numbers.

use vstd::prelude::*;
use vstd::std_specs::cmp::{PartialEqSpecImpl, PartialOrdSpecImpl};
use crate::magnitude::{
    be_value, is_minimal, lemma_be_value_bound, lemma_be_value_concat, lemma_leading_byte_bound,
    lemma_pow256_monotonic, pow256,
};
use crate::types::{AccountId, UniqueAssetId};
use std::cmp::Ordering;

verus! {

/// How one number stands to another.
#[derive(Clone, Copy, Debug, PartialEq, Eq, Structural)]
pub enum Standing {
    Below,
    Same,
    Above,
}

/// How `a` stands to `b`.
pub open spec fn standing(a: nat, b: nat) -> Standing {
    if a < b {
        Standing::Below
    } else if a == b {
        Standing::Same
    } else {
        Standing::Above
    }
}

/// Of two byte strings of one length that agree before index `i`, the one
/// with the smaller byte at `i` spells the smaller number.
pub proof fn lemma_first_difference_decides(a: Seq<u8>, b: Seq<u8>, i: int)
    requires
        a.len() == b.len(),
        0 <= i < a.len(),
        a.subrange(0, i) == b.subrange(0, i),
        a[i] < b[i],
    ensures
        be_value(a) < be_value(b),
{
    let n = a.len() as int;
    let head_a = a.subrange(0, i + 1);
    let head_b = b.subrange(0, i + 1);
    let tail_a = a.subrange(i + 1, n);
    let tail_b = b.subrange(i + 1, n);
    assert(a == head_a + tail_a);
    assert(b == head_b + tail_b);
    lemma_be_value_concat(head_a, tail_a);
    lemma_be_value_concat(head_b, tail_b);
    lemma_be_value_bound(tail_a);
    assert(head_a.drop_last() == a.subrange(0, i));
    assert(head_b.drop_last() == b.subrange(0, i));
    assert(head_a.last() == a[i]);
    assert(head_b.last() == b[i]);
    let x = be_value(head_a);
    let y = be_value(head_b);
    let p = pow256(tail_a.len());
    assert(x + 1 <= y);
    assert(x * p + p <= y * p) by (nonlinear_arith)
        requires
            x + 1 <= y,
            p >= 0,
    ;
}

/// Of two byte strings in shortest form, the shorter spells the smaller
/// number.
pub proof fn lemma_shorter_is_smaller(a: Seq<u8>, b: Seq<u8>)
    requires
        is_minimal(a),
        is_minimal(b),
        a.len() < b.len(),
    ensures
        be_value(a) < be_value(b),
{
    lemma_be_value_bound(a);
    lemma_leading_byte_bound(b);
    lemma_pow256_monotonic(a.len(), (b.len() - 1) as nat);
}

/// How the numbers that `a` and `b` spell stand to each other, both being
/// in shortest form.
pub fn standing_of_minimal(a: &Vec<u8>, b: &Vec<u8>) -> (r: Standing)
    requires
        is_minimal(a@),
        is_minimal(b@),
    ensures
        r == standing(be_value(a@), be_value(b@)),
{
    if a.len() < b.len() {
        proof {
            lemma_shorter_is_smaller(a@, b@);
        }
        return Standing::Below;
    }
    if a.len() > b.len() {
        proof {
            lemma_shorter_is_smaller(b@, a@);
        }
        return Standing::Above;
    }
    let n = a.len();
    let mut i: usize = 0;
    while i < n
        invariant
            i <= n,
            n == a@.len(),
            n == b@.len(),
            a@.subrange(0, i as int) == b@.subrange(0, i as int),
        decreases n - i,
    {
        if a[i] < b[i] {
            proof {
                lemma_first_difference_decides(a@, b@, i as int);
            }
            return Standing::Below;
        }
        if a[i] > b[i] {
            proof {
                lemma_first_difference_decides(b@, a@, i as int);
            }
            return Standing::Above;
        }
        assert(a@.subrange(0, i + 1) == a@.subrange(0, i as int).push(a@[i as int]));
        assert(b@.subrange(0, i + 1) == b@.subrange(0, i as int).push(b@[i as int]));
        i = i + 1;
    }
    assert(a@ == a@.subrange(0, n as int));
    assert(b@ == b@.subrange(0, n as int));
    Standing::Same
}

impl PartialEq for UniqueAssetId {
    fn eq(&self, other: &Self) -> (r: bool) {
        match standing_of_minimal(self.as_bytes(), other.as_bytes()) {
            Standing::Same => true,
            _ => false,
        }
    }
}

impl PartialEqSpecImpl for UniqueAssetId {
    open spec fn obeys_eq_spec() -> bool {
        true
    }

    open spec fn eq_spec(&self, other: &Self) -> bool {
        self@ == other@
    }
}

impl Eq for UniqueAssetId {

}

impl PartialOrd for UniqueAssetId {
    fn partial_cmp(&self, other: &Self) -> (r: Option<Ordering>) {
        match standing_of_minimal(self.as_bytes(), other.as_bytes()) {
            Standing::Below => Some(Ordering::Less),
            Standing::Same => Some(Ordering::Equal),
            Standing::Above => Some(Ordering::Greater),
        }
    }
}

impl PartialOrdSpecImpl for UniqueAssetId {
    open spec fn obeys_partial_cmp_spec() -> bool {
        true
    }

    open spec fn partial_cmp_spec(&self, other: &Self) -> Option<Ordering> {
        if self@ < other@ {
            Some(Ordering::Less)
        } else if self@ == other@ {
            Some(Ordering::Equal)
        } else {
            Some(Ordering::Greater)
        }
    }
}

impl PartialEq for AccountId {
    fn eq(&self, other: &Self) -> (r: bool) {
        match standing_of_minimal(self.as_bytes(), other.as_bytes()) {
            Standing::Same => true,
            _ => false,
        }
    }
}

impl PartialEqSpecImpl for AccountId {
    open spec fn obeys_eq_spec() -> bool {
        true
    }

    open spec fn eq_spec(&self, other: &Self) -> bool {
        self@ == other@
    }
}

impl Eq for AccountId {

}

impl PartialOrd for AccountId {
    fn partial_cmp(&self, other: &Self) -> (r: Option<Ordering>) {
        match standing_of_minimal(self.as_bytes(), other.as_bytes()) {
            Standing::Below => Some(Ordering::Less),
            Standing::Same => Some(Ordering::Equal),
            Standing::Above => Some(Ordering::Greater),
        }
    }
}

impl PartialOrdSpecImpl for AccountId {
    open spec fn obeys_partial_cmp_spec() -> bool {
        true
    }

    open spec fn partial_cmp_spec(&self, other: &Self) -> Option<Ordering> {
        if self@ < other@ {
            Some(Ordering::Less)
        } else if self@ == other@ {
            Some(Ordering::Equal)
        } else {
            Some(Ordering::Greater)
        }
    }
}

} // verus!
