use vstd::prelude::*;
use std::cmp::Ordering;
use crate::media::{star, MediaTypeView, QualityItem};
use crate::text::str_eq;

verus! {

/// 0 for the wildcard name `*`, 1 for any other name: a wildcard is less specific.
pub open spec fn specificity(name: Seq<char>) -> int {
    if name == star() {
        0
    } else {
        1
    }
}

/// Whether accepted item `a` ranks below `b`: by quality, then by the specificity of the type,
/// then of the subtype, then by the number of parameters.
pub open spec fn ranks_below(a: (u16, MediaTypeView), b: (u16, MediaTypeView)) -> bool {
    ||| a.0 < b.0
    ||| a.0 == b.0 && specificity(a.1.type_) < specificity(b.1.type_)
    ||| a.0 == b.0 && specificity(a.1.type_) == specificity(b.1.type_) && specificity(a.1.subtype)
        < specificity(b.1.subtype)
    ||| a.0 == b.0 && specificity(a.1.type_) == specificity(b.1.type_) && specificity(a.1.subtype)
        == specificity(b.1.subtype) && a.1.params.len() < b.1.params.len()
}

/// The rank of an accepted item.
pub open spec fn rank(q: QualityItem) -> (u16, MediaTypeView) {
    (q.quality, q.item@)
}

fn specificity_of(name: &String) -> (res: u8)
    ensures
        res == specificity(name@),
{
    proof {
        reveal_strlit("*");
        assert("*"@ =~= star());
    }
    if str_eq(name.as_str(), "*") {
        0
    } else {
        1
    }
}

/// Orders accepted items by quality and then by how specific they are.
pub fn quality_order(a: &QualityItem, b: &QualityItem) -> (res: Ordering)
    ensures
        (res == Ordering::Less) == ranks_below(rank(*a), rank(*b)),
        (res == Ordering::Greater) == ranks_below(rank(*b), rank(*a)),
{
    if a.quality < b.quality {
        return Ordering::Less;
    } else if a.quality > b.quality {
        return Ordering::Greater;
    }
    let (ta, tb) = (specificity_of(&a.item.type_), specificity_of(&b.item.type_));
    if ta < tb {
        return Ordering::Less;
    } else if ta > tb {
        return Ordering::Greater;
    }
    let (sa, sb) = (specificity_of(&a.item.subtype), specificity_of(&b.item.subtype));
    if sa < sb {
        return Ordering::Less;
    } else if sa > sb {
        return Ordering::Greater;
    }
    let (pa, pb) = (a.item.params.len(), b.item.params.len());
    if pa < pb {
        Ordering::Less
    } else if pa > pb {
        Ordering::Greater
    } else {
        Ordering::Equal
    }
}

/// Ranking accepted items is a strict order: no item ranks below itself, and ranking below
/// carries over from one item to the next.
pub proof fn lemma_ranks_below_strict_order(a: (u16, MediaTypeView), b: (u16, MediaTypeView), c: (u16, MediaTypeView))
    ensures
        !ranks_below(a, a),
        ranks_below(a, b) ==> !ranks_below(b, a),
        ranks_below(a, b) && ranks_below(b, c) ==> ranks_below(a, c),
{
}

/// An item of lower quality ranks below one of higher quality whatever their types; at equal
/// quality a wildcard type ranks below a named one, and at equal quality and type a wildcard
/// subtype ranks below a named one.
pub proof fn lemma_ranks_by_quality_then_specificity(q: u16, r: u16, a: MediaTypeView, b: MediaTypeView)
    ensures
        q < r ==> ranks_below((q, a), (r, b)) && !ranks_below((r, b), (q, a)),
        (a.type_ == star() && b.type_ != star()) ==> ranks_below((q, a), (q, b)),
        (a.type_ == b.type_ && a.subtype == star() && b.subtype != star()) ==> ranks_below((q, a), (q, b)),
        (a.type_ == b.type_ && a.subtype == b.subtype && a.params.len() == b.params.len()) ==> !ranks_below(
            (q, a),
            (q, b),
        ),
{
}

} // verus!
