//! The number of elements of the data unit, from the sizes of its axes.
use crate::error::Error;
use crate::primary_header::PrimaryHeader;
use vstd::prelude::*;

verus! {

/// The product of the sizes `axes`. With no axis it is 1: the data unit is
/// a single element.
pub open spec fn spec_num_items(axes: Seq<usize>) -> nat
    decreases axes.len(),
{
    if axes.len() == 0 {
        1
    } else {
        spec_num_items(axes.drop_last()) * axes.last() as nat
    }
}

/// The number of elements of a data unit with the axes `axes`, or an
/// overflow where that number does not fit a `usize`.
pub open spec fn spec_resolve(axes: Seq<usize>) -> Result<usize, Error> {
    if spec_num_items(axes) <= usize::MAX {
        Ok(spec_num_items(axes) as usize)
    } else {
        Err(Error::Overflow)
    }
}

/// One more axis multiplies the number of elements by its size.
pub proof fn lemma_num_items_push(axes: Seq<usize>, size: usize)
    ensures
        spec_num_items(axes.push(size)) == spec_num_items(axes) * size as nat,
{
    assert(axes.push(size).drop_last() =~= axes);
}

/// An axis of size 0 leaves no element, whatever the other axes are.
pub proof fn lemma_num_items_zero(axes: Seq<usize>, axis: int)
    requires
        0 <= axis < axes.len(),
        axes[axis] == 0,
    ensures
        spec_num_items(axes) == 0,
    decreases axes.len(),
{
    if axis < axes.len() - 1 {
        lemma_num_items_zero(axes.drop_last(), axis);
        assert(0 * axes.last() as nat == 0);
    } else {
        assert(spec_num_items(axes.drop_last()) * 0 == 0) by (nonlinear_arith);
    }
}

/// Where no axis has size 0, the first `count` axes hold no more elements
/// than all of them.
pub proof fn lemma_num_items_grows(axes: Seq<usize>, count: int)
    requires
        0 <= count <= axes.len(),
        forall|i: int| 0 <= i < axes.len() ==> #[trigger] axes[i] >= 1,
    ensures
        1 <= spec_num_items(axes.take(count)) <= spec_num_items(axes),
    decreases axes.len() - count,
{
    if count == 0 {
        assert(axes.take(0) =~= Seq::<usize>::empty());
        lemma_num_items_positive(axes);
    } else if count == axes.len() {
        assert(axes.take(count) =~= axes);
        lemma_num_items_positive(axes);
    } else {
        lemma_num_items_grows(axes, count + 1);
        assert(axes.take(count + 1) =~= axes.take(count).push(axes[count]));
        lemma_num_items_push(axes.take(count), axes[count]);
        lemma_num_items_positive(axes.take(count));
        let before = spec_num_items(axes.take(count));
        let factor = axes[count] as nat;
        assert(before <= before * factor) by (nonlinear_arith)
            requires
                factor >= 1,
        ;
    }
}

/// Where no axis has size 0, there is at least one element.
pub proof fn lemma_num_items_positive(axes: Seq<usize>)
    requires
        forall|i: int| 0 <= i < axes.len() ==> #[trigger] axes[i] >= 1,
    ensures
        spec_num_items(axes) >= 1,
    decreases axes.len(),
{
    if axes.len() > 0 {
        lemma_num_items_positive(axes.drop_last());
        let before = spec_num_items(axes.drop_last());
        let factor = axes.last() as nat;
        assert(before * factor >= 1) by (nonlinear_arith)
            requires
                before >= 1,
                factor >= 1,
        ;
    }
}

/// The number of elements of the data unit that `header` describes: the
/// product of the sizes of its axes, which is 1 where it has none.
pub fn num_items(header: &PrimaryHeader) -> (res: Result<usize, Error>)
    ensures
        res == spec_resolve(header@.axes),
{
    let naxis = header.get_naxis();
    let mut idx: usize = 0;
    while idx < naxis
        invariant
            idx <= naxis == header@.axes.len(),
            forall|i: int| 0 <= i < idx ==> #[trigger] header@.axes[i] >= 1,
        decreases naxis - idx,
    {
        idx = idx + 1;
        match header.get_axis_size(idx) {
            Some(size) if size > 0 => {},
            _ => {
                proof {
                    lemma_num_items_zero(header@.axes, idx - 1);
                }
                return Ok(0);
            },
        }
    }
    let mut total: usize = 1;
    idx = 0;
    while idx < naxis
        invariant
            idx <= naxis == header@.axes.len(),
            forall|i: int| 0 <= i < naxis ==> #[trigger] header@.axes[i] >= 1,
            total == spec_num_items(header@.axes.take(idx as int)),
        decreases naxis - idx,
    {
        idx = idx + 1;
        let size = match header.get_axis_size(idx) {
            Some(size) => size,
            None => 1,
        };
        proof {
            assert(header@.axes.take(idx as int) =~= header@.axes.take(idx - 1).push(size));
            lemma_num_items_push(header@.axes.take(idx - 1), size);
        }
        total =
        match total.checked_mul(size) {
            Some(total) => total,
            None => {
                proof {
                    lemma_num_items_grows(header@.axes, idx as int);
                }
                return Err(Error::Overflow);
            },
        };
    }
    proof {
        assert(header@.axes.take(naxis as int) =~= header@.axes);
    }
    Ok(total)
}

} // verus!
