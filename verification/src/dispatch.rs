//! Workgroup counts of compute dispatches.

use vstd::prelude::*;

verus! {

/// Workgroups launched for `items` invocations of `size` threads each:
/// enough to cover every invocation, and at least one.
pub open spec fn workgroups_for(items: int, size: int) -> int {
    if items == 0 {
        1
    } else {
        (items + size - 1) / size
    }
}

/// `ceil(items / workgroup_size)`, and one when there are no items.
pub fn workgroup_count(items: u32, workgroup_size: u32) -> (groups: u32)
    requires
        workgroup_size > 0,
    ensures
        groups == workgroups_for(items as int, workgroup_size as int),
        groups >= 1,
        groups * workgroup_size >= items,
        items > 0 ==> (groups - 1) * workgroup_size < items,
{
    if items == 0 {
        1
    } else {
        let whole = items / workgroup_size;
        let groups = if items % workgroup_size == 0 {
            whole
        } else {
            assert(whole < u32::MAX) by (nonlinear_arith)
                requires
                    whole == items / workgroup_size,
                    items % workgroup_size != 0,
                    workgroup_size > 0,
            ;
            whole + 1
        };
        proof {
            let n = items as int;
            let w = workgroup_size as int;
            let q = n / w;
            let r = n % w;
            let target = (n + w - 1) / w;
            assert(n == q * w + r && 0 <= r < w) by (nonlinear_arith)
                requires
                    w > 0,
                    q == n / w,
                    r == n % w,
            ;
            if r == 0 {
                assert(target == q && q >= 1 && (q - 1) * w < n) by (nonlinear_arith)
                    requires
                        n == q * w,
                        n > 0,
                        w > 0,
                        target == (n + w - 1) / w,
                ;
            } else {
                assert(target == q + 1 && (q + 1) * w >= n && q * w < n) by (nonlinear_arith)
                    requires
                        n == q * w + r,
                        0 < r < w,
                        target == (n + w - 1) / w,
                ;
            }
        }
        groups
    }
}

} // verus!
