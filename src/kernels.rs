use vstd::prelude::*;
use vstd::utf8::encode_utf8;
use crate::column::{Int64Column, KernelError, Utf8Column};

verus! {

/// The sum of two 64-bit integers, wrapped modulo 2^64 into the signed range.
pub open spec fn wrapping_sum(a: i64, b: i64) -> i64 {
    if a + b > i64::MAX {
        (a + b - 0x1_0000_0000_0000_0000) as i64
    } else if a + b < i64::MIN {
        (a + b + 0x1_0000_0000_0000_0000) as i64
    } else {
        (a + b) as i64
    }
}

/// One row of an integer addition: null if either side is null.
pub open spec fn sum_entry(a: Option<i64>, b: Option<i64>) -> Option<i64> {
    match (a, b) {
        (Some(x), Some(y)) => Some(wrapping_sum(x, y)),
        _ => None,
    }
}

/// One row of a string addition: null if either side is null, else the concatenation.
pub open spec fn concat_entry(a: Option<Seq<char>>, b: Option<Seq<char>>) -> Option<Seq<char>> {
    match (a, b) {
        (Some(x), Some(y)) => Some(x + y),
        _ => None,
    }
}

/// Row-wise integer addition of two columns of equal length.
pub open spec fn int64_sum(a: Seq<Option<i64>>, b: Seq<Option<i64>>) -> Seq<Option<i64>> {
    Seq::new(a.len(), |i: int| sum_entry(a[i], b[i]))
}

/// Row-wise concatenation of two string columns of equal length.
pub open spec fn utf8_concat(a: Seq<Option<Seq<char>>>, b: Seq<Option<Seq<char>>>) -> Seq<
    Option<Seq<char>>,
> {
    Seq::new(a.len(), |i: int| concat_entry(a[i], b[i]))
}

/// The rows that a filter keeps: those selected by the mask, and every null row.
pub open spec fn filtered(v: Seq<Option<i64>>, mask: Seq<bool>) -> Seq<Option<i64>>
    decreases v.len(),
{
    if v.len() == 0 || mask.len() == 0 {
        Seq::empty()
    } else {
        let rest = filtered(v.drop_last(), mask.drop_last());
        if mask.last() || v.last() is None {
            rest.push(v.last())
        } else {
            rest
        }
    }
}

/// The UTF-8 byte length of each present string.
pub open spec fn byte_lengths(v: Seq<Option<Seq<char>>>) -> Seq<Option<i64>> {
    Seq::new(
        v.len(),
        |i: int|
            match v[i] {
                Some(s) => Some((encode_utf8(s).len() as usize) as i64),
                None => None,
            },
    )
}

/// Adds two integer columns row by row, wrapping on overflow; a null on either side gives null.
pub fn add_int64(lhs: &Int64Column, rhs: &Int64Column) -> (r: Result<Int64Column, KernelError>)
    requires
        lhs.wf(),
        rhs.wf(),
    ensures
        r is Ok <==> lhs@.len() == rhs@.len(),
        r is Ok ==> r->Ok_0.wf() && r->Ok_0@ == int64_sum(lhs@, rhs@),
        r is Err ==> r->Err_0 == KernelError::ShapeMismatch,
{
    let n = lhs.len();
    if n != rhs.len() {
        return Err(KernelError::ShapeMismatch);
    }
    let mut out: Vec<Option<i64>> = Vec::new();
    let mut i: usize = 0;
    while i < n
        invariant
            lhs.wf(),
            rhs.wf(),
            n == lhs@.len(),
            n == rhs@.len(),
            i <= n,
            out@ =~= int64_sum(lhs@, rhs@).subrange(0, i as int),
        decreases n - i,
    {
        let entry = match (lhs.get(i), rhs.get(i)) {
            (Some(x), Some(y)) => Some(x.wrapping_add(y)),
            _ => None,
        };
        out.push(entry);
        i += 1;
    }
    assert(out@ =~= int64_sum(lhs@, rhs@));
    Ok(Int64Column::from_options(&out))
}

/// Concatenates two string columns row by row; a null on either side gives null.
pub fn add_utf8(lhs: &Utf8Column, rhs: &Utf8Column) -> (r: Result<Utf8Column, KernelError>)
    requires
        lhs.wf(),
        rhs.wf(),
    ensures
        r is Ok <==> lhs@.len() == rhs@.len(),
        r is Ok ==> r->Ok_0.wf() && r->Ok_0@ == utf8_concat(lhs@, rhs@),
        r is Err ==> r->Err_0 == KernelError::ShapeMismatch,
{
    let n = lhs.len();
    if n != rhs.len() {
        return Err(KernelError::ShapeMismatch);
    }
    let mut out: Vec<Option<String>> = Vec::new();
    let mut i: usize = 0;
    while i < n
        invariant
            lhs.wf(),
            rhs.wf(),
            n == lhs@.len(),
            n == rhs@.len(),
            i <= n,
            out@.len() == i,
            forall|j: int|
                0 <= j < i ==> #[trigger] utf8_concat(lhs@, rhs@)[j] == match out@[j] {
                    Some(s) => Some(s@),
                    None => None,
                },
        decreases n - i,
    {
        let entry = match (lhs.get(i), rhs.get(i)) {
            (Some(x), Some(y)) => {
                let mut s = x;
                s.append(y.as_str());
                Some(s)
            },
            _ => None,
        };
        out.push(entry);
        i += 1;
    }
    let r = Utf8Column::from_options(&out);
    assert(r@ =~= utf8_concat(lhs@, rhs@));
    Ok(r)
}

/// Keeps the rows whose mask entry is true, and every null row, in order.
pub fn filter_int64(values: &Int64Column, mask: &Vec<bool>) -> (r: Result<Int64Column, KernelError>)
    requires
        values.wf(),
    ensures
        r is Ok <==> values@.len() == mask@.len(),
        r is Ok ==> r->Ok_0.wf() && r->Ok_0@ == filtered(values@, mask@),
        r is Err ==> r->Err_0 == KernelError::ShapeMismatch,
{
    let n = values.len();
    if n != mask.len() {
        return Err(KernelError::ShapeMismatch);
    }
    let mut out: Vec<Option<i64>> = Vec::new();
    let mut i: usize = 0;
    while i < n
        invariant
            values.wf(),
            n == values@.len(),
            n == mask@.len(),
            i <= n,
            out@ == filtered(values@.subrange(0, i as int), mask@.subrange(0, i as int)),
        decreases n - i,
    {
        let entry = values.get(i);
        proof {
            let v1 = values@.subrange(0, i + 1);
            let m1 = mask@.subrange(0, i + 1);
            assert(v1.drop_last() =~= values@.subrange(0, i as int));
            assert(m1.drop_last() =~= mask@.subrange(0, i as int));
        }
        if mask[i] || entry.is_none() {
            out.push(entry);
        }
        i += 1;
    }
    assert(values@.subrange(0, n as int) =~= values@);
    assert(mask@.subrange(0, n as int) =~= mask@);
    Ok(Int64Column::from_options(&out))
}

/// The UTF-8 byte length of each string; a null row stays null.
pub fn string_length(values: &Utf8Column) -> (r: Int64Column)
    requires
        values.wf(),
    ensures
        r.wf(),
        r@ == byte_lengths(values@),
{
    let n = values.len();
    let mut out: Vec<Option<i64>> = Vec::new();
    let mut i: usize = 0;
    while i < n
        invariant
            values.wf(),
            n == values@.len(),
            i <= n,
            out@ =~= byte_lengths(values@).subrange(0, i as int),
        decreases n - i,
    {
        let entry = match values.byte_len(i) {
            Some(len) => Some(len as i64),
            None => None,
        };
        out.push(entry);
        i += 1;
    }
    assert(out@ =~= byte_lengths(values@));
    Int64Column::from_options(&out)
}

/// Integer addition over columns without nulls is the row-wise wrapping sum.
pub proof fn add_without_nulls_wraps(a: Seq<Option<i64>>, b: Seq<Option<i64>>)
    requires
        a.len() == b.len(),
        forall|i: int| 0 <= i < a.len() ==> #[trigger] a[i] is Some && b[i] is Some,
    ensures
        int64_sum(a, b).len() == a.len(),
        forall|i: int|
            0 <= i < a.len() ==> #[trigger] int64_sum(a, b)[i] == Some(
                wrapping_sum(a[i]->Some_0, b[i]->Some_0),
            ),
{
    assert forall|i: int| 0 <= i < a.len() implies #[trigger] int64_sum(a, b)[i] == Some(
        wrapping_sum(a[i]->Some_0, b[i]->Some_0),
    ) by {
        assert(a[i] is Some && b[i] is Some);
    }
}

/// A null on either side of an addition gives a null row, whatever the other side holds.
pub proof fn add_propagates_nulls(a: Seq<Option<i64>>, b: Seq<Option<i64>>, i: int)
    requires
        a.len() == b.len(),
        0 <= i < a.len(),
        a[i] is None || b[i] is None,
    ensures
        int64_sum(a, b)[i] is None,
{
}

/// A null on either side of a string addition gives a null row.
pub proof fn concat_propagates_nulls(a: Seq<Option<Seq<char>>>, b: Seq<Option<Seq<char>>>, i: int)
    requires
        a.len() == b.len(),
        0 <= i < a.len(),
        a[i] is None || b[i] is None,
    ensures
        utf8_concat(a, b)[i] is None,
{
}

/// String addition is associative: adding three columns left to right or right to left
/// gives the same column.
pub proof fn concat_is_associative(
    s1: Seq<Option<Seq<char>>>,
    s2: Seq<Option<Seq<char>>>,
    s3: Seq<Option<Seq<char>>>,
)
    requires
        s1.len() == s2.len(),
        s2.len() == s3.len(),
    ensures
        utf8_concat(utf8_concat(s1, s2), s3) == utf8_concat(s1, utf8_concat(s2, s3)),
{
    assert forall|i: int| 0 <= i < s1.len() implies #[trigger] utf8_concat(
        utf8_concat(s1, s2),
        s3,
    )[i] == utf8_concat(s1, utf8_concat(s2, s3))[i] by {
        match (s1[i], s2[i], s3[i]) {
            (Some(x), Some(y), Some(z)) => {
                assert((x + y) + z =~= x + (y + z));
            },
            _ => {},
        }
    }
    assert(utf8_concat(utf8_concat(s1, s2), s3) =~= utf8_concat(s1, utf8_concat(s2, s3)));
}

/// A filter never yields more rows than it was given.
pub proof fn filter_is_no_longer(v: Seq<Option<i64>>, mask: Seq<bool>)
    ensures
        filtered(v, mask).len() <= v.len(),
    decreases v.len(),
{
    if v.len() > 0 && mask.len() > 0 {
        filter_is_no_longer(v.drop_last(), mask.drop_last());
    }
}

} // verus!
