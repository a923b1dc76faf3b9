use vstd::prelude::*;
use vstd::utf8::encode_utf8;

verus! {

/// Errors raised by the column kernels, the schema evolver and the stages.
#[derive(Debug, Clone, Copy, PartialEq, Eq, Structural)]
pub enum KernelError {
    /// Two operands (or a column and a batch) disagree on their length.
    ShapeMismatch,
    /// A name lookup in a batch found no column.
    ColumnNotFound,
    /// An appended column does not have the batch's row count.
    RowCountMismatch,
    /// A text record has fewer fields than the stage refers to.
    MalformedRecord,
    /// Two operands hold different element types.
    TypeMismatch,
}

/// A nullable column of 64-bit integers: a value slot and a presence flag per row.
#[derive(Debug, Clone)]
pub struct Int64Column {
    values: Vec<i64>,
    validity: Vec<bool>,
}

/// A nullable column of strings: a value slot and a presence flag per row.
#[derive(Debug, Clone)]
pub struct Utf8Column {
    values: Vec<String>,
    validity: Vec<bool>,
}

/// A nullable column of 32-bit floats, held as their IEEE-754 bit patterns.
#[derive(Debug, Clone)]
pub struct Float32Column {
    bits: Vec<u32>,
    validity: Vec<bool>,
}

/// A nullable column of 64-bit floats, held as their IEEE-754 bit patterns.
#[derive(Debug, Clone)]
pub struct Float64Column {
    bits: Vec<u64>,
    validity: Vec<bool>,
}

impl Int64Column {
    pub closed spec fn wf(&self) -> bool {
        self.values.len() == self.validity.len()
    }

    pub closed spec fn view(&self) -> Seq<Option<i64>> {
        Seq::new(
            self.values.len() as nat,
            |i: int| if self.validity[i] { Some(self.values[i]) } else { None },
        )
    }

    /// Builds a column from value slots and presence flags of equal length.
    pub fn new(values: Vec<i64>, validity: Vec<bool>) -> (r: Result<Int64Column, KernelError>)
        ensures
            values.len() == validity.len() <==> r is Ok,
            r is Ok ==> r->Ok_0.wf() && r->Ok_0@.len() == values.len(),
            r is Ok ==> forall|i: int|
                0 <= i < values.len() ==> #[trigger] r->Ok_0@[i] == (if validity[i] {
                    Some(values[i])
                } else {
                    None
                }),
            r is Err ==> r->Err_0 == KernelError::ShapeMismatch,
    {
        if values.len() != validity.len() {
            return Err(KernelError::ShapeMismatch);
        }
        Ok(Int64Column { values, validity })
    }

    /// Builds a column from one optional value per row.
    pub fn from_options(items: &Vec<Option<i64>>) -> (r: Int64Column)
        ensures
            r.wf(),
            r@ == items@,
    {
        let mut values: Vec<i64> = Vec::new();
        let mut validity: Vec<bool> = Vec::new();
        let mut i: usize = 0;
        while i < items.len()
            invariant
                i <= items.len(),
                values.len() == i,
                validity.len() == i,
                forall|j: int|
                    0 <= j < i ==> (if validity[j] {
                        Some(values[j])
                    } else {
                        None
                    }) == items@[j],
            decreases items.len() - i,
        {
            match items[i] {
                Some(v) => {
                    values.push(v);
                    validity.push(true);
                },
                None => {
                    values.push(0);
                    validity.push(false);
                },
            }
            i += 1;
        }
        let r = Int64Column { values, validity };
        assert(r@ =~= items@);
        r
    }

    pub fn len(&self) -> (r: usize)
        requires
            self.wf(),
        ensures
            r == self@.len(),
    {
        self.values.len()
    }

    /// The entry at row `i`: `None` where the row is null.
    pub fn get(&self, i: usize) -> (r: Option<i64>)
        requires
            self.wf(),
            i < self@.len(),
        ensures
            r == self@[i as int],
    {
        if self.validity[i] {
            Some(self.values[i])
        } else {
            None
        }
    }

    /// One optional value per row.
    pub fn to_options(&self) -> (r: Vec<Option<i64>>)
        requires
            self.wf(),
        ensures
            r@ == self@,
    {
        let mut r: Vec<Option<i64>> = Vec::new();
        let mut i: usize = 0;
        while i < self.values.len()
            invariant
                self.wf(),
                i <= self@.len(),
                r@ =~= self@.subrange(0, i as int),
            decreases self@.len() - i,
        {
            r.push(self.get(i));
            i += 1;
        }
        r
    }
}

impl Utf8Column {
    pub closed spec fn wf(&self) -> bool {
        self.values.len() == self.validity.len()
    }

    pub closed spec fn view(&self) -> Seq<Option<Seq<char>>> {
        Seq::new(
            self.values.len() as nat,
            |i: int| if self.validity[i] { Some(self.values[i]@) } else { None },
        )
    }

    /// Builds a column from one optional string per row.
    pub fn from_options(items: &Vec<Option<String>>) -> (r: Utf8Column)
        ensures
            r.wf(),
            r@.len() == items@.len(),
            forall|i: int|
                0 <= i < items@.len() ==> #[trigger] r@[i] == match items@[i] {
                    Some(s) => Some(s@),
                    None => None,
                },
    {
        let mut values: Vec<String> = Vec::new();
        let mut validity: Vec<bool> = Vec::new();
        let mut i: usize = 0;
        while i < items.len()
            invariant
                i <= items.len(),
                values.len() == i,
                validity.len() == i,
                forall|j: int|
                    0 <= j < i ==> (if validity[j] {
                        Some(values[j]@)
                    } else {
                        None
                    }) == match items@[j] {
                        Some(s) => Some(s@),
                        None => None,
                    },
            decreases items.len() - i,
        {
            match &items[i] {
                Some(s) => {
                    values.push(s.clone());
                    validity.push(true);
                },
                None => {
                    values.push(String::new());
                    validity.push(false);
                },
            }
            i += 1;
        }
        Utf8Column { values, validity }
    }

    pub fn len(&self) -> (r: usize)
        requires
            self.wf(),
        ensures
            r == self@.len(),
    {
        self.values.len()
    }

    /// The entry at row `i`: `None` where the row is null.
    pub fn get(&self, i: usize) -> (r: Option<String>)
        requires
            self.wf(),
            i < self@.len(),
        ensures
            match r {
                Some(s) => self@[i as int] == Some(s@),
                None => self@[i as int] is None,
            },
    {
        if self.validity[i] {
            Some(self.values[i].clone())
        } else {
            None
        }
    }
}

impl Utf8Column {
    /// The UTF-8 byte length of the string at row `i`: `None` where the row is null.
    pub fn byte_len(&self, i: usize) -> (r: Option<usize>)
        requires
            self.wf(),
            i < self@.len(),
        ensures
            match self@[i as int] {
                Some(s) => r == Some(encode_utf8(s).len() as usize),
                None => r is None,
            },
    {
        if self.validity[i] {
            Some(self.values[i].as_str().len())
        } else {
            None
        }
    }
}

impl Float64Column {
    pub closed spec fn wf(&self) -> bool {
        self.bits.len() == self.validity.len()
    }

    pub closed spec fn view(&self) -> Seq<Option<u64>> {
        Seq::new(
            self.bits.len() as nat,
            |i: int| if self.validity[i] { Some(self.bits[i]) } else { None },
        )
    }

    /// Builds a column from one optional bit pattern per row.
    pub fn from_bits(items: &Vec<Option<u64>>) -> (r: Float64Column)
        ensures
            r.wf(),
            r@ == items@,
    {
        let mut bits: Vec<u64> = Vec::new();
        let mut validity: Vec<bool> = Vec::new();
        let mut i: usize = 0;
        while i < items.len()
            invariant
                i <= items.len(),
                bits.len() == i,
                validity.len() == i,
                forall|j: int|
                    0 <= j < i ==> (if validity[j] {
                        Some(bits[j])
                    } else {
                        None
                    }) == items@[j],
            decreases items.len() - i,
        {
            match items[i] {
                Some(v) => {
                    bits.push(v);
                    validity.push(true);
                },
                None => {
                    bits.push(0);
                    validity.push(false);
                },
            }
            i += 1;
        }
        let r = Float64Column { bits, validity };
        assert(r@ =~= items@);
        r
    }

    pub fn len(&self) -> (r: usize)
        requires
            self.wf(),
        ensures
            r == self@.len(),
    {
        self.bits.len()
    }

    /// One optional bit pattern per row.
    pub fn to_bits(&self) -> (r: Vec<Option<u64>>)
        requires
            self.wf(),
        ensures
            r@ == self@,
    {
        let mut r: Vec<Option<u64>> = Vec::new();
        let mut i: usize = 0;
        while i < self.bits.len()
            invariant
                self.wf(),
                i <= self@.len(),
                r@ =~= self@.subrange(0, i as int),
            decreases self@.len() - i,
        {
            if self.validity[i] {
                r.push(Some(self.bits[i]));
            } else {
                r.push(None);
            }
            i += 1;
        }
        r
    }
}

impl Float32Column {
    pub closed spec fn wf(&self) -> bool {
        self.bits.len() == self.validity.len()
    }

    pub closed spec fn view(&self) -> Seq<Option<u32>> {
        Seq::new(
            self.bits.len() as nat,
            |i: int| if self.validity[i] { Some(self.bits[i]) } else { None },
        )
    }

    /// Builds a column from one optional bit pattern per row.
    pub fn from_bits(items: &Vec<Option<u32>>) -> (r: Float32Column)
        ensures
            r.wf(),
            r@ == items@,
    {
        let mut bits: Vec<u32> = Vec::new();
        let mut validity: Vec<bool> = Vec::new();
        let mut i: usize = 0;
        while i < items.len()
            invariant
                i <= items.len(),
                bits.len() == i,
                validity.len() == i,
                forall|j: int|
                    0 <= j < i ==> (if validity[j] {
                        Some(bits[j])
                    } else {
                        None
                    }) == items@[j],
            decreases items.len() - i,
        {
            match items[i] {
                Some(v) => {
                    bits.push(v);
                    validity.push(true);
                },
                None => {
                    bits.push(0);
                    validity.push(false);
                },
            }
            i += 1;
        }
        let r = Float32Column { bits, validity };
        assert(r@ =~= items@);
        r
    }

    pub fn len(&self) -> (r: usize)
        requires
            self.wf(),
        ensures
            r == self@.len(),
    {
        self.bits.len()
    }

    /// One optional bit pattern per row.
    pub fn to_bits(&self) -> (r: Vec<Option<u32>>)
        requires
            self.wf(),
        ensures
            r@ == self@,
    {
        let mut r: Vec<Option<u32>> = Vec::new();
        let mut i: usize = 0;
        while i < self.bits.len()
            invariant
                self.wf(),
                i <= self@.len(),
                r@ =~= self@.subrange(0, i as int),
            decreases self@.len() - i,
        {
            if self.validity[i] {
                r.push(Some(self.bits[i]));
            } else {
                r.push(None);
            }
            i += 1;
        }
        r
    }
}

} // verus!
