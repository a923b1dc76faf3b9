use vstd::prelude::*;
use crate::column::{Float32Column, Float64Column, Int64Column, KernelError, Utf8Column};

verus! {

/// The element type of a column.
#[derive(Debug, Clone, Copy, PartialEq, Eq, Structural)]
pub enum DataType {
    Int64,
    Float32,
    Float64,
    Utf8,
}

/// What a column holds, row by row.
pub enum ColumnData {
    Int64(Seq<Option<i64>>),
    Float32(Seq<Option<u32>>),
    Float64(Seq<Option<u64>>),
    Utf8(Seq<Option<Seq<char>>>),
}

impl ColumnData {
    pub open spec fn len(self) -> nat {
        match self {
            ColumnData::Int64(s) => s.len(),
            ColumnData::Float32(s) => s.len(),
            ColumnData::Float64(s) => s.len(),
            ColumnData::Utf8(s) => s.len(),
        }
    }

    pub open spec fn data_type(self) -> DataType {
        match self {
            ColumnData::Int64(_) => DataType::Int64,
            ColumnData::Float32(_) => DataType::Float32,
            ColumnData::Float64(_) => DataType::Float64,
            ColumnData::Utf8(_) => DataType::Utf8,
        }
    }
}

/// A column of one of the supported element types.
#[derive(Debug, Clone)]
pub enum Column {
    Int64(Int64Column),
    Float32(Float32Column),
    Float64(Float64Column),
    Utf8(Utf8Column),
}

impl Column {
    pub open spec fn wf(&self) -> bool {
        match self {
            Column::Int64(c) => c.wf(),
            Column::Float32(c) => c.wf(),
            Column::Float64(c) => c.wf(),
            Column::Utf8(c) => c.wf(),
        }
    }

    pub open spec fn view(&self) -> ColumnData {
        match self {
            Column::Int64(c) => ColumnData::Int64(c@),
            Column::Float32(c) => ColumnData::Float32(c@),
            Column::Float64(c) => ColumnData::Float64(c@),
            Column::Utf8(c) => ColumnData::Utf8(c@),
        }
    }

    /// The number of rows.
    pub fn len(&self) -> (r: usize)
        requires
            self.wf(),
        ensures
            r == self@.len(),
    {
        match self {
            Column::Int64(c) => c.len(),
            Column::Float32(c) => c.len(),
            Column::Float64(c) => c.len(),
            Column::Utf8(c) => c.len(),
        }
    }

    /// The element type.
    pub fn data_type(&self) -> (r: DataType)
        ensures
            r == self@.data_type(),
    {
        match self {
            Column::Int64(_) => DataType::Int64,
            Column::Float32(_) => DataType::Float32,
            Column::Float64(_) => DataType::Float64,
            Column::Utf8(_) => DataType::Utf8,
        }
    }

    /// An independent copy with the same rows.
    pub fn duplicate(&self) -> (r: Column)
        requires
            self.wf(),
        ensures
            r.wf(),
            r@ == self@,
    {
        match self {
            Column::Int64(c) => Column::Int64(Int64Column::from_options(&c.to_options())),
            Column::Float32(c) => Column::Float32(Float32Column::from_bits(&c.to_bits())),
            Column::Float64(c) => Column::Float64(Float64Column::from_bits(&c.to_bits())),
            Column::Utf8(c) => {
                let n = c.len();
                let mut items: Vec<Option<String>> = Vec::new();
                let mut i: usize = 0;
                while i < n
                    invariant
                        c.wf(),
                        n == c@.len(),
                        i <= n,
                        items@.len() == i,
                        forall|j: int|
                            0 <= j < i ==> c@[j] == match #[trigger] items@[j] {
                                Some(s) => Some(s@),
                                None => None,
                            },
                    decreases n - i,
                {
                    items.push(c.get(i));
                    i += 1;
                }
                let r = Utf8Column::from_options(&items);
                assert(r@ =~= c@);
                Column::Utf8(r)
            },
        }
    }
}

/// The name, element type and nullability of one column.
#[derive(Debug)]
pub struct Field {
    name: String,
    data_type: DataType,
    nullable: bool,
}

impl Field {
    pub closed spec fn view(&self) -> (Seq<char>, DataType, bool) {
        (self.name@, self.data_type, self.nullable)
    }

    pub fn new(name: &str, data_type: DataType, nullable: bool) -> (r: Field)
        ensures
            r@ == (name@, data_type, nullable),
    {
        Field { name: name.to_owned(), data_type, nullable }
    }

    pub fn name(&self) -> (r: &str)
        ensures
            r@ == self@.0,
    {
        self.name.as_str()
    }

    pub fn data_type(&self) -> (r: DataType)
        ensures
            r == self@.1,
    {
        self.data_type
    }

    pub fn is_nullable(&self) -> (r: bool)
        ensures
            r == self@.2,
    {
        self.nullable
    }

    /// An independent copy.
    pub fn duplicate(&self) -> (r: Field)
        ensures
            r@ == self@,
    {
        Field { name: self.name.clone(), data_type: self.data_type, nullable: self.nullable }
    }
}

/// The names of a schema, in order.
pub open spec fn names_of(schema: Seq<(Seq<char>, DataType, bool)>) -> Seq<Seq<char>> {
    schema.map_values(|f: (Seq<char>, DataType, bool)| f.0)
}

/// `i` is the first position that holds `name`.
pub open spec fn first_match(names: Seq<Seq<char>>, name: Seq<char>, i: int) -> bool {
    &&& 0 <= i < names.len()
    &&& names[i] == name
    &&& forall|j: int| 0 <= j < i ==> names[j] != name
}

/// No position holds `name`.
pub open spec fn absent(names: Seq<Seq<char>>, name: Seq<char>) -> bool {
    forall|j: int| 0 <= j < names.len() ==> names[j] != name
}

/// A schema and its columns agree: one column per field, of the field's type, each with
/// `rows` rows.
pub open spec fn consistent(
    schema: Seq<(Seq<char>, DataType, bool)>,
    columns: Seq<ColumnData>,
    rows: nat,
) -> bool {
    &&& schema.len() == columns.len()
    &&& forall|i: int|
        0 <= i < columns.len() ==> (#[trigger] columns[i]).len() == rows
            && columns[i].data_type() == schema[i].1
}

/// One column per field, each with `rows` rows.
pub open spec fn shapes_agree(field_count: nat, columns: Seq<ColumnData>, rows: nat) -> bool {
    &&& field_count == columns.len()
    &&& forall|i: int| 0 <= i < columns.len() ==> (#[trigger] columns[i]).len() == rows
}

/// Columns of equal length under a schema that names and types each of them.
#[derive(Debug)]
pub struct Batch {
    fields: Vec<Field>,
    columns: Vec<Column>,
    rows: usize,
}

impl Batch {
    pub closed spec fn schema(&self) -> Seq<(Seq<char>, DataType, bool)> {
        self.fields@.map_values(|f: Field| f@)
    }

    pub closed spec fn columns(&self) -> Seq<ColumnData> {
        self.columns@.map_values(|c: Column| c@)
    }

    pub closed spec fn rows(&self) -> nat {
        self.rows as nat
    }

    pub closed spec fn wf(&self) -> bool {
        &&& consistent(self.schema(), self.columns(), self.rows())
        &&& forall|i: int| 0 <= i < self.columns@.len() ==> (#[trigger] self.columns@[i]).wf()
    }

    /// Builds a batch; fails where a column's type differs from its field's, or where the
    /// number of columns or of rows disagrees.
    pub fn try_new(fields: Vec<Field>, columns: Vec<Column>, rows: usize) -> (r: Result<
        Batch,
        KernelError,
    >)
        requires
            forall|i: int| 0 <= i < columns@.len() ==> (#[trigger] columns@[i]).wf(),
        ensures
            r is Ok <==> consistent(
                fields@.map_values(|f: Field| f@),
                columns@.map_values(|c: Column| c@),
                rows as nat,
            ),
            r is Ok ==> {
                &&& r->Ok_0.wf()
                &&& r->Ok_0.schema() == fields@.map_values(|f: Field| f@)
                &&& r->Ok_0.columns() == columns@.map_values(|c: Column| c@)
                &&& r->Ok_0.rows() == rows
            },
            !shapes_agree(fields@.len(), columns@.map_values(|c: Column| c@), rows as nat) ==> r
                == Err::<Batch, KernelError>(KernelError::ShapeMismatch),
            shapes_agree(fields@.len(), columns@.map_values(|c: Column| c@), rows as nat)
                && r is Err ==> r->Err_0 == KernelError::TypeMismatch,
    {
        let ghost schema = fields@.map_values(|f: Field| f@);
        let ghost data = columns@.map_values(|c: Column| c@);
        if fields.len() != columns.len() {
            return Err(KernelError::ShapeMismatch);
        }
        let mut i: usize = 0;
        while i < columns.len()
            invariant
                forall|k: int| 0 <= k < columns@.len() ==> (#[trigger] columns@[k]).wf(),
                fields@.len() == columns@.len(),
                data == columns@.map_values(|c: Column| c@),
                i <= columns@.len(),
                forall|k: int| 0 <= k < i ==> (#[trigger] data[k]).len() == rows,
            decreases columns@.len() - i,
        {
            assert(data[i as int] == columns@[i as int]@);
            if columns[i].len() != rows {
                return Err(KernelError::ShapeMismatch);
            }
            i += 1;
        }
        let mut i: usize = 0;
        while i < columns.len()
            invariant
                fields@.len() == columns@.len(),
                schema == fields@.map_values(|f: Field| f@),
                data == columns@.map_values(|c: Column| c@),
                i <= columns@.len(),
                forall|k: int| 0 <= k < columns@.len() ==> (#[trigger] data[k]).len() == rows,
                forall|k: int| 0 <= k < i ==> (#[trigger] data[k]).data_type() == schema[k].1,
            decreases columns@.len() - i,
        {
            assert(data[i as int] == columns@[i as int]@);
            assert(schema[i as int] == fields@[i as int]@);
            if columns[i].data_type() != fields[i].data_type() {
                return Err(KernelError::TypeMismatch);
            }
            i += 1;
        }
        let r = Batch { fields, columns, rows };
        assert(r.schema() == schema && r.columns() == data);
        assert forall|k: int| 0 <= k < r.columns@.len() implies (#[trigger] r.columns@[k]).wf() by {
            assert(r.columns@[k] == columns@[k]);
        }
        Ok(r)
    }

    /// The number of rows.
    pub fn num_rows(&self) -> (r: usize)
        ensures
            r == self.rows(),
    {
        self.rows
    }

    /// The number of columns.
    pub fn num_columns(&self) -> (r: usize)
        requires
            self.wf(),
        ensures
            r == self.columns().len(),
    {
        self.columns.len()
    }

    /// The field at position `i`.
    pub fn field(&self, i: usize) -> (r: &Field)
        requires
            self.wf(),
            i < self.schema().len(),
        ensures
            r@ == self.schema()[i as int],
    {
        &self.fields[i]
    }

    /// The column at position `i`.
    pub fn column(&self, i: usize) -> (r: &Column)
        requires
            self.wf(),
            i < self.columns().len(),
        ensures
            r.wf(),
            r@ == self.columns()[i as int],
    {
        &self.columns[i]
    }

    /// The position of the first column called `name`.
    pub fn index_of(&self, name: &str) -> (r: Result<usize, KernelError>)
        requires
            self.wf(),
        ensures
            r is Ok ==> first_match(names_of(self.schema()), name@, r->Ok_0 as int),
            r is Err <==> absent(names_of(self.schema()), name@),
            r is Err ==> r->Err_0 == KernelError::ColumnNotFound,
    {
        let wanted = name.to_owned();
        let mut i: usize = 0;
        while i < self.fields.len()
            invariant
                self.wf(),
                wanted@ == name@,
                i <= self.schema().len(),
                forall|j: int| 0 <= j < i ==> names_of(self.schema())[j] != name@,
            decreases self.schema().len() - i,
        {
            assert(names_of(self.schema())[i as int] == self.fields@[i as int].name@);
            if self.fields[i].name == wanted {
                return Ok(i);
            }
            i += 1;
        }
        Err(KernelError::ColumnNotFound)
    }

    /// The first column called `name`.
    pub fn column_by_name(&self, name: &str) -> (r: Result<&Column, KernelError>)
        requires
            self.wf(),
        ensures
            r is Err <==> absent(names_of(self.schema()), name@),
            r is Err ==> r->Err_0 == KernelError::ColumnNotFound,
            r is Ok ==> exists|i: int|
                first_match(names_of(self.schema()), name@, i) && r->Ok_0@ == self.columns()[i],
    {
        match self.index_of(name) {
            Ok(i) => Ok(self.column(i)),
            Err(e) => Err(e),
        }
    }

    /// A new batch: this one's fields and columns, then one nullable field called `name` and
    /// `column` after them. This batch is left as it was.
    pub fn append_column(&self, column: Column, name: &str) -> (r: Result<Batch, KernelError>)
        requires
            self.wf(),
            column.wf(),
        ensures
            r is Ok <==> column@.len() == self.rows(),
            r is Ok ==> {
                &&& r->Ok_0.wf()
                &&& r->Ok_0.rows() == self.rows()
                &&& r->Ok_0.schema() == self.schema().push((name@, column@.data_type(), true))
                &&& r->Ok_0.columns() == self.columns().push(column@)
            },
            r is Err ==> r->Err_0 == KernelError::RowCountMismatch,
    {
        if column.len() != self.rows {
            return Err(KernelError::RowCountMismatch);
        }
        let mut fields: Vec<Field> = Vec::new();
        let mut columns: Vec<Column> = Vec::new();
        let mut i: usize = 0;
        while i < self.columns.len()
            invariant
                self.wf(),
                i <= self.columns@.len(),
                fields@.map_values(|f: Field| f@) =~= self.schema().subrange(0, i as int),
                columns@.map_values(|c: Column| c@) =~= self.columns().subrange(0, i as int),
                forall|k: int| 0 <= k < columns@.len() ==> (#[trigger] columns@[k]).wf(),
            decreases self.columns@.len() - i,
        {
            let ghost old_fields = fields@;
            let ghost old_columns = columns@;
            let f = self.fields[i].duplicate();
            let c = self.columns[i].duplicate();
            fields.push(f);
            columns.push(c);
            assert(fields@.map_values(|f: Field| f@) =~= old_fields.map_values(|f: Field| f@).push(
                f@,
            ));
            assert(columns@.map_values(|c: Column| c@) =~= old_columns.map_values(
                |c: Column| c@,
            ).push(c@));
            assert(self.schema().subrange(0, i + 1) =~= self.schema().subrange(0, i as int).push(
                f@,
            ));
            assert(self.columns().subrange(0, i + 1) =~= self.columns().subrange(
                0,
                i as int,
            ).push(c@));
            i += 1;
        }
        let data_type = column.data_type();
        assert(self.schema().subrange(0, i as int) =~= self.schema());
        assert(self.columns().subrange(0, i as int) =~= self.columns());
        let ghost old_fields = fields@;
        let ghost old_columns = columns@;
        fields.push(Field { name: name.to_owned(), data_type, nullable: true });
        columns.push(column);
        let r = Batch { fields, columns, rows: self.rows };
        assert(r.fields@ == old_fields.push(r.fields@.last()));
        assert(r.columns@ == old_columns.push(column));
        assert(r.columns() =~= old_columns.map_values(|c: Column| c@).push(column@));
        assert(r.schema() =~= old_fields.map_values(|f: Field| f@).push(r.fields@.last()@));
        assert(r.schema() =~= self.schema().push((name@, data_type, true)));
        assert(r.columns() =~= self.columns().push(column@));
        Ok(r)
    }
}

/// Appends a float column called `new_name` to a batch, as a nullable field after the
/// existing ones.
pub fn add_normalized_col(batch: &Batch, normalized: Float64Column, new_name: &str) -> (r: Result<
    Batch,
    KernelError,
>)
    requires
        batch.wf(),
        normalized.wf(),
    ensures
        r is Ok <==> normalized@.len() == batch.rows(),
        r is Ok ==> {
            &&& r->Ok_0.wf()
            &&& r->Ok_0.rows() == batch.rows()
            &&& r->Ok_0.schema() == batch.schema().push((new_name@, DataType::Float64, true))
            &&& r->Ok_0.columns() == batch.columns().push(ColumnData::Float64(normalized@))
        },
        r is Err ==> r->Err_0 == KernelError::RowCountMismatch,
{
    batch.append_column(Column::Float64(normalized), new_name)
}

/// Appending a column under a name that the schema does not hold, and then looking that
/// name up, finds the appended column with the rows it was given; every earlier column
/// keeps its position and its rows.
pub proof fn append_then_lookup(
    schema: Seq<(Seq<char>, DataType, bool)>,
    columns: Seq<ColumnData>,
    name: Seq<char>,
    added: ColumnData,
)
    requires
        absent(names_of(schema), name),
        schema.len() == columns.len(),
    ensures
        first_match(
            names_of(schema.push((name, added.data_type(), true))),
            name,
            schema.len() as int,
        ),
        columns.push(added)[schema.len() as int] == added,
        forall|i: int| 0 <= i < columns.len() ==> #[trigger] columns.push(added)[i] == columns[i],
        names_of(schema.push((name, added.data_type(), true))).subrange(0, schema.len() as int)
            == names_of(schema),
{
    let grown = names_of(schema.push((name, added.data_type(), true)));
    assert(grown.subrange(0, schema.len() as int) =~= names_of(schema));
    assert forall|j: int| 0 <= j < schema.len() implies grown[j] != name by {
        assert(grown[j] == names_of(schema)[j]);
    }
}

} // verus!
