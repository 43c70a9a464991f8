//! Logical rows, their validation against a schema, and row batches in
//! columnar layout.

use vstd::prelude::*;
use crate::error::{ErrorView, ManagerError};
use crate::model::views;
use crate::schema::{Field, FieldType, FieldView, Schema};

verus! {

/// One cell of a row.
#[derive(Debug, PartialEq, Eq)]
pub enum Value {
    Null,
    Boolean(bool),
    Int(i32),
    Long(i64),
    Str(String),
}

/// The mathematical value of a [`Value`].
pub enum ValueView {
    Null,
    Boolean(bool),
    Int(i32),
    Long(i64),
    Str(Seq<char>),
}

impl View for Value {
    type V = ValueView;

    open spec fn view(&self) -> ValueView {
        match self {
            Value::Null => ValueView::Null,
            Value::Boolean(b) => ValueView::Boolean(*b),
            Value::Int(n) => ValueView::Int(*n),
            Value::Long(n) => ValueView::Long(*n),
            Value::Str(s) => ValueView::Str(s@),
        }
    }
}

impl Clone for Value {
    fn clone(&self) -> (copy: Self)
        ensures
            copy@ == self@,
    {
        match self {
            Value::Null => Value::Null,
            Value::Boolean(b) => Value::Boolean(*b),
            Value::Int(n) => Value::Int(*n),
            Value::Long(n) => Value::Long(*n),
            Value::Str(s) => Value::Str(s.clone()),
        }
    }
}

/// One logical row: a value for each field of the schema, in field order.
#[derive(Debug, PartialEq, Eq)]
pub struct Row {
    pub values: Vec<Value>,
}

impl View for Row {
    type V = Seq<ValueView>;

    open spec fn view(&self) -> Seq<ValueView> {
        views(self.values@)
    }
}

impl Clone for Row {
    fn clone(&self) -> (copy: Self)
        ensures
            copy@ == self@,
    {
        let values = self.values.clone();
        Row { values }
    }
}

/// The value may stand in a column of this field: it has the field's type,
/// or it is null and the field is optional.
pub open spec fn value_fits(value: ValueView, field: FieldView) -> bool {
    match value {
        ValueView::Null => !field.required,
        ValueView::Boolean(_) => field.field_type == FieldType::Boolean,
        ValueView::Int(_) => field.field_type == FieldType::Int,
        ValueView::Long(_) => field.field_type == FieldType::Long,
        ValueView::Str(_) => field.field_type == FieldType::Str,
    }
}

/// The row has one fitting value for each field.
pub open spec fn row_fits(row: Seq<ValueView>, fields: Seq<FieldView>) -> bool {
    &&& row.len() == fields.len()
    &&& forall|c: int| 0 <= c < row.len() ==> value_fits(#[trigger] row[c], fields[c])
}

/// Every row fits the fields.
pub open spec fn rows_fit(rows: Seq<Seq<ValueView>>, fields: Seq<FieldView>) -> bool {
    forall|r: int| 0 <= r < rows.len() ==> row_fits(#[trigger] rows[r], fields)
}

/// `row` is the first row that does not fit the fields.
pub open spec fn first_misfit(rows: Seq<Seq<ValueView>>, fields: Seq<FieldView>, row: int) -> bool {
    &&& 0 <= row < rows.len()
    &&& !row_fits(rows[row], fields)
    &&& forall|r: int| 0 <= r < row ==> row_fits(#[trigger] rows[r], fields)
}

/// The number of values that the rows hold, where each row has as many
/// values as the first.
pub open spec fn cell_count(rows: Seq<Seq<ValueView>>) -> nat {
    if rows.len() == 0 {
        0
    } else {
        rows.len() * rows[0].len()
    }
}

/// `n`, or the largest 64-bit number where `n` is larger.
pub open spec fn capped(n: nat) -> u64 {
    if n > u64::MAX {
        u64::MAX
    } else {
        n as u64
    }
}

/// Whether the value may stand in a column of this field.
pub fn value_fits_field(value: &Value, field: &Field) -> (fits: bool)
    ensures
        fits == value_fits(value@, field@),
{
    match value {
        Value::Null => !field.required,
        Value::Boolean(_) => field.field_type == FieldType::Boolean,
        Value::Int(_) => field.field_type == FieldType::Int,
        Value::Long(_) => field.field_type == FieldType::Long,
        Value::Str(_) => field.field_type == FieldType::Str,
    }
}

/// Whether the row has one fitting value for each field of the schema.
pub fn row_fits_schema(row: &Row, schema: &Schema) -> (fits: bool)
    ensures
        fits == row_fits(row@, schema@),
{
    if row.values.len() != schema.len() {
        return false;
    }
    let mut c: usize = 0;
    while c < row.values.len()
        invariant
            c <= row.values.len(),
            row.values.len() == schema@.len(),
            forall|k: int| 0 <= k < c ==> value_fits(#[trigger] row@[k], schema@[k]),
        decreases row.values.len() - c,
    {
        if !value_fits_field(&row.values[c], schema.field(c)) {
            assert(!value_fits(row@[c as int], schema@[c as int]));
            return false;
        }
        c += 1;
    }
    true
}

/// Checks every row against the schema. The rows are accepted or rejected as
/// a unit: the error names the first row that does not fit.
pub fn validate_rows(rows: &Vec<Row>, schema: &Schema) -> (checked: Result<(), ManagerError>)
    ensures
        checked is Ok <==> rows_fit(views(rows@), schema@),
        checked matches Err(error) ==> error@ matches ErrorView::SchemaMismatch { row: Some(row) }
            && first_misfit(views(rows@), schema@, row as int),
{
    let mut r: usize = 0;
    while r < rows.len()
        invariant
            r <= rows.len(),
            forall|k: int| 0 <= k < r ==> row_fits(#[trigger] views(rows@)[k], schema@),
        decreases rows.len() - r,
    {
        if !row_fits_schema(&rows[r], schema) {
            assert(!row_fits(views(rows@)[r as int], schema@));
            return Err(ManagerError::SchemaMismatch { row: Some(r) });
        }
        r += 1;
    }
    Ok(())
}

/// The values of one field, one for each row of the batch.
#[derive(Debug, PartialEq, Eq)]
pub struct Column {
    values: Vec<Value>,
}

impl View for Column {
    type V = Seq<ValueView>;

    closed spec fn view(&self) -> Seq<ValueView> {
        views(self.values@)
    }
}

/// A set of rows in columnar layout: one contiguous sequence of values for
/// each field. Its view is the sequence of its logical rows.
#[derive(Debug, PartialEq, Eq)]
pub struct RowBatch {
    columns: Vec<Column>,
    num_rows: usize,
}

impl View for RowBatch {
    type V = Seq<Seq<ValueView>>;

    closed spec fn view(&self) -> Seq<Seq<ValueView>> {
        Seq::new(
            self.num_rows as nat,
            |r: int| Seq::new(self.columns@.len(), |c: int| self.columns@[c].values@[r]@),
        )
    }
}

impl RowBatch {
    /// Every column holds one value for each row.
    pub closed spec fn wf(&self) -> bool {
        forall|c: int| 0 <= c < self.columns@.len() ==> (#[trigger] self.columns@[c]).values@.len()
            == self.num_rows
    }

    /// The number of columns.
    pub closed spec fn width(&self) -> nat {
        self.columns@.len()
    }

    /// Validates the rows against the schema and lays them out in columns.
    /// The rows are accepted or rejected as a unit.
    pub fn from_rows(schema: &Schema, rows: &Vec<Row>) -> (built: Result<RowBatch, ManagerError>)
        ensures
            built is Ok <==> rows_fit(views(rows@), schema@),
            built matches Ok(batch) ==> batch.wf() && batch@ == views(rows@) && batch.width()
                == schema@.len(),
            built matches Err(error) ==> error@ matches ErrorView::SchemaMismatch {
                row: Some(row),
            } && first_misfit(views(rows@), schema@, row as int),
    {
        match validate_rows(rows, schema) {
            Err(error) => {
                return Err(error);
            },
            Ok(()) => {},
        }
        let width = schema.len();
        let mut columns: Vec<Column> = Vec::new();
        let mut c: usize = 0;
        while c < width
            invariant
                c <= width,
                width == schema@.len(),
                rows_fit(views(rows@), schema@),
                columns@.len() == c,
                forall|k: int|
                    0 <= k < c ==> (#[trigger] columns@[k]).values@.len() == rows@.len(),
                forall|k: int, r: int|
                    0 <= k < c && 0 <= r < rows@.len() ==> (#[trigger] columns@[k].values@[r])@
                        == views(rows@)[r][k],
            decreases width - c,
        {
            let mut values: Vec<Value> = Vec::new();
            let mut r: usize = 0;
            while r < rows.len()
                invariant
                    r <= rows.len(),
                    c < width,
                    width == schema@.len(),
                    rows_fit(views(rows@), schema@),
                    values@.len() == r,
                    forall|k: int| 0 <= k < r ==> (#[trigger] values@[k])@ == views(rows@)[k][c as int],
                decreases rows.len() - r,
            {
                assert(row_fits(views(rows@)[r as int], schema@));
                let value = rows[r].values[c].clone();
                values.push(value);
                r += 1;
            }
            columns.push(Column { values });
            c += 1;
        }
        let batch = RowBatch { columns, num_rows: rows.len() };
        proof {
            assert forall|r: int| 0 <= r < rows@.len() implies #[trigger] batch@[r] == views(
                rows@,
            )[r] by {
            }
        }
        Ok(batch)
    }

    /// The number of rows.
    pub fn num_rows(&self) -> (n: usize)
        ensures
            n == self@.len(),
    {
        self.num_rows
    }

    /// The number of columns: in a well-formed batch, the number of values
    /// of every row.
    pub fn num_columns(&self) -> (n: usize)
        ensures
            n == self.width(),
            self.wf() ==> forall|r: int| 0 <= r < self@.len() ==> (#[trigger] self@[r]).len() == n,
    {
        self.columns.len()
    }

    /// The size of the batch: the number of values that it holds, capped at
    /// the largest 64-bit number.
    pub fn size(&self) -> (size: u64)
        requires
            self.wf(),
        ensures
            size == capped(cell_count(self@)),
    {
        if self.num_rows == 0 {
            return 0;
        }
        let rows = self.num_rows as u128;
        let columns = self.columns.len() as u128;
        assert(rows * columns <= 0xffff_ffff_ffff_ffff * 0xffff_ffff_ffff_ffff) by (nonlinear_arith)
            requires
                0 <= rows <= 0xffff_ffff_ffff_ffff,
                0 <= columns <= 0xffff_ffff_ffff_ffff,
        ;
        assert(self@[0].len() == self.columns@.len());
        let cells = rows * columns;
        if cells > u64::MAX as u128 {
            u64::MAX
        } else {
            cells as u64
        }
    }

    /// The value that row `row` holds in column `column`.
    pub fn value(&self, row: usize, column: usize) -> (value: &Value)
        requires
            self.wf(),
            row < self@.len(),
            column < self.width(),
        ensures
            value@ == self@[row as int][column as int],
    {
        &self.columns[column].values[row]
    }

    /// The logical rows of the batch, in order.
    pub fn to_rows(&self) -> (rows: Vec<Row>)
        requires
            self.wf(),
        ensures
            views(rows@) == self@,
    {
        let mut rows: Vec<Row> = Vec::new();
        let mut r: usize = 0;
        while r < self.num_rows
            invariant
                self.wf(),
                r <= self.num_rows,
                rows@.len() == r,
                forall|k: int| 0 <= k < r ==> (#[trigger] rows@[k])@ == self@[k],
            decreases self.num_rows - r,
        {
            let mut values: Vec<Value> = Vec::new();
            let mut c: usize = 0;
            while c < self.columns.len()
                invariant
                    self.wf(),
                    r < self.num_rows,
                    c <= self.columns@.len(),
                    values@.len() == c,
                    forall|k: int| 0 <= k < c ==> (#[trigger] values@[k])@ == self@[r as int][k],
                decreases self.columns.len() - c,
            {
                let value = self.columns[c].values[r].clone();
                values.push(value);
                c += 1;
            }
            let row = Row { values };
            rows.push(row);
            r += 1;
        }
        rows
    }

    /// Whether every row of the batch fits the schema.
    pub fn conforms(&self, schema: &Schema) -> (fits: bool)
        requires
            self.wf(),
        ensures
            fits == rows_fit(self@, schema@),
    {
        if self.num_rows == 0 {
            return true;
        }
        if self.columns.len() != schema.len() {
            assert(!row_fits(self@[0], schema@));
            return false;
        }
        let mut c: usize = 0;
        while c < self.columns.len()
            invariant
                self.wf(),
                0 < self.num_rows,
                c <= self.columns@.len(),
                self.columns@.len() == schema@.len(),
                forall|k: int, r: int|
                    0 <= k < c && 0 <= r < self.num_rows ==> value_fits(
                        #[trigger] self@[r][k],
                        schema@[k],
                    ),
            decreases self.columns.len() - c,
        {
            let field = schema.field(c);
            let mut r: usize = 0;
            while r < self.num_rows
                invariant
                    self.wf(),
                    r <= self.num_rows,
                    c < self.columns@.len(),
                    self.columns@.len() == schema@.len(),
                    field@ == schema@[c as int],
                    forall|k: int|
                        0 <= k < r ==> value_fits(#[trigger] self@[k][c as int], schema@[c as int]),
                decreases self.num_rows - r,
            {
                if !value_fits_field(&self.columns[c].values[r], field) {
                    assert(!value_fits(self@[r as int][c as int], schema@[c as int]));
                    return false;
                }
                r += 1;
            }
            c += 1;
        }
        true
    }
}

impl Clone for Column {
    fn clone(&self) -> (copy: Self)
        ensures
            copy@ == self@,
    {
        let values = self.values.clone();
        Column { values }
    }
}

impl Clone for RowBatch {
    fn clone(&self) -> (copy: Self)
        ensures
            self.wf() ==> copy.wf() && copy@ == self@ && copy.width() == self.width(),
    {
        let columns = self.columns.clone();
        let copy = RowBatch { columns, num_rows: self.num_rows };
        proof {
            if self.wf() {
                assert forall|k: int| 0 <= k < copy.columns@.len() implies (
                #[trigger] copy.columns@[k]).values@.len() == copy.num_rows by {
                    assert(copy.columns@[k]@.len() == self.columns@[k]@.len());
                }
                assert forall|r: int| 0 <= r < self.num_rows implies #[trigger] copy@[r]
                    == self@[r] by {
                    assert forall|k: int| 0 <= k < self.columns@.len() implies copy@[r][k]
                        == self@[r][k] by {
                        assert(copy.columns@[k]@[r] == self.columns@[k]@[r]);
                    }
                }
            }
        }
        copy
    }
}

} // verus!
