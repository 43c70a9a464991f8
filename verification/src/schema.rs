//! The schema registry: fields, schemas, and the fixed schema of the tables
//! that the manager creates.

use vstd::prelude::*;
use vstd::pervasive::unreached;
use crate::error::{ErrorView, ManagerError};
use crate::model::views;

verus! {

/// The primitive column types.
#[derive(Clone, Copy, Debug, PartialEq, Eq, Structural)]
pub enum FieldType {
    Boolean,
    Int,
    Long,
    Str,
}

/// One column of a schema.
#[derive(Debug, PartialEq, Eq)]
pub struct Field {
    /// The durable identity of the column.
    pub id: i32,
    pub name: String,
    pub field_type: FieldType,
    /// Whether every row must hold a value in this column.
    pub required: bool,
}

/// The mathematical value of a [`Field`].
pub struct FieldView {
    pub id: i32,
    pub name: Seq<char>,
    pub field_type: FieldType,
    pub required: bool,
}

impl View for Field {
    type V = FieldView;

    open spec fn view(&self) -> FieldView {
        FieldView {
            id: self.id,
            name: self.name@,
            field_type: self.field_type,
            required: self.required,
        }
    }
}

impl Clone for Field {
    fn clone(&self) -> (copy: Self)
        ensures
            copy@ == self@,
    {
        Field {
            id: self.id,
            name: self.name.clone(),
            field_type: self.field_type,
            required: self.required,
        }
    }
}

/// Two fields cannot stand in one schema: they share an id or a name.
pub open spec fn fields_clash(a: FieldView, b: FieldView) -> bool {
    a.id == b.id || a.name == b.name
}

/// No two fields share an id or a name.
pub open spec fn fields_valid(fields: Seq<FieldView>) -> bool {
    forall|i: int, j: int| 0 <= i < j < fields.len() ==> !fields_clash(fields[i], fields[j])
}

/// `position` is the first field that clashes with an earlier one.
pub open spec fn first_clash(fields: Seq<FieldView>, position: int) -> bool {
    &&& 0 <= position < fields.len()
    &&& fields_valid(fields.take(position))
    &&& exists|i: int| 0 <= i < position && fields_clash(fields[i], fields[position])
}

/// The fields of the fixed schema: a required integer `id` and a required
/// string `value`.
pub open spec fn default_fields() -> Seq<FieldView> {
    seq![
        FieldView { id: 0, name: "id"@, field_type: FieldType::Int, required: true },
        FieldView { id: 1, name: "value"@, field_type: FieldType::Str, required: true },
    ]
}

/// Hands the fields to iceberg's `SchemaBuilder` (`Schema::builder()`,
/// `with_fields`, `build`) as top-level primitive fields without identifier
/// fields, and reports whether `build` returned a schema. For such fields
/// `build` fails exactly when its id index meets an id twice or its name
/// index meets a name twice; that is what the contract claims.
#[verifier::external_body]
fn builder_accepts(fields: &Vec<Field>) -> (accepted: bool)
    ensures
        accepted == fields_valid(views(fields@)),
{
    let mut nested = Vec::new();
    for field in fields.iter() {
        let primitive = match field.field_type {
            FieldType::Boolean => iceberg::spec::PrimitiveType::Boolean,
            FieldType::Int => iceberg::spec::PrimitiveType::Int,
            FieldType::Long => iceberg::spec::PrimitiveType::Long,
            FieldType::Str => iceberg::spec::PrimitiveType::String,
        };
        let field_type = iceberg::spec::Type::Primitive(primitive);
        let converted = iceberg::spec::NestedField::new(field.id, field.name.clone(), field_type, field.required);
        nested.push(std::sync::Arc::new(converted));
    }
    iceberg::spec::Schema::builder().with_fields(nested).build().is_ok()
}

/// Whether `fields[position]` clashes with one of the fields before it.
fn clashes_with_earlier(fields: &Vec<Field>, position: usize) -> (found: bool)
    requires
        position < fields.len(),
    ensures
        found == exists|i: int|
            0 <= i < position && fields_clash(views(fields@)[i], views(fields@)[position as int]),
{
    let mut i: usize = 0;
    while i < position
        invariant
            i <= position < fields.len(),
            forall|k: int|
                0 <= k < i ==> !fields_clash(views(fields@)[k], views(fields@)[position as int]),
        decreases position - i,
    {
        if fields[i].id == fields[position].id || fields[i].name == fields[position].name {
            assert(fields_clash(views(fields@)[i as int], views(fields@)[position as int]));
            return true;
        }
        i += 1;
    }
    false
}

/// The position of the first field that clashes with an earlier one.
fn find_first_clash(fields: &Vec<Field>) -> (position: usize)
    requires
        !fields_valid(views(fields@)),
    ensures
        first_clash(views(fields@), position as int),
{
    let ghost all = views(fields@);
    let mut position: usize = 0;
    while position < fields.len()
        invariant
            position <= fields.len(),
            all == views(fields@),
            fields_valid(all.take(position as int)),
            !fields_valid(all),
        decreases fields.len() - position,
    {
        if clashes_with_earlier(fields, position) {
            return position;
        }
        position += 1;
    }
    proof {
        assert(all.take(position as int) == all);
    }
    unreached()
}

/// An ordered sequence of fields in which no id and no name occurs twice.
#[derive(Debug, PartialEq, Eq)]
pub struct Schema {
    fields: Vec<Field>,
}

impl View for Schema {
    type V = Seq<FieldView>;

    closed spec fn view(&self) -> Seq<FieldView> {
        views(self.fields@)
    }
}

impl Schema {
    /// No two fields share an id or a name.
    pub open spec fn wf(&self) -> bool {
        fields_valid(self@)
    }

    /// Builds a schema from `fields`, or reports the first field that repeats
    /// the id or the name of an earlier one. Whether the fields are
    /// acceptable is for the schema builder of the `iceberg` crate to say: a
    /// schema of this library is one that the catalog's library builds too.
    pub fn new(fields: Vec<Field>) -> (built: Result<Schema, ManagerError>)
        ensures
            built is Ok <==> fields_valid(views(fields@)),
            built matches Ok(schema) ==> schema@ == views(fields@) && schema.wf(),
            built matches Err(error) ==> error@ matches ErrorView::SchemaInvalid { position }
                && first_clash(views(fields@), position as int),
    {
        if builder_accepts(&fields) {
            Ok(Schema { fields })
        } else {
            let position = find_first_clash(&fields);
            Err(ManagerError::SchemaInvalid { position })
        }
    }

    /// The fixed schema of the tables that the manager creates.
    pub fn default_schema() -> (schema: Schema)
        ensures
            schema@ == default_fields(),
            schema.wf(),
    {
        let mut fields: Vec<Field> = Vec::new();
        fields.push(
            Field {
                id: 0,
                name: "id".to_string(),
                field_type: FieldType::Int,
                required: true,
            },
        );
        fields.push(
            Field {
                id: 1,
                name: "value".to_string(),
                field_type: FieldType::Str,
                required: true,
            },
        );
        proof {
            reveal_strlit("id");
            reveal_strlit("value");
            assert("id"@.len() != "value"@.len());
        }
        match Schema::new(fields) {
            Ok(schema) => schema,
            Err(_) => unreached(),
        }
    }

    /// The number of fields.
    pub fn len(&self) -> (n: usize)
        ensures
            n == self@.len(),
    {
        self.fields.len()
    }

    /// The field at `position`.
    pub fn field(&self, position: usize) -> (field: &Field)
        requires
            position < self@.len(),
        ensures
            field@ == self@[position as int],
    {
        &self.fields[position]
    }

    /// A copy of the fields, in order.
    pub fn to_fields(&self) -> (fields: Vec<Field>)
        ensures
            views(fields@) == self@,
    {
        let fields = self.fields.clone();
        fields
    }

    /// Whether the two schemas hold the same fields in the same order.
    pub fn same_as(&self, other: &Schema) -> (same: bool)
        ensures
            same == (self@ == other@),
    {
        if self.fields.len() != other.fields.len() {
            assert(self@.len() != other@.len());
            return false;
        }
        let mut i: usize = 0;
        while i < self.fields.len()
            invariant
                i <= self.fields.len(),
                self.fields.len() == other.fields.len(),
                forall|k: int| 0 <= k < i ==> self@[k] == other@[k],
            decreases self.fields.len() - i,
        {
            let a = &self.fields[i];
            let b = &other.fields[i];
            if a.id != b.id || a.name != b.name || a.field_type != b.field_type || a.required
                != b.required {
                assert(self@[i as int] != other@[i as int]);
                return false;
            }
            i += 1;
        }
        assert(self@ =~= other@);
        true
    }
}

impl Clone for Schema {
    fn clone(&self) -> (copy: Self)
        ensures
            copy@ == self@,
    {
        let fields = self.fields.clone();
        Schema { fields }
    }
}

} // verus!
