use vstd::prelude::*;

verus! {

/// A JSON number as LDtk wrote it: a non-negative integer, a negative
/// integer, or a floating-point value held by its IEEE-754 `f64` bit pattern.
#[derive(Debug, Clone, Copy, PartialEq, Eq, Structural)]
pub enum Number {
    PosInt(u64),
    NegInt(i64),
    Float(u64),
}

/// The value of a custom LDtk field (`__value`) when it is not null.
///
/// Arrays, objects and an explicit null held inside `Some` are `Other`:
/// no rule of the compiler reads them.
#[derive(Debug)]
pub enum FieldValue {
    Bool(bool),
    Number(Number),
    Str(String),
    Other,
}

/// Root of an LDtk project file.
#[derive(Debug)]
pub struct LdtkRoot {
    pub levels: Vec<LdtkLevel>,
}

/// A single level in the LDtk project.
#[derive(Debug)]
pub struct LdtkLevel {
    pub identifier: String,
    /// `None` when LDtk stores layer data in external files rather than inline.
    pub layer_instances: Option<Vec<LdtkLayerInstance>>,
    pub field_instances: Vec<LdtkFieldInstance>,
}

/// A layer within a level (IntGrid, Entities, Tiles, etc.).
#[derive(Debug)]
pub struct LdtkLayerInstance {
    pub identifier: String,
    /// Layer kind: "IntGrid", "Entities", "Tiles", or "AutoLayer".
    pub layer_type: String,
    /// Size of one grid cell in pixels.
    pub grid_size: i32,
    /// Grid width in cells.
    pub c_wid: i32,
    /// Grid height in cells.
    pub c_hei: i32,
    /// Flattened IntGrid values in row-major order; empty for non-IntGrid layers.
    pub int_grid_csv: Vec<i32>,
    /// Entity instances; empty for non-Entities layers.
    pub entity_instances: Vec<LdtkEntityInstance>,
}

/// An entity placed in an Entities layer.
#[derive(Debug)]
pub struct LdtkEntityInstance {
    pub identifier: String,
    /// Pixel position [x, y] within the level coordinate space.
    pub px: [i32; 2],
    pub field_instances: Vec<LdtkFieldInstance>,
}

/// A custom field attached to a level or entity; `value` is `None` when the
/// field is null (unset in the editor).
#[derive(Debug)]
pub struct LdtkFieldInstance {
    pub identifier: String,
    pub value: Option<FieldValue>,
}

/// The first field named `name`, as a lookup by identifier finds it.
pub open spec fn find_field(fields: Seq<LdtkFieldInstance>, name: Seq<char>) -> Option<
    LdtkFieldInstance,
>
    decreases fields.len(),
{
    if fields.len() == 0 {
        None
    } else if fields[0].identifier@ == name {
        Some(fields[0])
    } else {
        find_field(fields.drop_first(), name)
    }
}

/// The string a field holds, if it holds one.
pub open spec fn value_str(v: Option<FieldValue>) -> Option<Seq<char>> {
    match v {
        Some(FieldValue::Str(s)) => Some(s@),
        _ => None,
    }
}

/// The number a field holds, if it holds one (any JSON number reads as `f64`).
pub open spec fn value_number(v: Option<FieldValue>) -> Option<Number> {
    match v {
        Some(FieldValue::Number(n)) => Some(n),
        _ => None,
    }
}

/// The integer a field holds, if it holds a JSON integer that fits `i64`.
pub open spec fn value_i64(v: Option<FieldValue>) -> Option<i64> {
    match v {
        Some(FieldValue::Number(Number::PosInt(n))) => if n <= i64::MAX {
            Some(n as i64)
        } else {
            None
        },
        Some(FieldValue::Number(Number::NegInt(n))) => Some(n),
        _ => None,
    }
}

/// The boolean a field holds, if it holds one.
pub open spec fn value_bool(v: Option<FieldValue>) -> Option<bool> {
    match v {
        Some(FieldValue::Bool(b)) => Some(b),
        _ => None,
    }
}

/// Value of a named field: `None` when absent or null, else what the first
/// field of that name holds.
pub open spec fn field_value(fields: Seq<LdtkFieldInstance>, name: Seq<char>) -> Option<FieldValue> {
    match find_field(fields, name) {
        Some(f) => f.value,
        None => None,
    }
}

pub open spec fn opt_string_view(o: Option<String>) -> Option<Seq<char>> {
    match o {
        Some(s) => Some(s@),
        None => None,
    }
}

/// Index of the first field named `name`; Verus-checked lookup used by every
/// field getter.
pub fn find_field_index(fields: &Vec<LdtkFieldInstance>, name: &str) -> (r: Option<usize>)
    ensures
        match r {
            Some(i) => i < fields@.len() && find_field(fields@, name@) == Some(fields@[i as int]),
            None => find_field(fields@, name@) is None,
        },
{
    let mut i: usize = 0;
    assert(fields@.skip(0) =~= fields@);
    while i < fields.len()
        invariant
            i <= fields@.len(),
            find_field(fields@, name@) == find_field(fields@.skip(i as int), name@),
        decreases fields@.len() - i,
    {
        assert(fields@.skip(i as int)[0] == fields@[i as int]);
        if crate::ldtk::text::str_eq(fields[i].identifier.as_str(), name) {
            return Some(i);
        }
        assert(fields@.skip(i as int).drop_first() =~= fields@.skip(i + 1));
        i = i + 1;
    }
    None
}

} // verus!
