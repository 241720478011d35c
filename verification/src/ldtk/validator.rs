use vstd::prelude::*;
use vstd::string::*;

use crate::ldtk::schema::{
    field_value, find_field, find_field_index, opt_string_view, value_str, FieldValue,
    LdtkEntityInstance, LdtkLayerInstance, LdtkLevel, LdtkRoot,
};
use crate::ldtk::text::{decimal, decimal_string, str_eq, str_starts_with};

verus! {

// ---------------------------------------------------------------------------
// What the validator reports, as a function of the input
// ---------------------------------------------------------------------------

/// The characters of each message, in order.
pub open spec fn views(v: Seq<String>) -> Seq<Seq<char>> {
    v.map_values(|s: String| s@)
}

/// Debug form of a pixel position: `[x, y]`.
pub open spec fn px_text(px: [i32; 2]) -> Seq<char> {
    "["@ + decimal(px[0] as int) + ", "@ + decimal(px[1] as int) + "]"@
}

pub open spec fn msg_layers_null(level: Seq<char>) -> Seq<char> {
    "Level '"@ + level + "': layerInstances is null (external files not supported)"@
}

pub open spec fn msg_no_intgrid(level: Seq<char>) -> Seq<char> {
    "Level '"@ + level + "': no IntGrid layer found"@
}

pub open spec fn msg_no_entities(level: Seq<char>) -> Seq<char> {
    "Level '"@ + level + "': no Entities layer found"@
}

pub open spec fn msg_grid_size(level: Seq<char>, layer: Seq<char>, grid_size: i32) -> Seq<char> {
    "Level '"@ + level + "', layer '"@ + layer + "': grid_size is "@ + decimal(grid_size as int)
        + " (expected 18)"@
}

pub open spec fn msg_csv_length(
    level: Seq<char>,
    layer: Seq<char>,
    len: int,
    c_wid: i32,
    c_hei: i32,
    expected: usize,
) -> Seq<char> {
    "Level '"@ + level + "', layer '"@ + layer + "': intGridCsv length "@ + decimal(len) + " != "@
        + decimal(c_wid as int) + "×"@ + decimal(c_hei as int) + " = "@ + decimal(expected as int)
}

pub open spec fn msg_missing_field(
    level: Seq<char>,
    entity: Seq<char>,
    px: [i32; 2],
    field: Seq<char>,
) -> Seq<char> {
    "Level '"@ + level + "': entity '"@ + entity + "' at "@ + px_text(px)
        + " is missing required field '"@ + field + "'"@
}

pub open spec fn msg_null_field(
    level: Seq<char>,
    entity: Seq<char>,
    px: [i32; 2],
    field: Seq<char>,
) -> Seq<char> {
    "Level '"@ + level + "': entity '"@ + entity + "' at "@ + px_text(px)
        + " has null value for required field '"@ + field + "'"@
}

pub open spec fn msg_unknown_enemy(level: Seq<char>, enemy_type: Seq<char>) -> Seq<char> {
    "Level '"@ + level + "': Enemy has unknown enemy_type '"@ + enemy_type + "'"@
}

pub open spec fn msg_unknown_entity(level: Seq<char>, entity: Seq<char>) -> Seq<char> {
    "Level '"@ + level + "': unknown entity type '"@ + entity + "'"@
}

/// Layer kind the game needs at least once per level.
pub open spec fn has_layer_type(layers: Seq<LdtkLayerInstance>, t: Seq<char>) -> bool {
    exists|i: int| 0 <= i < layers.len() && #[trigger] layers[i].layer_type@ == t
}

/// The enemy kinds the game knows.
pub open spec fn known_enemy_type(t: Seq<char>) -> bool {
    t == "Dog"@ || t == "Squirrel"@ || t == "Snake"@ || t == "Rat"@ || t == "Possum"@
}

/// Decorative props: `Prop` or any `Prop_*` kind.
pub open spec fn prop_entity(t: Seq<char>) -> bool {
    t == "Prop"@ || ("Prop_"@.len() <= t.len() && t.subrange(0, "Prop_"@.len() as int) == "Prop_"@)
}

/// Entity kinds that need no field beyond their position (props and lights
/// carry only optional fields with defaults).
pub open spec fn plain_entity(t: Seq<char>) -> bool {
    t == "Star"@ || t == "HealthFood"@ || t == "Spawn"@ || t == "Gate"@ || t == "Exit"@
        || t == "Light"@ || prop_entity(t)
}

/// What a required field check reports: nothing when the field is present
/// and non-null.
pub open spec fn required_field_msgs(
    level: Seq<char>,
    entity: LdtkEntityInstance,
    field: Seq<char>,
) -> Seq<Seq<char>> {
    match find_field(entity.field_instances@, field) {
        None => seq![msg_missing_field(level, entity.identifier@, entity.px, field)],
        Some(f) => if f.value is None {
            seq![msg_null_field(level, entity.identifier@, entity.px, field)]
        } else {
            seq![]
        },
    }
}

pub open spec fn enemy_type_msgs(level: Seq<char>, entity: LdtkEntityInstance) -> Seq<Seq<char>> {
    match value_str(field_value(entity.field_instances@, "enemy_type"@)) {
        Some(t) => if known_enemy_type(t) {
            seq![]
        } else {
            seq![msg_unknown_enemy(level, t)]
        },
        None => seq![],
    }
}

/// Messages for one entity: its kind must be known, and Enemy / Door carry
/// required fields.
pub open spec fn entity_msgs(level: Seq<char>, entity: LdtkEntityInstance) -> Seq<Seq<char>> {
    let id = entity.identifier@;
    if id == "Enemy"@ {
        required_field_msgs(level, entity, "enemy_type"@) + required_field_msgs(
            level,
            entity,
            "patrol_range"@,
        ) + required_field_msgs(level, entity, "health"@) + enemy_type_msgs(level, entity)
    } else if id == "Door"@ {
        required_field_msgs(level, entity, "target_layer"@)
    } else if plain_entity(id) {
        seq![]
    } else {
        seq![msg_unknown_entity(level, id)]
    }
}

pub open spec fn entities_msgs(level: Seq<char>, entities: Seq<LdtkEntityInstance>) -> Seq<
    Seq<char>,
>
    decreases entities.len(),
{
    if entities.len() == 0 {
        seq![]
    } else {
        entities_msgs(level, entities.drop_last()) + entity_msgs(level, entities.last())
    }
}

/// Expected CSV length of an IntGrid layer: the `i32` cell count taken as
/// `usize`.
pub open spec fn expected_csv_len(layer: LdtkLayerInstance) -> usize {
    (layer.c_wid * layer.c_hei) as usize
}

pub open spec fn csv_mismatch(layer: LdtkLayerInstance) -> bool {
    layer.layer_type@ == "IntGrid"@ && layer.int_grid_csv@.len() != 0
        && layer.int_grid_csv@.len() != expected_csv_len(layer)
}

/// Messages for one layer: grid size, CSV length, then its entities.
pub open spec fn layer_msgs(level: Seq<char>, layer: LdtkLayerInstance) -> Seq<Seq<char>> {
    (if layer.grid_size != 18 {
        seq![msg_grid_size(level, layer.identifier@, layer.grid_size)]
    } else {
        seq![]
    }) + (if csv_mismatch(layer) {
        seq![
            msg_csv_length(
                level,
                layer.identifier@,
                layer.int_grid_csv@.len() as int,
                layer.c_wid,
                layer.c_hei,
                expected_csv_len(layer),
            ),
        ]
    } else {
        seq![]
    }) + entities_msgs(level, layer.entity_instances@)
}

pub open spec fn layers_msgs(level: Seq<char>, layers: Seq<LdtkLayerInstance>) -> Seq<Seq<char>>
    decreases layers.len(),
{
    if layers.len() == 0 {
        seq![]
    } else {
        layers_msgs(level, layers.drop_last()) + layer_msgs(level, layers.last())
    }
}

/// Messages for one level.
pub open spec fn level_msgs(level: LdtkLevel) -> Seq<Seq<char>> {
    let name = level.identifier@;
    match level.layer_instances {
        None => seq![msg_layers_null(name)],
        Some(layers) => (if has_layer_type(layers@, "IntGrid"@) {
            seq![]
        } else {
            seq![msg_no_intgrid(name)]
        }) + (if has_layer_type(layers@, "Entities"@) {
            seq![]
        } else {
            seq![msg_no_entities(name)]
        }) + layers_msgs(name, layers@),
    }
}

pub open spec fn levels_msgs(levels: Seq<LdtkLevel>) -> Seq<Seq<char>>
    decreases levels.len(),
{
    if levels.len() == 0 {
        seq![]
    } else {
        levels_msgs(levels.drop_last()) + level_msgs(levels.last())
    }
}

/// Every violation in the project, level by level, in input order.
pub open spec fn validation_messages(root: LdtkRoot) -> Seq<Seq<char>> {
    levels_msgs(root.levels@)
}

/// The IntGrid cell count `c_wid * c_hei` fits `i32` for every inline IntGrid
/// layer (the count is computed in `i32`).
pub open spec fn csv_products_fit(root: LdtkRoot) -> bool {
    forall|i: int|
        0 <= i < root.levels@.len() ==> match #[trigger] root.levels@[i].layer_instances {
            Some(layers) => forall|j: int|
                0 <= j < layers@.len() && (#[trigger] layers@[j]).layer_type@ == "IntGrid"@
                    ==> i32::MIN <= layers@[j].c_wid * layers@[j].c_hei <= i32::MAX,
            None => true,
        }
}

// ---------------------------------------------------------------------------
// Implementation
// ---------------------------------------------------------------------------

fn push_msg(errors: &mut Vec<String>, msg: String)
    ensures
        views(final(errors)@) == views(old(errors)@).push(msg@),
{
    errors.push(msg);
    assert(views(errors@) =~= views(old(errors)@).push(msg@));
}

fn px_string(px: [i32; 2]) -> (s: String)
    ensures
        s@ == px_text(px),
{
    let mut s = String::from_str("[");
    let x = decimal_string(px[0] as i128);
    s.append(x.as_str());
    s.append(", ");
    let y = decimal_string(px[1] as i128);
    s.append(y.as_str());
    s.append("]");
    s
}

/// Whether some layer has the given kind.
pub fn any_layer_of_type(layers: &Vec<LdtkLayerInstance>, t: &str) -> (r: bool)
    ensures
        r == has_layer_type(layers@, t@),
{
    let mut i: usize = 0;
    while i < layers.len()
        invariant
            i <= layers@.len(),
            forall|j: int| 0 <= j < i ==> layers@[j].layer_type@ != t@,
        decreases layers@.len() - i,
    {
        if str_eq(layers[i].layer_type.as_str(), t) {
            return true;
        }
        i = i + 1;
    }
    false
}

/// Checks that `field_name` exists on `entity` and has a non-null value,
/// pushing a descriptive error otherwise.
fn validate_entity_field(
    entity: &LdtkEntityInstance,
    field_name: &str,
    level_name: &str,
    errors: &mut Vec<String>,
)
    ensures
        views(final(errors)@) == views(old(errors)@) + required_field_msgs(
            level_name@,
            *entity,
            field_name@,
        ),
{
    match find_field_index(&entity.field_instances, field_name) {
        None => {
            let mut s = String::from_str("Level '");
            s.append(level_name);
            s.append("': entity '");
            s.append(entity.identifier.as_str());
            s.append("' at ");
            let p = px_string(entity.px);
            s.append(p.as_str());
            s.append(" is missing required field '");
            s.append(field_name);
            s.append("'");
            push_msg(errors, s);
        },
        Some(i) => {
            if entity.field_instances[i].value.is_none() {
                let mut s = String::from_str("Level '");
                s.append(level_name);
                s.append("': entity '");
                s.append(entity.identifier.as_str());
                s.append("' at ");
                let p = px_string(entity.px);
                s.append(p.as_str());
                s.append(" has null value for required field '");
                s.append(field_name);
                s.append("'");
                push_msg(errors, s);
            }
        },
    }
    assert(views(errors@) =~= views(old(errors)@) + required_field_msgs(
        level_name@,
        *entity,
        field_name@,
    ));
}

/// Returns the string value of `field_name` on `entity`, if present and non-null.
/// Returns `None` when the field is absent, null, or not a string.
pub fn get_entity_field_str(entity: &LdtkEntityInstance, field_name: &str) -> (r: Option<String>)
    ensures
        opt_string_view(r) == value_str(field_value(entity.field_instances@, field_name@)),
{
    match find_field_index(&entity.field_instances, field_name) {
        None => None,
        Some(i) => match &entity.field_instances[i].value {
            Some(FieldValue::Str(s)) => Some(s.clone()),
            _ => None,
        },
    }
}

fn is_known_enemy_type(t: &str) -> (r: bool)
    ensures
        r == known_enemy_type(t@),
{
    str_eq(t, "Dog") || str_eq(t, "Squirrel") || str_eq(t, "Snake") || str_eq(t, "Rat")
        || str_eq(t, "Possum")
}

fn validate_entity(entity: &LdtkEntityInstance, level_name: &str, errors: &mut Vec<String>)
    ensures
        views(final(errors)@) == views(old(errors)@) + entity_msgs(level_name@, *entity),
{
    let id = entity.identifier.as_str();
    if str_eq(id, "Enemy") {
        validate_entity_field(entity, "enemy_type", level_name, errors);
        validate_entity_field(entity, "patrol_range", level_name, errors);
        validate_entity_field(entity, "health", level_name, errors);
        let ghost before_type = errors@;
        if let Some(val) = get_entity_field_str(entity, "enemy_type") {
            if !is_known_enemy_type(val.as_str()) {
                let mut s = String::from_str("Level '");
                s.append(level_name);
                s.append("': Enemy has unknown enemy_type '");
                s.append(val.as_str());
                s.append("'");
                push_msg(errors, s);
            }
        }
        assert(views(errors@) =~= views(before_type) + enemy_type_msgs(level_name@, *entity));
    } else if str_eq(id, "Door") {
        validate_entity_field(entity, "target_layer", level_name, errors);
    } else if str_eq(id, "Star") || str_eq(id, "HealthFood") || str_eq(id, "Spawn") || str_eq(
        id,
        "Gate",
    ) || str_eq(id, "Exit") || str_eq(id, "Light") || str_eq(id, "Prop") || str_starts_with(
        id,
        "Prop_",
    ) {
    } else {
        let mut s = String::from_str("Level '");
        s.append(level_name);
        s.append("': unknown entity type '");
        s.append(id);
        s.append("'");
        push_msg(errors, s);
    }
    assert(views(errors@) =~= views(old(errors)@) + entity_msgs(level_name@, *entity));
}

fn validate_layer(layer: &LdtkLayerInstance, level_name: &str, errors: &mut Vec<String>)
    requires
        layer.layer_type@ == "IntGrid"@ ==> i32::MIN <= layer.c_wid * layer.c_hei <= i32::MAX,
    ensures
        views(final(errors)@) == views(old(errors)@) + layer_msgs(level_name@, *layer),
{
    // Grid size must be 18 (TILE_SIZE).
    if layer.grid_size != 18 {
        let mut s = String::from_str("Level '");
        s.append(level_name);
        s.append("', layer '");
        s.append(layer.identifier.as_str());
        s.append("': grid_size is ");
        let g = decimal_string(layer.grid_size as i128);
        s.append(g.as_str());
        s.append(" (expected 18)");
        push_msg(errors, s);
    }
    let ghost after_grid = errors@;
    // IntGrid CSV length must match dimensions (empty is OK: unpainted level).
    if str_eq(layer.layer_type.as_str(), "IntGrid") {
        let expected = (layer.c_wid * layer.c_hei) as usize;
        let len = layer.int_grid_csv.len();
        if len != 0 && len != expected {
            let mut s = String::from_str("Level '");
            s.append(level_name);
            s.append("', layer '");
            s.append(layer.identifier.as_str());
            s.append("': intGridCsv length ");
            let a = decimal_string(len as i128);
            s.append(a.as_str());
            s.append(" != ");
            let b = decimal_string(layer.c_wid as i128);
            s.append(b.as_str());
            s.append("×");
            let c = decimal_string(layer.c_hei as i128);
            s.append(c.as_str());
            s.append(" = ");
            let d = decimal_string(expected as i128);
            s.append(d.as_str());
            push_msg(errors, s);
        }
    }
    let ghost after_csv = errors@;
    // Entity types and required fields.
    let ents = &layer.entity_instances;
    let mut k: usize = 0;
    while k < ents.len()
        invariant
            k <= ents@.len(),
            views(errors@) == views(after_csv) + entities_msgs(
                level_name@,
                ents@.take(k as int),
            ),
        decreases ents@.len() - k,
    {
        assert(ents@.take(k + 1).drop_last() =~= ents@.take(k as int));
        validate_entity(&ents[k], level_name, errors);
        assert(views(errors@) =~= views(after_csv) + entities_msgs(
            level_name@,
            ents@.take(k + 1),
        ));
        k = k + 1;
    }
    assert(ents@.take(ents@.len() as int) =~= ents@);
    assert(views(errors@) =~= views(old(errors)@) + layer_msgs(level_name@, *layer));
}

fn validate_level(level: &LdtkLevel, errors: &mut Vec<String>)
    requires
        match level.layer_instances {
            Some(layers) => forall|j: int|
                0 <= j < layers@.len() && (#[trigger] layers@[j]).layer_type@ == "IntGrid"@
                    ==> i32::MIN <= layers@[j].c_wid * layers@[j].c_hei <= i32::MAX,
            None => true,
        },
    ensures
        views(final(errors)@) == views(old(errors)@) + level_msgs(*level),
{
    let name = level.identifier.as_str();
    match &level.layer_instances {
        None => {
            let mut s = String::from_str("Level '");
            s.append(name);
            s.append("': layerInstances is null (external files not supported)");
            push_msg(errors, s);
        },
        Some(layers) => {
            if !any_layer_of_type(layers, "IntGrid") {
                let mut s = String::from_str("Level '");
                s.append(name);
                s.append("': no IntGrid layer found");
                push_msg(errors, s);
            }
            if !any_layer_of_type(layers, "Entities") {
                let mut s = String::from_str("Level '");
                s.append(name);
                s.append("': no Entities layer found");
                push_msg(errors, s);
            }
            let ghost start = errors@;
            let mut j: usize = 0;
            while j < layers.len()
                invariant
                    j <= layers@.len(),
                    forall|jj: int|
                        0 <= jj < layers@.len() && (#[trigger] layers@[jj]).layer_type@
                            == "IntGrid"@ ==> i32::MIN <= layers@[jj].c_wid * layers@[jj].c_hei
                            <= i32::MAX,
                    views(errors@) == views(start) + layers_msgs(
                        name@,
                        layers@.take(j as int),
                    ),
                decreases layers@.len() - j,
            {
                assert(layers@.take(j + 1).drop_last() =~= layers@.take(j as int));
                validate_layer(&layers[j], name, errors);
                assert(views(errors@) =~= views(start) + layers_msgs(
                    name@,
                    layers@.take(j + 1),
                ));
                j = j + 1;
            }
            assert(layers@.take(layers@.len() as int) =~= layers@);
        },
    }
    assert(views(errors@) =~= views(old(errors)@) + level_msgs(*level));
}

/// Every violation found in `root`, in level order.
pub fn validation_errors(root: &LdtkRoot) -> (errors: Vec<String>)
    requires
        csv_products_fit(*root),
    ensures
        views(errors@) == validation_messages(*root),
{
    let mut errors: Vec<String> = Vec::new();
    let levels = &root.levels;
    let mut i: usize = 0;
    while i < levels.len()
        invariant
            i <= levels@.len(),
            levels@ == root.levels@,
            csv_products_fit(*root),
            views(errors@) == levels_msgs(levels@.take(i as int)),
        decreases levels@.len() - i,
    {
        assert(levels@.take(i + 1).drop_last() =~= levels@.take(i as int));
        assert(root.levels@[i as int] == levels@[i as int]);
        validate_level(&levels[i], &mut errors);
        assert(views(errors@) =~= levels_msgs(levels@.take(i + 1)));
        i = i + 1;
    }
    assert(levels@.take(levels@.len() as int) =~= levels@);
    errors
}

/// Validates a parsed [`LdtkRoot`] and returns all discovered errors.
///
/// Collect-all semantics: every violation is recorded before returning, so
/// callers see the complete picture in a single pass.
pub fn validate(root: &LdtkRoot) -> (r: Result<(), Vec<String>>)
    requires
        csv_products_fit(*root),
    ensures
        r is Ok <==> validation_messages(*root).len() == 0,
        r matches Err(errors) ==> views(errors@) == validation_messages(*root),
{
    let errors = validation_errors(root);
    if errors.len() == 0 {
        Ok(())
    } else {
        Err(errors)
    }
}

// ---------------------------------------------------------------------------
// What passing validation means
// ---------------------------------------------------------------------------

/// The entity sets `field` to a non-null value.
pub open spec fn has_value(entity: LdtkEntityInstance, field: Seq<char>) -> bool {
    field_value(entity.field_instances@, field) is Some
}

/// An entity the game can place: an Enemy with its type (a known one),
/// patrol range and health; a Door with its target layer; or a Star,
/// HealthFood, Spawn, Gate, Exit, Light, Prop or `Prop_*` entity.
pub open spec fn entity_conforms(entity: LdtkEntityInstance) -> bool {
    let id = entity.identifier@;
    if id == "Enemy"@ {
        &&& has_value(entity, "enemy_type"@)
        &&& has_value(entity, "patrol_range"@)
        &&& has_value(entity, "health"@)
        &&& value_str(field_value(entity.field_instances@, "enemy_type"@)) matches Some(t) ==> (t
            == "Dog"@ || t == "Squirrel"@ || t == "Snake"@ || t == "Rat"@ || t == "Possum"@)
    } else if id == "Door"@ {
        has_value(entity, "target_layer"@)
    } else {
        id == "Star"@ || id == "HealthFood"@ || id == "Spawn"@ || id == "Gate"@ || id == "Exit"@
            || id == "Light"@ || id == "Prop"@ || ("Prop_"@.len() <= id.len() && id.subrange(0, 5)
            == "Prop_"@)
    }
}

/// A layer on the game's 18-pixel grid whose IntGrid CSV is empty or fills
/// the grid, and whose entities all conform.
pub open spec fn layer_conforms(layer: LdtkLayerInstance) -> bool {
    &&& layer.grid_size == 18
    &&& (layer.layer_type@ == "IntGrid"@ ==> layer.int_grid_csv@.len() == 0
        || layer.int_grid_csv@.len() == (layer.c_wid * layer.c_hei) as usize)
    &&& forall|k: int|
        0 <= k < layer.entity_instances@.len() ==> entity_conforms(
            #[trigger] layer.entity_instances@[k],
        )
}

/// A level stored inline, with an IntGrid and an Entities layer, all of its
/// layers conforming.
pub open spec fn level_conforms(level: LdtkLevel) -> bool {
    match level.layer_instances {
        None => false,
        Some(layers) => {
            &&& exists|j: int| 0 <= j < layers@.len() && (#[trigger] layers@[j]).layer_type@ == "IntGrid"@
            &&& exists|j: int| 0 <= j < layers@.len() && (#[trigger] layers@[j]).layer_type@ == "Entities"@
            &&& forall|j: int| 0 <= j < layers@.len() ==> layer_conforms(#[trigger] layers@[j])
        },
    }
}

/// Every level of the project conforms.
pub open spec fn conforms(root: LdtkRoot) -> bool {
    forall|i: int| 0 <= i < root.levels@.len() ==> level_conforms(#[trigger] root.levels@[i])
}

proof fn lemma_required_field_msgs(level: Seq<char>, entity: LdtkEntityInstance, field: Seq<char>)
    ensures
        required_field_msgs(level, entity, field).len() == 0 <==> has_value(entity, field),
{
}

proof fn lemma_entity_msgs(level: Seq<char>, entity: LdtkEntityInstance)
    ensures
        entity_msgs(level, entity).len() == 0 <==> entity_conforms(entity),
{
    reveal_strlit("Prop_");
    lemma_required_field_msgs(level, entity, "enemy_type"@);
    lemma_required_field_msgs(level, entity, "patrol_range"@);
    lemma_required_field_msgs(level, entity, "health"@);
    lemma_required_field_msgs(level, entity, "target_layer"@);
}

proof fn lemma_entities_msgs(level: Seq<char>, entities: Seq<LdtkEntityInstance>)
    ensures
        entities_msgs(level, entities).len() == 0 <==> forall|k: int|
            0 <= k < entities.len() ==> entity_conforms(#[trigger] entities[k]),
    decreases entities.len(),
{
    if entities.len() > 0 {
        let init = entities.drop_last();
        lemma_entities_msgs(level, init);
        lemma_entity_msgs(level, entities.last());
        if entities_msgs(level, entities).len() == 0 {
            assert forall|k: int| 0 <= k < entities.len() implies entity_conforms(
                #[trigger] entities[k],
            ) by {
                if k < entities.len() - 1 {
                    assert(init[k] == entities[k]);
                }
            }
        }
        if forall|k: int| 0 <= k < entities.len() ==> entity_conforms(#[trigger] entities[k]) {
            assert forall|k: int| 0 <= k < init.len() implies entity_conforms(#[trigger] init[k]) by {
                assert(init[k] == entities[k]);
            }
            assert(entity_conforms(entities[entities.len() - 1]));
        }
    }
}

proof fn lemma_layer_msgs(level: Seq<char>, layer: LdtkLayerInstance)
    ensures
        layer_msgs(level, layer).len() == 0 <==> layer_conforms(layer),
{
    lemma_entities_msgs(level, layer.entity_instances@);
}

proof fn lemma_layers_msgs(level: Seq<char>, layers: Seq<LdtkLayerInstance>)
    ensures
        layers_msgs(level, layers).len() == 0 <==> forall|j: int|
            0 <= j < layers.len() ==> layer_conforms(#[trigger] layers[j]),
    decreases layers.len(),
{
    if layers.len() > 0 {
        let init = layers.drop_last();
        lemma_layers_msgs(level, init);
        lemma_layer_msgs(level, layers.last());
        if layers_msgs(level, layers).len() == 0 {
            assert forall|j: int| 0 <= j < layers.len() implies layer_conforms(#[trigger] layers[j]) by {
                if j < layers.len() - 1 {
                    assert(init[j] == layers[j]);
                }
            }
        }
        if forall|j: int| 0 <= j < layers.len() ==> layer_conforms(#[trigger] layers[j]) {
            assert forall|j: int| 0 <= j < init.len() implies layer_conforms(#[trigger] init[j]) by {
                assert(init[j] == layers[j]);
            }
            assert(layer_conforms(layers[layers.len() - 1]));
        }
    }
}

proof fn lemma_levels_msgs(levels: Seq<LdtkLevel>)
    ensures
        levels_msgs(levels).len() == 0 <==> forall|i: int|
            0 <= i < levels.len() ==> level_conforms(#[trigger] levels[i]),
    decreases levels.len(),
{
    if levels.len() > 0 {
        let init = levels.drop_last();
        let last = levels.last();
        lemma_levels_msgs(init);
        match last.layer_instances {
            Some(layers) => lemma_layers_msgs(last.identifier@, layers@),
            None => {},
        }
        assert(level_msgs(last).len() == 0 <==> level_conforms(last));
        if levels_msgs(levels).len() == 0 {
            assert forall|i: int| 0 <= i < levels.len() implies level_conforms(#[trigger] levels[i]) by {
                if i < levels.len() - 1 {
                    assert(init[i] == levels[i]);
                }
            }
        }
        if forall|i: int| 0 <= i < levels.len() ==> level_conforms(#[trigger] levels[i]) {
            assert forall|i: int| 0 <= i < init.len() implies level_conforms(#[trigger] init[i]) by {
                assert(init[i] == levels[i]);
            }
            assert(level_conforms(levels[levels.len() - 1]));
        }
    }
}

/// Entities that need only a position never fail validation: a Star,
/// HealthFood, Spawn, Gate, Exit, Light, Prop or `Prop_*` entity adds no
/// message, whatever fields it has; any kind other than these, Enemy and
/// Door is reported as unknown, with exactly one message.
pub proof fn lemma_entity_kinds(level: Seq<char>, e: LdtkEntityInstance)
    ensures
        ({
            let id = e.identifier@;
            id == "Star"@ || id == "HealthFood"@ || id == "Spawn"@ || id == "Gate"@ || id == "Exit"@
                || id == "Light"@ || id == "Prop"@ || ("Prop_"@.len() <= id.len() && id.subrange(
                0,
                "Prop_"@.len() as int,
            ) == "Prop_"@)
        }) ==> entity_msgs(level, e).len() == 0 && entity_conforms(e),
        ({
            let id = e.identifier@;
            !(id == "Star"@ || id == "HealthFood"@ || id == "Spawn"@ || id == "Gate"@ || id
                == "Exit"@ || id == "Light"@ || id == "Prop"@ || ("Prop_"@.len() <= id.len()
                && id.subrange(0, "Prop_"@.len() as int) == "Prop_"@) || id == "Enemy"@ || id
                == "Door"@)
        }) ==> entity_msgs(level, e) == seq![
            "Level '"@ + level + "': unknown entity type '"@ + e.identifier@ + "'"@,
        ] && !entity_conforms(e),
{
    reveal_strlit("Enemy");
    reveal_strlit("Door");
    reveal_strlit("Star");
    reveal_strlit("HealthFood");
    reveal_strlit("Spawn");
    reveal_strlit("Gate");
    reveal_strlit("Exit");
    reveal_strlit("Light");
    reveal_strlit("Prop");
    reveal_strlit("Prop_");
    let id = e.identifier@;
    if "Prop_"@.len() <= id.len() && id.subrange(0, 5) == "Prop_"@ {
        assert(id[0] == 'P' && id[4] == '_') by {
            assert(id.subrange(0, 5)[0] == 'P');
            assert(id.subrange(0, 5)[4] == '_');
        }
        assert(id != "Enemy"@);
        assert(id != "Door"@);
    }
    if id == "Star"@ || id == "HealthFood"@ || id == "Spawn"@ || id == "Gate"@ || id == "Exit"@
        || id == "Light"@ || id == "Prop"@ {
        assert("Enemy"@[0] == 'E' && "Enemy"@[1] == 'n' && "Door"@[0] == 'D');
        assert(id.len() >= 4);
        assert(id[0] != 'D');
        assert(id[0] != 'E' || id[1] == 'x');
        assert(id != "Enemy"@ && id != "Door"@);
    }
    lemma_entity_msgs(level, e);
}

/// A project passes validation exactly when it conforms: every level is
/// inline, has an IntGrid and an Entities layer, every layer is on the
/// 18-pixel grid with a CSV that is empty or fills it, and every entity is of
/// a known kind with its required fields set.
pub proof fn lemma_validation_passes_iff_conforms(root: LdtkRoot)
    ensures
        validation_messages(root).len() == 0 <==> conforms(root),
{
    lemma_levels_msgs(root.levels@);
}

/// Whether every inline IntGrid layer's cell count `c_wid * c_hei` fits
/// `i32`, as validation computes it.
pub fn grid_products_fit(root: &LdtkRoot) -> (b: bool)
    ensures
        b == csv_products_fit(*root),
{
    let mut i: usize = 0;
    while i < root.levels.len()
        invariant
            i <= root.levels@.len(),
            forall|k: int|
                0 <= k < i ==> match #[trigger] root.levels@[k].layer_instances {
                    Some(layers) => forall|j: int|
                        0 <= j < layers@.len() && (#[trigger] layers@[j]).layer_type@ == "IntGrid"@
                            ==> i32::MIN <= layers@[j].c_wid * layers@[j].c_hei <= i32::MAX,
                    None => true,
                },
        decreases root.levels@.len() - i,
    {
        match &root.levels[i].layer_instances {
            None => {},
            Some(layers) => {
                let mut j: usize = 0;
                while j < layers.len()
                    invariant
                        i < root.levels@.len(),
                        root.levels@[i as int].layer_instances == Some(*layers),
                        j <= layers@.len(),
                        forall|q: int|
                            0 <= q < j && (#[trigger] layers@[q]).layer_type@ == "IntGrid"@
                                ==> i32::MIN <= layers@[q].c_wid * layers@[q].c_hei <= i32::MAX,
                    decreases layers@.len() - j,
                {
                    let l = &layers[j];
                    if str_eq(l.layer_type.as_str(), "IntGrid") {
                        let w = l.c_wid as i64;
                        let h = l.c_hei as i64;
                        assert(-0x4000_0000_0000_0000 <= w * h <= 0x4000_0000_0000_0000)
                            by (nonlinear_arith)
                            requires
                                -0x8000_0000 <= w <= 0x7fff_ffff,
                                -0x8000_0000 <= h <= 0x7fff_ffff,
                        ;
                        let p = w * h;
                        if p < i32::MIN as i64 || p > i32::MAX as i64 {
                            proof {
                                let lj = layers@[j as int];
                                assert(lj.layer_type@ == "IntGrid"@);
                                assert(!(i32::MIN <= lj.c_wid * lj.c_hei <= i32::MAX));
                                let lv = root.levels@[i as int];
                                assert(lv.layer_instances == Some(*layers));
                                assert(!(forall|q: int|
                                    0 <= q < layers@.len() && (#[trigger] layers@[q]).layer_type@
                                        == "IntGrid"@ ==> i32::MIN <= layers@[q].c_wid
                                        * layers@[q].c_hei <= i32::MAX));
                                if csv_products_fit(*root) {
                                    assert(match root.levels@[i as int].layer_instances {
                                        Some(ls) => forall|q: int|
                                            0 <= q < ls@.len() && (#[trigger] ls@[q]).layer_type@
                                                == "IntGrid"@ ==> i32::MIN <= ls@[q].c_wid
                                                * ls@[q].c_hei <= i32::MAX,
                                        None => true,
                                    });
                                }
                            }
                            return false;
                        }
                    }
                    j = j + 1;
                }
            },
        }
        i = i + 1;
    }
    true
}

} // verus!
