use jaspers_world::ldtk::cli::find_arg;
use jaspers_world::ldtk::converter::{convert_level, convert_tiles, px_to_world, ConvertedLayer, PixelPos};
use jaspers_world::ldtk::fields::{
    center_anchor_half_height, hex_is_sliceable, get_field_bool, get_field_f32, get_field_i32, get_field_str,
    get_level_field_bool, get_level_field_color, get_level_field_f32, parse_hex_color, Rgb8,
};
use jaspers_world::ldtk::merge::{convert, merge_sublevel_layers, root_is_convertible, str_lt};
use jaspers_world::ldtk::schema::{
    FieldValue, LdtkEntityInstance, LdtkFieldInstance, LdtkLayerInstance, LdtkLevel, LdtkRoot,
    Number,
};
use jaspers_world::ldtk::validator::{grid_products_fit, validate};
use serde_json::Value;

// ---------------------------------------------------------------------------
// Building LDtk values
// ---------------------------------------------------------------------------

fn number_of(n: &serde_json::Number) -> Number {
    if let Some(u) = n.as_u64() {
        Number::PosInt(u)
    } else if let Some(i) = n.as_i64() {
        Number::NegInt(i)
    } else {
        Number::Float(n.as_f64().unwrap().to_bits())
    }
}

fn field_value_of(v: &Value) -> Option<FieldValue> {
    match v {
        Value::Null => None,
        Value::Bool(b) => Some(FieldValue::Bool(*b)),
        Value::Number(n) => Some(FieldValue::Number(number_of(n))),
        Value::String(s) => Some(FieldValue::Str(s.clone())),
        _ => Some(FieldValue::Other),
    }
}

fn fields_of(v: &Value) -> Vec<LdtkFieldInstance> {
    v.as_array()
        .map(|a| {
            a.iter()
                .map(|f| LdtkFieldInstance {
                    identifier: f["__identifier"].as_str().unwrap().to_string(),
                    value: field_value_of(&f["__value"]),
                })
                .collect()
        })
        .unwrap_or_default()
}

fn layer_of(l: &Value) -> LdtkLayerInstance {
    LdtkLayerInstance {
        identifier: l["__identifier"].as_str().unwrap().to_string(),
        layer_type: l["__type"].as_str().unwrap().to_string(),
        grid_size: l["__gridSize"].as_i64().unwrap() as i32,
        c_wid: l["__cWid"].as_i64().unwrap() as i32,
        c_hei: l["__cHei"].as_i64().unwrap() as i32,
        int_grid_csv: l["intGridCsv"]
            .as_array()
            .map(|a| a.iter().map(|x| x.as_i64().unwrap() as i32).collect())
            .unwrap_or_default(),
        entity_instances: l["entityInstances"]
            .as_array()
            .map(|a| {
                a.iter()
                    .map(|e| LdtkEntityInstance {
                        identifier: e["__identifier"].as_str().unwrap().to_string(),
                        px: [
                            e["px"][0].as_i64().unwrap() as i32,
                            e["px"][1].as_i64().unwrap() as i32,
                        ],
                        field_instances: fields_of(&e["fieldInstances"]),
                    })
                    .collect()
            })
            .unwrap_or_default(),
    }
}

fn root_from_json(json: &str) -> LdtkRoot {
    let v: Value = serde_json::from_str(json).unwrap();
    LdtkRoot {
        levels: v["levels"]
            .as_array()
            .unwrap()
            .iter()
            .map(|l| LdtkLevel {
                identifier: l["identifier"].as_str().unwrap().to_string(),
                layer_instances: l["layerInstances"]
                    .as_array()
                    .map(|a| a.iter().map(layer_of).collect()),
                field_instances: fields_of(&l["fieldInstances"]),
            })
            .collect(),
    }
}

fn make_intgrid_layer(c_wid: i32, c_hei: i32, csv: Vec<i32>) -> LdtkLayerInstance {
    LdtkLayerInstance {
        identifier: "Collision".to_string(),
        layer_type: "IntGrid".to_string(),
        grid_size: 18,
        c_wid,
        c_hei,
        int_grid_csv: csv,
        entity_instances: vec![],
    }
}

fn make_entities_layer(c_wid: i32, c_hei: i32, entities: Vec<LdtkEntityInstance>) -> LdtkLayerInstance {
    LdtkLayerInstance {
        identifier: "Entities".to_string(),
        layer_type: "Entities".to_string(),
        grid_size: 18,
        c_wid,
        c_hei,
        int_grid_csv: vec![],
        entity_instances: entities,
    }
}

fn make_entity(id: &str, px: [i32; 2], fields: Vec<LdtkFieldInstance>) -> LdtkEntityInstance {
    LdtkEntityInstance { identifier: id.to_string(), px, field_instances: fields }
}

fn field_str(id: &str, val: &str) -> LdtkFieldInstance {
    LdtkFieldInstance { identifier: id.to_string(), value: Some(FieldValue::Str(val.to_string())) }
}

/// A JSON float, as `serde_json::json!(val)` writes an `f64`.
fn field_f64(id: &str, val: f64) -> LdtkFieldInstance {
    let n = serde_json::Number::from_f64(val).unwrap();
    LdtkFieldInstance { identifier: id.to_string(), value: Some(FieldValue::Number(number_of(&n))) }
}

fn field_i64(id: &str, val: i64) -> LdtkFieldInstance {
    let n = serde_json::Number::from(val);
    LdtkFieldInstance { identifier: id.to_string(), value: Some(FieldValue::Number(number_of(&n))) }
}

fn minimal_root_with_layers(
    intgrid: LdtkLayerInstance,
    entities: LdtkLayerInstance,
    level_fields: Vec<LdtkFieldInstance>,
) -> LdtkRoot {
    LdtkRoot {
        levels: vec![LdtkLevel {
            identifier: "TestLevel".to_string(),
            layer_instances: Some(vec![intgrid, entities]),
            field_instances: level_fields,
        }],
    }
}

fn num_f64(n: Number) -> f64 {
    match n {
        Number::PosInt(u) => u as f64,
        Number::NegInt(i) => i as f64,
        Number::Float(bits) => f64::from_bits(bits),
    }
}

/// World position of a pixel position on a converted layer.
fn world(layer: &ConvertedLayer, pos: PixelPos) -> (f64, f64) {
    let (dx, dy) = px_to_world(pos, layer.entity_rows);
    (num_f64(layer.origin_x) + dx as f64, num_f64(layer.origin_y) + dy as f64)
}

// ---------------------------------------------------------------------------
// Validation
// ---------------------------------------------------------------------------

fn minimal_valid_json() -> &'static str {
    r#"{
        "levels": [{
            "identifier": "Level1",
            "layerInstances": [
                {
                    "__identifier": "Collision",
                    "__type": "IntGrid",
                    "__gridSize": 18,
                    "__cWid": 2,
                    "__cHei": 2,
                    "intGridCsv": [0, 0, 1, 1],
                    "entityInstances": []
                },
                {
                    "__identifier": "Entities",
                    "__type": "Entities",
                    "__gridSize": 18,
                    "__cWid": 2,
                    "__cHei": 2,
                    "intGridCsv": [],
                    "entityInstances": []
                }
            ],
            "fieldInstances": []
        }]
    }"#
}

/// A level with a 1x1 IntGrid layer and an Entities layer holding `entities`
/// (a JSON array).
fn one_cell_level(entities: &str) -> String {
    format!(
        r#"{{
        "levels": [{{
            "identifier": "L1",
            "layerInstances": [
                {{
                    "__identifier": "Collision",
                    "__type": "IntGrid",
                    "__gridSize": 18,
                    "__cWid": 1,
                    "__cHei": 1,
                    "intGridCsv": [0],
                    "entityInstances": []
                }},
                {{
                    "__identifier": "Entities",
                    "__type": "Entities",
                    "__gridSize": 18,
                    "__cWid": 1,
                    "__cHei": 1,
                    "intGridCsv": [],
                    "entityInstances": {}
                }}
            ],
            "fieldInstances": []
        }}]
    }}"#,
        entities
    )
}

#[test]
fn valid_level_passes() {
    let root = root_from_json(minimal_valid_json());
    assert!(validate(&root).is_ok());
}

#[test]
fn missing_layer_instances_is_error() {
    let json = r#"{
        "levels": [{"identifier": "L1", "layerInstances": null, "fieldInstances": []}]
    }"#;
    let root = root_from_json(json);
    let errs = validate(&root).unwrap_err();
    assert!(errs.iter().any(|e| e.contains("layerInstances is null")));
}

#[test]
fn missing_intgrid_layer_is_error() {
    let json = r#"{
        "levels": [{
            "identifier": "L1",
            "layerInstances": [{
                "__identifier": "Entities",
                "__type": "Entities",
                "__gridSize": 18,
                "__cWid": 1,
                "__cHei": 1,
                "intGridCsv": [],
                "entityInstances": []
            }],
            "fieldInstances": []
        }]
    }"#;
    let root = root_from_json(json);
    let errs = validate(&root).unwrap_err();
    assert!(errs.iter().any(|e| e.contains("no IntGrid layer found")));
}

#[test]
fn missing_entities_layer_is_error() {
    let json = r#"{
        "levels": [{
            "identifier": "L1",
            "layerInstances": [{
                "__identifier": "Collision",
                "__type": "IntGrid",
                "__gridSize": 18,
                "__cWid": 1,
                "__cHei": 1,
                "intGridCsv": [0],
                "entityInstances": []
            }],
            "fieldInstances": []
        }]
    }"#;
    let root = root_from_json(json);
    let errs = validate(&root).unwrap_err();
    assert!(errs.iter().any(|e| e.contains("no Entities layer found")));
}

#[test]
fn wrong_grid_size_is_error() {
    let json = r#"{
        "levels": [{
            "identifier": "L1",
            "layerInstances": [
                {
                    "__identifier": "Collision",
                    "__type": "IntGrid",
                    "__gridSize": 16,
                    "__cWid": 1,
                    "__cHei": 1,
                    "intGridCsv": [0],
                    "entityInstances": []
                },
                {
                    "__identifier": "Entities",
                    "__type": "Entities",
                    "__gridSize": 18,
                    "__cWid": 1,
                    "__cHei": 1,
                    "intGridCsv": [],
                    "entityInstances": []
                }
            ],
            "fieldInstances": []
        }]
    }"#;
    let root = root_from_json(json);
    let errs = validate(&root).unwrap_err();
    assert!(errs.iter().any(|e| e.contains("grid_size is 16 (expected 18)")));
}

#[test]
fn intgrid_csv_length_mismatch_is_error() {
    let json = r#"{
        "levels": [{
            "identifier": "L1",
            "layerInstances": [
                {
                    "__identifier": "Collision",
                    "__type": "IntGrid",
                    "__gridSize": 18,
                    "__cWid": 3,
                    "__cHei": 3,
                    "intGridCsv": [0, 1],
                    "entityInstances": []
                },
                {
                    "__identifier": "Entities",
                    "__type": "Entities",
                    "__gridSize": 18,
                    "__cWid": 3,
                    "__cHei": 3,
                    "intGridCsv": [],
                    "entityInstances": []
                }
            ],
            "fieldInstances": []
        }]
    }"#;
    let root = root_from_json(json);
    let errs = validate(&root).unwrap_err();
    assert!(errs.iter().any(|e| e.contains("intGridCsv length 2 != 3×3 = 9")));
}

#[test]
fn enemy_missing_fields_is_error() {
    let root = root_from_json(&one_cell_level(
        r#"[{
            "__identifier": "Enemy",
            "px": [10, 20],
            "fieldInstances": []
        }]"#,
    ));
    let errs = validate(&root).unwrap_err();
    assert!(errs.iter().any(|e| e.contains("missing required field 'enemy_type'")));
    assert!(errs.iter().any(|e| e.contains("missing required field 'patrol_range'")));
    assert!(errs.iter().any(|e| e.contains("missing required field 'health'")));
}

#[test]
fn enemy_unknown_type_is_error() {
    let root = root_from_json(&one_cell_level(
        r#"[{
            "__identifier": "Enemy",
            "px": [0, 0],
            "fieldInstances": [
                {"__identifier": "enemy_type", "__value": "Dragon"},
                {"__identifier": "patrol_range", "__value": 100},
                {"__identifier": "health", "__value": 3}
            ]
        }]"#,
    ));
    let errs = validate(&root).unwrap_err();
    assert!(errs.iter().any(|e| e.contains("unknown enemy_type 'Dragon'")));
}

#[test]
fn known_enemy_types_pass() {
    for enemy_type in &["Dog", "Squirrel", "Snake", "Rat", "Possum"] {
        let entities = format!(
            r#"[{{
                "__identifier": "Enemy",
                "px": [0, 0],
                "fieldInstances": [
                    {{"__identifier": "enemy_type", "__value": "{}"}},
                    {{"__identifier": "patrol_range", "__value": 100}},
                    {{"__identifier": "health", "__value": 3}}
                ]
            }}]"#,
            enemy_type
        );
        let root = root_from_json(&one_cell_level(&entities));
        assert!(validate(&root).is_ok(), "enemy_type '{}' should be valid", enemy_type);
    }
}

#[test]
fn door_missing_target_layer_is_error() {
    let root = root_from_json(&one_cell_level(
        r#"[{
            "__identifier": "Door",
            "px": [5, 5],
            "fieldInstances": []
        }]"#,
    ));
    let errs = validate(&root).unwrap_err();
    assert!(errs.iter().any(|e| e.contains("missing required field 'target_layer'")));
}

#[test]
fn unknown_entity_type_is_error() {
    let root = root_from_json(&one_cell_level(
        r#"[{
            "__identifier": "Treasure",
            "px": [0, 0],
            "fieldInstances": []
        }]"#,
    ));
    let errs = validate(&root).unwrap_err();
    assert!(errs.iter().any(|e| e.contains("unknown entity type 'Treasure'")));
}

#[test]
fn multiple_errors_all_reported() {
    // Level with wrong grid size AND missing Entities layer — both must appear
    let json = r#"{
        "levels": [{
            "identifier": "BadLevel",
            "layerInstances": [{
                "__identifier": "Collision",
                "__type": "IntGrid",
                "__gridSize": 32,
                "__cWid": 2,
                "__cHei": 2,
                "intGridCsv": [0, 0, 0],
                "entityInstances": []
            }],
            "fieldInstances": []
        }]
    }"#;
    let root = root_from_json(json);
    let errs = validate(&root).unwrap_err();
    assert!(errs.iter().any(|e| e.contains("no Entities layer found")));
    assert!(errs.iter().any(|e| e.contains("grid_size is 32")));
    assert!(errs.iter().any(|e| e.contains("intGridCsv length 3 != 2×2 = 4")));
    assert!(errs.len() >= 3);
}

#[test]
fn validation_messages_are_exact_and_ordered() {
    let json = r#"{
        "levels": [{
            "identifier": "BadLevel",
            "layerInstances": [{
                "__identifier": "Collision",
                "__type": "IntGrid",
                "__gridSize": 32,
                "__cWid": 2,
                "__cHei": 2,
                "intGridCsv": [0, 0, 0],
                "entityInstances": []
            }],
            "fieldInstances": []
        }]
    }"#;
    let errs = validate(&root_from_json(json)).unwrap_err();
    assert_eq!(
        errs,
        vec![
            "Level 'BadLevel': no Entities layer found".to_string(),
            "Level 'BadLevel', layer 'Collision': grid_size is 32 (expected 18)".to_string(),
            "Level 'BadLevel', layer 'Collision': intGridCsv length 3 != 2×2 = 4".to_string(),
        ]
    );
}

#[test]
fn empty_intgrid_csv_is_accepted() {
    let root = minimal_root_with_layers(make_intgrid_layer(5, 4, vec![]), make_entities_layer(5, 4, vec![]), vec![]);
    assert!(validate(&root).is_ok());
}

#[test]
fn null_required_field_is_reported() {
    let root = root_from_json(&one_cell_level(
        r#"[{
            "__identifier": "Door",
            "px": [5, -7],
            "fieldInstances": [{"__identifier": "target_layer", "__value": null}]
        }]"#,
    ));
    let errs = validate(&root).unwrap_err();
    assert_eq!(
        errs,
        vec!["Level 'L1': entity 'Door' at [5, -7] has null value for required field 'target_layer'".to_string()]
    );
}

#[test]
fn external_layers_skip_other_checks() {
    let json = r#"{
        "levels": [
            {"identifier": "A", "layerInstances": null, "fieldInstances": []},
            {"identifier": "B", "layerInstances": null, "fieldInstances": []}
        ]
    }"#;
    let errs = validate(&root_from_json(json)).unwrap_err();
    assert_eq!(
        errs,
        vec![
            "Level 'A': layerInstances is null (external files not supported)".to_string(),
            "Level 'B': layerInstances is null (external files not supported)".to_string(),
        ]
    );
}

// ---------------------------------------------------------------------------
// Conversion
// ---------------------------------------------------------------------------

#[test]
fn convert_tiles_flips_rows() {
    let layer = make_intgrid_layer(
        3,
        3,
        vec![
            1, 1, 1, // LDtk row 0 (top)
            2, 2, 2, // LDtk row 1
            3, 3, 3, // LDtk row 2 (bottom)
        ],
    );
    let tiles = convert_tiles(&layer);

    assert_eq!(tiles.len(), 3, "should have 3 rows");
    assert_eq!(tiles[0], vec![3, 3, 3], "game_row 0 should be LDtk row 2");
    assert_eq!(tiles[1], vec![2, 2, 2], "game_row 1 should be LDtk row 1");
    assert_eq!(tiles[2], vec![1, 1, 1], "game_row 2 should be LDtk row 0");
}

#[test]
fn convert_tiles_short_csv_pads_with_air() {
    let layer = make_intgrid_layer(2, 2, vec![1, 2, 3]);
    let tiles = convert_tiles(&layer);
    assert_eq!(tiles, vec![vec![3, 0], vec![1, 2]]);
    let empty = make_intgrid_layer(3, 1, vec![]);
    assert_eq!(convert_tiles(&empty), vec![vec![0, 0, 0]]);
}

#[test]
fn px_to_world_converts_correctly() {
    let (wx, wy) = px_to_world(PixelPos { x: 18, y: 18 }, 10);
    let (wx, wy) = (0.0 + wx as f64, 0.0 + wy as f64);
    assert!((wx - 18.0).abs() < 1e-4, "world_x should be 18.0, got {wx}");
    assert!((wy - 162.0).abs() < 1e-4, "world_y should be 162.0, got {wy}");
}

#[test]
fn convert_level_extracts_enemies() {
    let intgrid = make_intgrid_layer(2, 2, vec![0, 0, 1, 1]);
    let enemy_entity = make_entity(
        "Enemy",
        [0, 0],
        vec![
            field_str("enemy_type", "Dog"),
            field_f64("patrol_range", 72.0),
            field_f64("health", 3.0),
            field_f64("speed_override", 50.0),
        ],
    );
    let entities = make_entities_layer(2, 2, vec![enemy_entity]);
    let root = minimal_root_with_layers(intgrid, entities, vec![]);

    let levels = convert(&root);
    assert_eq!(levels.len(), 1);
    let layer = &levels[0].layers[0];
    assert_eq!(layer.enemies.len(), 1);

    let enemy = &layer.enemies[0];
    assert_eq!(enemy.enemy_type, "Dog");
    assert!((num_f64(enemy.patrol_range) - 72.0).abs() < 1e-4);
    assert!((num_f64(enemy.health) - 3.0).abs() < 1e-4);
    assert_eq!(enemy.speed_override.map(num_f64), Some(50.0));

    let (x, y) = world(layer, enemy.pos);
    assert!((x - (-864.0)).abs() < 1e-4, "expected x=-864, got {}", x);
    assert!((y - (-164.0)).abs() < 1e-4, "expected y=-164 (ground surface), got {}", y);
}

#[test]
fn convert_level_extracts_collectibles() {
    let intgrid = make_intgrid_layer(4, 4, vec![0; 16]);
    let entities = make_entities_layer(
        4,
        4,
        vec![make_entity("Star", [18, 0], vec![]), make_entity("HealthFood", [36, 18], vec![])],
    );
    let root = minimal_root_with_layers(intgrid, entities, vec![]);

    let levels = convert(&root);
    let layer = &levels[0].layers[0];

    assert_eq!(layer.stars.len(), 1, "should have one star");
    assert_eq!(layer.health_foods.len(), 1, "should have one health food");

    let star = world(layer, layer.stars[0]);
    assert!((star.0 - (-846.0)).abs() < 1e-4, "star x got {}", star.0);
    assert!((star.1 - (-128.0)).abs() < 1e-4, "star y got {}", star.1);

    let hf = world(layer, layer.health_foods[0]);
    assert!((hf.0 - (-828.0)).abs() < 1e-4, "hf x got {}", hf.0);
    assert!((hf.1 - (-146.0)).abs() < 1e-4, "hf y got {}", hf.1);
}

#[test]
fn convert_level_extracts_doors() {
    let intgrid = make_intgrid_layer(3, 3, vec![0; 9]);
    let door_entity = make_entity("Door", [0, 36], vec![field_i64("target_layer", 2)]);
    let entities = make_entities_layer(3, 3, vec![door_entity]);
    let root = minimal_root_with_layers(intgrid, entities, vec![]);

    let levels = convert(&root);
    let layer = &levels[0].layers[0];

    assert_eq!(layer.doors.len(), 1);
    let door = &layer.doors[0];
    assert_eq!(door.target_layer, 2);
    let (x, y) = world(layer, door.pos);
    assert!((x - (-864.0)).abs() < 1e-4, "door x got {}", x);
    assert!((y - (-182.0)).abs() < 1e-4, "expected y=-182 (ground surface), got {}", y);
}

#[test]
fn convert_level_extracts_spawn() {
    let intgrid = make_intgrid_layer(5, 5, vec![0; 25]);
    let spawn_entity = make_entity("Spawn", [36, 54], vec![]);
    let entities = make_entities_layer(5, 5, vec![spawn_entity]);
    let root = minimal_root_with_layers(intgrid, entities, vec![]);

    let levels = convert(&root);
    let layer = &levels[0].layers[0];

    let spawn = world(layer, layer.spawn.expect("spawn should be set"));
    assert!((spawn.0 - (-828.0)).abs() < 1e-4, "spawn x got {}", spawn.0);
    assert!((spawn.1 - (-164.0)).abs() < 1e-4, "expected y=-164 (ground surface), got {}", spawn.1);
}

#[test]
fn convert_level_default_origin() {
    let intgrid = make_intgrid_layer(2, 2, vec![0; 4]);
    let entities = make_entities_layer(2, 2, vec![]);
    let root = minimal_root_with_layers(intgrid, entities, vec![]);

    let levels = convert(&root);
    let layer = &levels[0].layers[0];

    assert!(
        (num_f64(layer.origin_x) - (-864.0)).abs() < 1e-4,
        "expected origin_x = -864, got {}",
        num_f64(layer.origin_x)
    );
    assert!(
        (num_f64(layer.origin_y) - (-200.0)).abs() < 1e-4,
        "expected origin_y = -200, got {}",
        num_f64(layer.origin_y)
    );
}

#[test]
fn convert_level_respects_explicit_origin() {
    let intgrid = make_intgrid_layer(2, 2, vec![0; 4]);
    let entities = make_entities_layer(2, 2, vec![]);
    let level_fields = vec![field_f64("OriginX", -500.0), field_f64("OriginY", 100.0)];
    let root = minimal_root_with_layers(intgrid, entities, level_fields);

    let levels = convert(&root);
    let layer = &levels[0].layers[0];

    assert!(
        (num_f64(layer.origin_x) - (-500.0)).abs() < 1e-4,
        "expected origin_x=-500, got {}",
        num_f64(layer.origin_x)
    );
    assert!(
        (num_f64(layer.origin_y) - 100.0).abs() < 1e-4,
        "expected origin_y=100, got {}",
        num_f64(layer.origin_y)
    );
}

#[test]
fn center_anchored_prop_y_offset() {
    let intgrid = make_intgrid_layer(4, 4, vec![0; 16]);
    let prop_entity = make_entity(
        "Prop",
        [36, 36],
        vec![
            field_str("model_id", "models/large_rock.glb"),
            field_f64("scale_x", 9.0),
            field_f64("scale_y", 28.0),
            field_f64("scale_z", 28.0),
            field_f64("rotation_y", -1.5707963),
        ],
    );
    let entities = make_entities_layer(4, 4, vec![prop_entity]);
    let root = minimal_root_with_layers(intgrid, entities, vec![]);

    let levels = convert(&root);
    let layer = &levels[0].layers[0];

    assert_eq!(layer.props.len(), 1);
    let prop = &layer.props[0];
    assert_eq!(prop.anchor_half_height_milli, Some(429));

    let (_, base) = world(layer, prop.pos);
    let y = base + prop.anchor_half_height_milli.unwrap() as f64 / 1000.0 * num_f64(prop.scale_y);
    let base_y = -164.0_f64;
    let expected_y = base_y + 0.429 * 28.0;
    assert!(
        (y - expected_y).abs() < 1e-2,
        "expected y={expected_y:.3}, got {:.3} (center-anchor offset should apply)",
        y
    );
}

#[test]
fn non_center_anchored_prop_no_offset() {
    let intgrid = make_intgrid_layer(4, 4, vec![0; 16]);
    let prop_entity = make_entity(
        "Prop",
        [36, 36],
        vec![
            field_str("model_id", "models/plant_bush.glb"),
            field_f64("scale_x", 49.0),
            field_f64("scale_y", 49.0),
            field_f64("scale_z", 27.0),
        ],
    );
    let entities = make_entities_layer(4, 4, vec![prop_entity]);
    let root = minimal_root_with_layers(intgrid, entities, vec![]);

    let levels = convert(&root);
    let layer = &levels[0].layers[0];

    assert_eq!(layer.props.len(), 1);
    let prop = &layer.props[0];
    assert_eq!(prop.anchor_half_height_milli, None);
    let (_, y) = world(layer, prop.pos);
    assert!((y - (-164.0)).abs() < 1e-2, "expected y=-164.0 (no offset), got {:.3}", y);
}

#[test]
fn prop_defaults_apply() {
    let intgrid = make_intgrid_layer(1, 1, vec![0]);
    let entities = make_entities_layer(1, 1, vec![make_entity("Prop", [9, 9], vec![])]);
    let root = minimal_root_with_layers(intgrid, entities, vec![]);
    let levels = convert(&root);
    let prop = &levels[0].layers[0].props[0];
    assert_eq!(prop.model_id, "");
    assert_eq!(num_f64(prop.scale_x), 1.0);
    assert_eq!(num_f64(prop.scale_y), 1.0);
    assert_eq!(num_f64(prop.scale_z), 1.0);
    assert_eq!(num_f64(prop.z), -15.0);
    assert_eq!(num_f64(prop.rotation_y), 0.0);
    assert!(!prop.foreground);
}

#[test]
fn enemy_defaults_apply() {
    let intgrid = make_intgrid_layer(1, 1, vec![0]);
    let entities = make_entities_layer(1, 1, vec![make_entity("Enemy", [0, 0], vec![])]);
    let root = minimal_root_with_layers(intgrid, entities, vec![]);
    let levels = convert(&root);
    let enemy = &levels[0].layers[0].enemies[0];
    assert_eq!(enemy.enemy_type, "Dog");
    assert_eq!(num_f64(enemy.patrol_range), 0.0);
    assert_eq!(num_f64(enemy.health), 1.0);
    assert_eq!(enemy.speed_override, None);
}

#[test]
fn gate_exit_and_lights_are_read() {
    let intgrid = make_intgrid_layer(2, 2, vec![0; 4]);
    let entities = make_entities_layer(
        2,
        2,
        vec![
            make_entity("Gate", [45, 0], vec![field_i64("gate_col", 2), field_i64("stars_required", 7)]),
            make_entity("Exit", [0, 0], vec![field_str("exit_next_level", "City")]),
            make_entity("Light", [18, 18], vec![field_str("color", "#ff8000")]),
            make_entity("Light", [0, 0], vec![]),
        ],
    );
    let root = minimal_root_with_layers(intgrid, entities, vec![]);
    let levels = convert(&root);
    let layer = &levels[0].layers[0];
    assert_eq!(layer.gate_col, Some(2));
    assert_eq!(layer.stars_required, Some(7));
    assert_eq!(layer.exit_next_level.as_deref(), Some("City"));
    assert_eq!(layer.lights.len(), 2);
    assert_eq!(layer.lights[0].color, Rgb8 { r: 255, g: 128, b: 0 });
    assert_eq!(layer.lights[1].color, Rgb8 { r: 255, g: 255, b: 255 });
    assert_eq!(num_f64(layer.lights[1].intensity), 100000.0);
    assert_eq!(num_f64(layer.lights[1].z), 3.0);
}

#[test]
fn level_without_layers_converts_to_no_layers() {
    let root = root_from_json(r#"{"levels": [{"identifier": "Void", "layerInstances": null, "fieldInstances": []}]}"#);
    let levels = convert(&root);
    assert_eq!(levels.len(), 1);
    assert_eq!(levels[0].identifier, "Void");
    assert!(levels[0].layers.is_empty());
}

#[test]
fn single_level_convert_keeps_identifier() {
    let level = LdtkLevel {
        identifier: "Forest_Cave".to_string(),
        layer_instances: Some(vec![make_intgrid_layer(1, 1, vec![1]), make_entities_layer(1, 1, vec![])]),
        field_instances: vec![],
    };
    let converted = convert_level(&level);
    assert_eq!(converted.identifier, "Forest_Cave");
    assert_eq!(converted.layers[0].tiles, vec![vec![1]]);
}

// ---------------------------------------------------------------------------
// Sublevel merge
// ---------------------------------------------------------------------------

fn level_named(id: &str, tile: i32) -> LdtkLevel {
    LdtkLevel {
        identifier: id.to_string(),
        layer_instances: Some(vec![make_intgrid_layer(1, 1, vec![tile]), make_entities_layer(1, 1, vec![])]),
        field_instances: vec![],
    }
}

#[test]
fn sublevels_merge_in_layer_order() {
    let root = LdtkRoot {
        levels: vec![
            level_named("Forest_Rooftop", 3),
            level_named("Forest_Cave", 2),
            level_named("Forest", 1),
            level_named("City", 5),
        ],
    };
    let levels = convert(&root);
    let ids: Vec<&str> = levels.iter().map(|l| l.identifier.as_str()).collect();
    assert_eq!(ids, vec!["City", "Forest"]);
    let forest: Vec<u8> = levels[1].layers.iter().map(|l| l.tiles[0][0]).collect();
    assert_eq!(forest, vec![1, 2, 3]);
    assert_eq!(levels[0].layers.len(), 1);
}

#[test]
fn merge_keeps_input_order_within_a_slot() {
    let raw = vec![
        convert_level(&level_named("Sub_Sewer", 4)),
        convert_level(&level_named("Sub_Subway", 5)),
        convert_level(&level_named("Sub", 1)),
    ];
    let merged = merge_sublevel_layers(raw);
    assert_eq!(merged.len(), 1);
    assert_eq!(merged[0].identifier, "Sub");
    let tiles: Vec<u8> = merged[0].layers.iter().map(|l| l.tiles[0][0]).collect();
    assert_eq!(tiles, vec![1, 4, 5]);
}

#[test]
fn sublevel_without_base_still_forms_a_level() {
    let levels = convert(&LdtkRoot { levels: vec![level_named("Cavern_Cave", 2)] });
    assert_eq!(levels.len(), 1);
    assert_eq!(levels[0].identifier, "Cavern");
    assert_eq!(levels[0].layers.len(), 1);
}

#[test]
fn str_lt_orders_by_code_point() {
    assert!(str_lt("City", "Forest"));
    assert!(!str_lt("Forest", "City"));
    assert!(str_lt("A", "AB"));
    assert!(!str_lt("AB", "AB"));
    assert!(str_lt("Z", "a"));
}

// ---------------------------------------------------------------------------
// Field helpers
// ---------------------------------------------------------------------------

#[test]
fn parse_hex_color_reads_channels() {
    assert_eq!(parse_hex_color("#1a2b3c"), Rgb8 { r: 0x1a, g: 0x2b, b: 0x3c });
    assert_eq!(parse_hex_color("FF0080"), Rgb8 { r: 255, g: 0, b: 128 });
    assert_eq!(parse_hex_color("##00ff00"), Rgb8 { r: 0, g: 255, b: 0 });
    // A malformed or too short string falls back to white.
    assert_eq!(parse_hex_color("#12"), Rgb8 { r: 255, g: 255, b: 255 });
    assert_eq!(parse_hex_color("#FFF"), Rgb8 { r: 255, g: 255, b: 255 });
    assert_eq!(parse_hex_color("#GG0000"), Rgb8 { r: 255, g: 255, b: 255 });
    assert_eq!(parse_hex_color("zz0000"), Rgb8 { r: 255, g: 255, b: 255 });
    assert_eq!(parse_hex_color("+F0000"), Rgb8 { r: 255, g: 255, b: 255 });
    // Only the first six bytes count.
    assert_eq!(parse_hex_color("#0a0b0cff"), Rgb8 { r: 10, g: 11, b: 12 });
}

#[test]
fn center_anchor_lookup() {
    assert_eq!(center_anchor_half_height("models/large_rock.glb"), Some(429));
    assert_eq!(center_anchor_half_height("large_rock.glb"), Some(429));
    assert_eq!(center_anchor_half_height("models/plant_bush.glb"), None);
    assert_eq!(center_anchor_half_height("models/city/taxi.glb"), Some(241));
    assert_eq!(center_anchor_half_height("taxi.glb"), Some(241));
}

#[test]
fn entity_field_getters() {
    let e = make_entity(
        "Enemy",
        [0, 0],
        vec![
            field_str("name", "Dog"),
            field_i64("n", -4),
            field_f64("f", 2.5),
            LdtkFieldInstance { identifier: "b".to_string(), value: Some(FieldValue::Bool(true)) },
            LdtkFieldInstance { identifier: "nil".to_string(), value: None },
        ],
    );
    assert_eq!(get_field_str(&e, "name").as_deref(), Some("Dog"));
    assert_eq!(get_field_str(&e, "n"), None);
    assert_eq!(get_field_i32(&e, "n"), Some(-4));
    assert_eq!(get_field_i32(&e, "f"), None);
    assert_eq!(get_field_f32(&e, "f").map(num_f64), Some(2.5));
    assert_eq!(get_field_f32(&e, "n").map(num_f64), Some(-4.0));
    assert_eq!(get_field_bool(&e, "b"), Some(true));
    assert_eq!(get_field_bool(&e, "nil"), None);
    assert_eq!(get_field_str(&e, "missing"), None);
}

#[test]
fn level_field_getters() {
    let level = LdtkLevel {
        identifier: "L".to_string(),
        layer_instances: None,
        field_instances: vec![
            field_f64("glow_intensity", 0.5),
            LdtkFieldInstance { identifier: "glow_enabled".to_string(), value: Some(FieldValue::Bool(false)) },
            field_str("bg_color", "#102030"),
        ],
    };
    assert_eq!(get_level_field_f32(&level, "glow_intensity").map(num_f64), Some(0.5));
    assert_eq!(get_level_field_bool(&level, "glow_enabled"), Some(false));
    assert_eq!(get_level_field_color(&level, "bg_color"), Some(Rgb8 { r: 0x10, g: 0x20, b: 0x30 }));
    assert_eq!(get_level_field_color(&level, "glow_color"), None);
}

// ---------------------------------------------------------------------------
// Command line
// ---------------------------------------------------------------------------

#[test]
fn find_arg_returns_following_value() {
    let args: Vec<String> = ["prog", "--input", "a.ldtk", "--output", "out.json"].iter().map(|s| s.to_string()).collect();
    assert_eq!(find_arg(&args, "--input").as_deref(), Some("a.ldtk"));
    assert_eq!(find_arg(&args, "--output").as_deref(), Some("out.json"));
    assert_eq!(find_arg(&args, "--missing"), None);
    let trailing: Vec<String> = ["prog", "--input"].iter().map(|s| s.to_string()).collect();
    assert_eq!(find_arg(&trailing, "--input"), None);
}

#[test]
fn validated_project_converts() {
    let root = root_from_json(minimal_valid_json());
    assert!(validate(&root).is_ok());
    let levels = convert(&root);
    assert_eq!(levels.len(), 1);
    assert_eq!(levels[0].identifier, "Level1");
    assert_eq!(levels[0].layers[0].tiles, vec![vec![1, 1], vec![0, 0]]);
}

#[test]
fn parse_minimal_ldtk() {
    let json = r#"{
        "levels": [{
            "identifier": "TestLevel",
            "layerInstances": [{
                "__identifier": "Tiles",
                "__type": "IntGrid",
                "__gridSize": 18,
                "__cWid": 4,
                "__cHei": 3,
                "intGridCsv": [0,0,0,0, 0,0,0,0, 1,1,1,1],
                "entityInstances": []
            }],
            "fieldInstances": [{
                "__identifier": "OriginX",
                "__value": -864.0
            }]
        }]
    }"#;
    let root = root_from_json(json);
    assert_eq!(root.levels.len(), 1);
    assert_eq!(root.levels[0].identifier, "TestLevel");
    let layer = &root.levels[0].layer_instances.as_ref().unwrap()[0];
    assert_eq!(layer.grid_size, 18);
    assert_eq!(layer.int_grid_csv.len(), 12);
    let origin = get_level_field_f32(&root.levels[0], "OriginX").map(num_f64);
    assert_eq!(origin, Some(-864.0));
}

#[test]
fn props_and_lights_validate() {
    let intgrid = make_intgrid_layer(2, 2, vec![0, 0, 1, 1]);
    let entities = make_entities_layer(
        2,
        2,
        vec![
            make_entity("Prop", [18, 18], vec![field_str("model_id", "models/large_rock.glb")]),
            make_entity("Prop_Tree", [0, 18], vec![]),
            make_entity("Light", [18, 18], vec![]),
        ],
    );
    let root = minimal_root_with_layers(intgrid, entities, vec![]);
    assert!(validate(&root).is_ok());
    let levels = convert(&root);
    assert_eq!(levels[0].layers[0].props.len(), 2);
    assert_eq!(levels[0].layers[0].lights.len(), 1);
    // A near miss is still unknown.
    let odd = minimal_root_with_layers(
        make_intgrid_layer(1, 1, vec![0]),
        make_entities_layer(1, 1, vec![make_entity("Propeller", [0, 0], vec![])]),
        vec![],
    );
    assert_eq!(
        validate(&odd).unwrap_err(),
        vec!["Level 'TestLevel': unknown entity type 'Propeller'".to_string()]
    );
}

#[test]
fn checks_before_validation_and_conversion() {
    let ok = root_from_json(minimal_valid_json());
    assert!(grid_products_fit(&ok));
    assert!(root_is_convertible(&ok));
    let huge = minimal_root_with_layers(make_intgrid_layer(70000, 70000, vec![]), make_entities_layer(1, 1, vec![]), vec![]);
    assert!(!grid_products_fit(&huge));
    let negative = minimal_root_with_layers(make_intgrid_layer(-2, -3, vec![]), make_entities_layer(1, 1, vec![]), vec![]);
    assert!(grid_products_fit(&negative));
    assert!(!root_is_convertible(&negative));
    let long_csv = minimal_root_with_layers(make_intgrid_layer(1, 1, vec![0, 1]), make_entities_layer(1, 1, vec![]), vec![]);
    assert!(!root_is_convertible(&long_csv));
    let bad_colour = LdtkRoot {
        levels: vec![LdtkLevel {
            identifier: "L".to_string(),
            layer_instances: None,
            field_instances: vec![field_str("bg_color", "#a\u{e9}cdef")],
        }],
    };
    assert!(!root_is_convertible(&bad_colour));
    assert!(hex_is_sliceable("#GG0000"));
    assert!(hex_is_sliceable("#\u{e9}"));
    assert!(!hex_is_sliceable("a\u{e9}cdef"));
}
