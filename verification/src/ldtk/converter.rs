use vstd::prelude::*;
use vstd::string::*;

use crate::ldtk::fields::{
    anchor_half_height, center_anchor_half_height, color_field_ok, color_field_sliceable, file_name,
    get_field_bool, get_field_f32, get_field_i32, get_field_str, get_level_field_bool,
    get_level_field_color, get_level_field_f32, hex_color, hex_sliceable, parse_hex_color,
    value_color, value_i32, Rgb8,
};
use crate::ldtk::schema::{
    field_value, FieldValue, LdtkFieldInstance, opt_string_view, value_bool, value_number, value_str, LdtkEntityInstance,
    LdtkLayerInstance, LdtkLevel, Number,
};
use crate::ldtk::text::{str_eq, str_starts_with};

verus! {

// ---------------------------------------------------------------------------
// Output types
// ---------------------------------------------------------------------------

/// An LDtk pixel position: `x` is the entity's horizontal centre and `y` its
/// bottom, both measured from the top-left of the level.  The game maps it to
/// world space with `origin + (x, rows * TILE_SIZE - y)`.
#[derive(Debug, Clone, Copy, PartialEq, Eq, Structural)]
pub struct PixelPos {
    pub x: i32,
    pub y: i32,
}

/// Converts an LDtk pixel position to its offset from the layer origin in
/// game-world units, on a layer `rows` tiles high. LDtk measures y down from
/// the top and the game measures it up from the bottom, so y is flipped over
/// the level height `rows * 18`; x is already the entity's centre. The world
/// position is `origin + offset`, for entities placed by their ground surface
/// and for those placed by their tile alike.
pub fn px_to_world(px: PixelPos, rows: i32) -> (offset: (i64, i64))
    ensures
        offset.0 == px.x,
        offset.1 == rows * 18 - px.y,
{
    (px.x as i64, rows as i64 * 18 - px.y as i64)
}

/// A converted enemy entity.
#[derive(Debug)]
pub struct ConvertedEnemy {
    /// One of: "Dog", "Squirrel", "Snake", "Rat", "Possum".
    pub enemy_type: String,
    /// Ground-surface placement.
    pub pos: PixelPos,
    /// Half-width of the patrol route in world units.
    pub patrol_range: Number,
    /// Maximum hit-points.
    pub health: Number,
    /// Optional per-instance movement speed override.
    pub speed_override: Option<Number>,
}

pub struct EnemyView {
    pub enemy_type: Seq<char>,
    pub pos: PixelPos,
    pub patrol_range: Number,
    pub health: Number,
    pub speed_override: Option<Number>,
}

impl View for ConvertedEnemy {
    type V = EnemyView;

    open spec fn view(&self) -> EnemyView {
        EnemyView {
            enemy_type: self.enemy_type@,
            pos: self.pos,
            patrol_range: self.patrol_range,
            health: self.health,
            speed_override: self.speed_override,
        }
    }
}

/// A converted prop entity (decorative model placed via LDtk).
#[derive(Debug)]
pub struct ConvertedProp {
    /// Asset path for the GLB model, e.g. "models/small_rock.glb".
    pub model_id: String,
    /// Tile-centre placement.
    pub pos: PixelPos,
    /// For centre-anchored models, the upward shift of the model in
    /// thousandths of `scale_y`, so its visual bottom meets the placement.
    pub anchor_half_height_milli: Option<u32>,
    /// Z depth in world space; negative values push the prop behind the action plane.
    pub z: Number,
    pub scale_x: Number,
    pub scale_y: Number,
    pub scale_z: Number,
    /// Y-axis rotation in radians.
    pub rotation_y: Number,
    /// When true, this prop renders in front of the player.
    pub foreground: bool,
}

pub struct PropView {
    pub model_id: Seq<char>,
    pub pos: PixelPos,
    pub anchor_half_height_milli: Option<u32>,
    pub z: Number,
    pub scale_x: Number,
    pub scale_y: Number,
    pub scale_z: Number,
    pub rotation_y: Number,
    pub foreground: bool,
}

impl View for ConvertedProp {
    type V = PropView;

    open spec fn view(&self) -> PropView {
        PropView {
            model_id: self.model_id@,
            pos: self.pos,
            anchor_half_height_milli: self.anchor_half_height_milli,
            z: self.z,
            scale_x: self.scale_x,
            scale_y: self.scale_y,
            scale_z: self.scale_z,
            rotation_y: self.rotation_y,
            foreground: self.foreground,
        }
    }
}

/// A converted point-light entity.
#[derive(Debug, Clone, Copy, PartialEq, Eq, Structural)]
pub struct ConvertedLight {
    /// Tile-centre placement.
    pub pos: PixelPos,
    pub z: Number,
    pub color: Rgb8,
    pub intensity: Number,
    pub radius: Option<Number>,
    pub range: Option<Number>,
}

/// A converted door entity that links the current layer to another.
#[derive(Debug, Clone, Copy, PartialEq, Eq, Structural)]
pub struct ConvertedDoor {
    /// Index of the sublevel/layer this door leads to.
    pub target_layer: i32,
    /// Ground-surface placement.
    pub pos: PixelPos,
}

/// The converted contents of one LDtk level's layers.
#[derive(Debug)]
pub struct ConvertedLayer {
    /// Grid width in tiles.
    pub cols: i32,
    /// Grid height in tiles.
    pub rows: i32,
    /// World-space X of the layer's left edge.
    pub origin_x: Number,
    /// World-space Y of the layer's bottom edge.
    pub origin_y: Number,
    /// Grid height used to flip entity pixel positions to world space.
    pub entity_rows: i32,
    /// Player spawn placement, if a Spawn entity exists.
    pub spawn: Option<PixelPos>,
    /// `tiles[game_row][col]`, `game_row = 0` the bottom row;
    /// 0 = air, 1 = solid, 2 = platform.
    pub tiles: Vec<Vec<u8>>,
    pub enemies: Vec<ConvertedEnemy>,
    pub stars: Vec<PixelPos>,
    pub health_foods: Vec<PixelPos>,
    pub doors: Vec<ConvertedDoor>,
    pub props: Vec<ConvertedProp>,
    pub lights: Vec<ConvertedLight>,
    /// Column index read from a `Gate` entity, if present.
    pub gate_col: Option<i32>,
    /// Identifier of the next level to load, from the Exit entity.
    pub exit_next_level: Option<String>,
    /// Stars the player must collect to pass that column.
    pub stars_required: Option<i32>,
    pub bg_color: Option<Rgb8>,
    pub glow_enabled: Option<bool>,
    pub glow_color: Option<Rgb8>,
    pub glow_intensity: Option<Number>,
    pub canopy_enabled: Option<bool>,
    pub canopy_panel_bottom: Option<Number>,
    pub canopy_panel_height: Option<Number>,
    pub canopy_backdrop_height: Option<Number>,
    pub canopy_panel_color: Option<Rgb8>,
    pub canopy_panel_alpha: Option<Number>,
    pub canopy_backdrop_color: Option<Rgb8>,
}

/// The fields of a level that describe its look rather than its contents.
pub struct LevelLook {
    pub origin_x: Number,
    pub origin_y: Number,
    pub bg_color: Option<Rgb8>,
    pub glow_enabled: Option<bool>,
    pub glow_color: Option<Rgb8>,
    pub glow_intensity: Option<Number>,
    pub canopy_enabled: Option<bool>,
    pub canopy_panel_bottom: Option<Number>,
    pub canopy_panel_height: Option<Number>,
    pub canopy_backdrop_height: Option<Number>,
    pub canopy_panel_color: Option<Rgb8>,
    pub canopy_panel_alpha: Option<Number>,
    pub canopy_backdrop_color: Option<Rgb8>,
}

/// What the entities of a layer contribute.
pub struct EntitiesView {
    pub spawn: Option<PixelPos>,
    pub enemies: Seq<EnemyView>,
    pub stars: Seq<PixelPos>,
    pub health_foods: Seq<PixelPos>,
    pub doors: Seq<ConvertedDoor>,
    pub props: Seq<PropView>,
    pub lights: Seq<ConvertedLight>,
    pub gate_col: Option<i32>,
    pub exit_next_level: Option<Seq<char>>,
    pub stars_required: Option<i32>,
}

pub struct LayerView {
    pub cols: i32,
    pub rows: i32,
    pub entity_rows: i32,
    pub tiles: Seq<Seq<u8>>,
    pub look: LevelLook,
    pub entities: EntitiesView,
}

pub open spec fn rows_view(v: Seq<Vec<u8>>) -> Seq<Seq<u8>> {
    v.map_values(|r: Vec<u8>| r@)
}

impl View for ConvertedLayer {
    type V = LayerView;

    open spec fn view(&self) -> LayerView {
        LayerView {
            cols: self.cols,
            rows: self.rows,
            entity_rows: self.entity_rows,
            tiles: rows_view(self.tiles@),
            look: LevelLook {
                origin_x: self.origin_x,
                origin_y: self.origin_y,
                bg_color: self.bg_color,
                glow_enabled: self.glow_enabled,
                glow_color: self.glow_color,
                glow_intensity: self.glow_intensity,
                canopy_enabled: self.canopy_enabled,
                canopy_panel_bottom: self.canopy_panel_bottom,
                canopy_panel_height: self.canopy_panel_height,
                canopy_backdrop_height: self.canopy_backdrop_height,
                canopy_panel_color: self.canopy_panel_color,
                canopy_panel_alpha: self.canopy_panel_alpha,
                canopy_backdrop_color: self.canopy_backdrop_color,
            },
            entities: EntitiesView {
                spawn: self.spawn,
                enemies: self.enemies@.map_values(|e: ConvertedEnemy| e@),
                stars: self.stars@,
                health_foods: self.health_foods@,
                doors: self.doors@,
                props: self.props@.map_values(|p: ConvertedProp| p@),
                lights: self.lights@,
                gate_col: self.gate_col,
                exit_next_level: opt_string_view(self.exit_next_level),
                stars_required: self.stars_required,
            },
        }
    }
}

/// All converted data for a single level.
#[derive(Debug)]
pub struct ConvertedLevel {
    pub identifier: String,
    pub layers: Vec<ConvertedLayer>,
}

pub struct LevelView {
    pub identifier: Seq<char>,
    pub layers: Seq<LayerView>,
}

pub open spec fn layers_view(v: Seq<ConvertedLayer>) -> Seq<LayerView> {
    v.map_values(|l: ConvertedLayer| l@)
}

impl View for ConvertedLevel {
    type V = LevelView;

    open spec fn view(&self) -> LevelView {
        LevelView { identifier: self.identifier@, layers: layers_view(self.layers@) }
    }
}

// ---------------------------------------------------------------------------
// Tiles: IntGrid CSV to a bottom-up grid
// ---------------------------------------------------------------------------

/// `tiles[game_row][col]` holds CSV entry `(rows - 1 - game_row) * cols + col`
/// (LDtk rows run top-down, the game's bottom-up), as `u8`; cells past the end
/// of the CSV are air.
pub open spec fn tiles_of(layer: LdtkLayerInstance) -> Seq<Seq<u8>> {
    let cols = layer.c_wid as int;
    let rows = layer.c_hei as int;
    let csv = layer.int_grid_csv@;
    Seq::new(
        rows as nat,
        |g: int|
            Seq::new(
                cols as nat,
                |c: int|
                    {
                        let idx = (rows - 1 - g) * cols + c;
                        if idx < csv.len() {
                            csv[idx] as u8
                        } else {
                            0u8
                        }
                    },
            ),
    )
}

/// The grid can be built: non-negative dimensions, no more CSV entries than
/// cells, and a cell count that fits in memory.
pub open spec fn tiles_convertible(layer: LdtkLayerInstance) -> bool {
    &&& layer.c_wid >= 0
    &&& layer.c_hei >= 0
    &&& layer.int_grid_csv@.len() <= layer.c_wid * layer.c_hei
    &&& layer.c_wid * layer.c_hei <= usize::MAX
}

/// Converts the flat IntGrid CSV of an LDtk layer into `tiles[game_row][col]`
/// with `game_row = 0` the bottom row: every row index is flipped,
/// `game_row = (total_rows - 1) - ldtk_row`.
pub fn convert_tiles(layer: &LdtkLayerInstance) -> (tiles: Vec<Vec<u8>>)
    requires
        tiles_convertible(*layer),
    ensures
        rows_view(tiles@) == tiles_of(*layer),
{
    let cols = layer.c_wid as usize;
    let rows = layer.c_hei as usize;
    let csv = &layer.int_grid_csv;
    let mut tiles: Vec<Vec<u8>> = Vec::new();
    let mut g: usize = 0;
    while g < rows
        invariant
            cols == layer.c_wid,
            rows == layer.c_hei,
            csv@ == layer.int_grid_csv@,
            tiles_convertible(*layer),
            g <= rows,
            tiles@.len() == g,
            forall|k: int| 0 <= k < g ==> #[trigger] tiles@[k]@ == tiles_of(*layer)[k],
        decreases rows - g,
    {
        let mut row: Vec<u8> = Vec::new();
        let ldtk_row = rows - 1 - g;
        let mut c: usize = 0;
        while c < cols
            invariant
                cols == layer.c_wid,
                rows == layer.c_hei,
                csv@ == layer.int_grid_csv@,
                tiles_convertible(*layer),
                g < rows,
                ldtk_row == rows - 1 - g,
                c <= cols,
                row@.len() == c,
                forall|k: int| 0 <= k < c ==> #[trigger] row@[k] == tiles_of(*layer)[g as int][k],
            decreases cols - c,
        {
            assert(ldtk_row * cols + c < rows * cols) by (nonlinear_arith)
                requires
                    ldtk_row < rows,
                    c < cols,
            ;
            let idx = ldtk_row * cols + c;
            if idx < csv.len() {
                row.push(csv[idx] as u8);
            } else {
                row.push(0u8);
            }
            c = c + 1;
        }
        assert(row@ =~= tiles_of(*layer)[g as int]);
        tiles.push(row);
        g = g + 1;
    }
    assert(rows_view(tiles@) =~= tiles_of(*layer));
    tiles
}


// ---------------------------------------------------------------------------
// Entities
// ---------------------------------------------------------------------------

pub open spec fn num_or(o: Option<Number>, d: Number) -> Number {
    match o {
        Some(n) => n,
        None => d,
    }
}

/// "Prop" and every "Prop_<kind>" identify decorative props.
pub open spec fn is_prop(id: Seq<char>) -> bool {
    id == "Prop"@ || ("Prop_"@.len() <= id.len() && id.subrange(0, "Prop_"@.len() as int)
        == "Prop_"@)
}

pub open spec fn pos_of(e: LdtkEntityInstance) -> PixelPos {
    PixelPos { x: e.px[0], y: e.px[1] }
}

pub open spec fn no_entities() -> EntitiesView {
    EntitiesView {
        spawn: None,
        enemies: seq![],
        stars: seq![],
        health_foods: seq![],
        doors: seq![],
        props: seq![],
        lights: seq![],
        gate_col: None,
        exit_next_level: None,
        stars_required: None,
    }
}

pub open spec fn enemy_of(e: LdtkEntityInstance) -> EnemyView {
    let f = e.field_instances@;
    EnemyView {
        enemy_type: match value_str(field_value(f, "enemy_type"@)) {
            Some(t) => t,
            None => "Dog"@,
        },
        pos: pos_of(e),
        patrol_range: num_or(value_number(field_value(f, "patrol_range"@)), Number::PosInt(0)),
        health: num_or(value_number(field_value(f, "health"@)), Number::PosInt(1)),
        speed_override: value_number(field_value(f, "speed_override"@)),
    }
}

pub open spec fn prop_of(e: LdtkEntityInstance) -> PropView {
    let f = e.field_instances@;
    let model_id = match value_str(field_value(f, "model_id"@)) {
        Some(m) => m,
        None => Seq::<char>::empty(),
    };
    PropView {
        model_id,
        pos: pos_of(e),
        anchor_half_height_milli: anchor_half_height(file_name(model_id)),
        z: num_or(value_number(field_value(f, "z_depth"@)), Number::NegInt(-15i64)),
        scale_x: num_or(value_number(field_value(f, "scale_x"@)), Number::PosInt(1)),
        scale_y: num_or(value_number(field_value(f, "scale_y"@)), Number::PosInt(1)),
        scale_z: num_or(value_number(field_value(f, "scale_z"@)), Number::PosInt(1)),
        rotation_y: num_or(value_number(field_value(f, "rotation_y"@)), Number::PosInt(0)),
        foreground: match value_bool(field_value(f, "foreground"@)) {
            Some(b) => b,
            None => false,
        },
    }
}

pub open spec fn light_of(e: LdtkEntityInstance) -> ConvertedLight {
    let f = e.field_instances@;
    ConvertedLight {
        pos: pos_of(e),
        z: num_or(value_number(field_value(f, "z_depth"@)), Number::PosInt(3)),
        color: match value_color(field_value(f, "color"@)) {
            Some(c) => c,
            None => crate::ldtk::fields::white(),
        },
        intensity: num_or(value_number(field_value(f, "intensity"@)), Number::PosInt(100000)),
        radius: value_number(field_value(f, "radius"@)),
        range: value_number(field_value(f, "range"@)),
    }
}

pub open spec fn door_of(e: LdtkEntityInstance) -> ConvertedDoor {
    ConvertedDoor {
        target_layer: match value_i32(field_value(e.field_instances@, "target_layer"@)) {
            Some(t) => t,
            None => 0,
        },
        pos: pos_of(e),
    }
}

/// What one entity adds: Spawn sets the spawn point, Enemy / Star /
/// HealthFood / Door / Prop / Light append, Gate and Exit set their fields,
/// any other kind is ignored.
pub open spec fn entity_step(acc: EntitiesView, e: LdtkEntityInstance) -> EntitiesView {
    let id = e.identifier@;
    let f = e.field_instances@;
    if id == "Spawn"@ {
        EntitiesView { spawn: Some(pos_of(e)), ..acc }
    } else if id == "Enemy"@ {
        EntitiesView { enemies: acc.enemies.push(enemy_of(e)), ..acc }
    } else if id == "Star"@ {
        EntitiesView { stars: acc.stars.push(pos_of(e)), ..acc }
    } else if id == "HealthFood"@ {
        EntitiesView { health_foods: acc.health_foods.push(pos_of(e)), ..acc }
    } else if id == "Door"@ {
        EntitiesView { doors: acc.doors.push(door_of(e)), ..acc }
    } else if is_prop(id) {
        EntitiesView { props: acc.props.push(prop_of(e)), ..acc }
    } else if id == "Light"@ {
        EntitiesView { lights: acc.lights.push(light_of(e)), ..acc }
    } else if id == "Gate"@ {
        EntitiesView {
            gate_col: value_i32(field_value(f, "gate_col"@)),
            stars_required: value_i32(field_value(f, "stars_required"@)),
            ..acc
        }
    } else if id == "Exit"@ {
        EntitiesView { exit_next_level: value_str(field_value(f, "exit_next_level"@)), ..acc }
    } else {
        acc
    }
}

pub open spec fn entities_fold(ents: Seq<LdtkEntityInstance>) -> EntitiesView
    decreases ents.len(),
{
    if ents.len() == 0 {
        no_entities()
    } else {
        entity_step(entities_fold(ents.drop_last()), ents.last())
    }
}

/// Every Light's colour string, when present, can be sliced into channels.
pub open spec fn light_colors_sliceable(ents: Seq<LdtkEntityInstance>) -> bool {
    forall|i: int|
        0 <= i < ents.len() && (#[trigger] ents[i]).identifier@ == "Light"@
            ==> color_field_sliceable(field_value(ents[i].field_instances@, "color"@))
}

struct EntityAcc {
    spawn: Option<PixelPos>,
    enemies: Vec<ConvertedEnemy>,
    stars: Vec<PixelPos>,
    health_foods: Vec<PixelPos>,
    doors: Vec<ConvertedDoor>,
    props: Vec<ConvertedProp>,
    lights: Vec<ConvertedLight>,
    gate_col: Option<i32>,
    exit_next_level: Option<String>,
    stars_required: Option<i32>,
}

impl View for EntityAcc {
    type V = EntitiesView;

    closed spec fn view(&self) -> EntitiesView {
        EntitiesView {
            spawn: self.spawn,
            enemies: self.enemies@.map_values(|e: ConvertedEnemy| e@),
            stars: self.stars@,
            health_foods: self.health_foods@,
            doors: self.doors@,
            props: self.props@.map_values(|p: ConvertedProp| p@),
            lights: self.lights@,
            gate_col: self.gate_col,
            exit_next_level: opt_string_view(self.exit_next_level),
            stars_required: self.stars_required,
        }
    }
}

fn number_or(o: Option<Number>, d: Number) -> (r: Number)
    ensures
        r == num_or(o, d),
{
    match o {
        Some(n) => n,
        None => d,
    }
}

fn convert_enemy(entity: &LdtkEntityInstance) -> (r: ConvertedEnemy)
    ensures
        r@ == enemy_of(*entity),
{
    // Required fields default to safe values when absent so the converter
    // can still produce output for partially-valid data.
    let enemy_type = match get_field_str(entity, "enemy_type") {
        Some(t) => t,
        None => String::from_str("Dog"),
    };
    let patrol_range = number_or(get_field_f32(entity, "patrol_range"), Number::PosInt(0));
    let health = number_or(get_field_f32(entity, "health"), Number::PosInt(1));
    let speed_override = get_field_f32(entity, "speed_override");
    ConvertedEnemy {
        enemy_type,
        pos: PixelPos { x: entity.px[0], y: entity.px[1] },
        patrol_range,
        health,
        speed_override,
    }
}

fn convert_prop(entity: &LdtkEntityInstance) -> (r: ConvertedProp)
    ensures
        r@ == prop_of(*entity),
{
    let model_id = match get_field_str(entity, "model_id") {
        Some(m) => m,
        None => String::new(),
    };
    // Centre-anchored models are shifted up so the visual bottom meets the
    // LDtk placement.
    let anchor = center_anchor_half_height(model_id.as_str());
    let scale_x = number_or(get_field_f32(entity, "scale_x"), Number::PosInt(1));
    let scale_y = number_or(get_field_f32(entity, "scale_y"), Number::PosInt(1));
    let scale_z = number_or(get_field_f32(entity, "scale_z"), Number::PosInt(1));
    // z_depth = -15 places props behind the action plane but in front of
    // the parallax background.
    let z = number_or(get_field_f32(entity, "z_depth"), Number::NegInt(-15));
    let rotation_y = number_or(get_field_f32(entity, "rotation_y"), Number::PosInt(0));
    let foreground = match get_field_bool(entity, "foreground") {
        Some(b) => b,
        None => false,
    };
    ConvertedProp {
        model_id,
        pos: PixelPos { x: entity.px[0], y: entity.px[1] },
        anchor_half_height_milli: anchor,
        z,
        scale_x,
        scale_y,
        scale_z,
        rotation_y,
        foreground,
    }
}

fn convert_light(entity: &LdtkEntityInstance) -> (r: ConvertedLight)
    requires
        color_field_sliceable(field_value(entity.field_instances@, "color"@)),
    ensures
        r == light_of(*entity),
{
    // z_depth = 3 places lights in front of the action plane by default.
    let z = number_or(get_field_f32(entity, "z_depth"), Number::PosInt(3));
    let intensity = number_or(get_field_f32(entity, "intensity"), Number::PosInt(100000));
    // The colour is a hex string such as "#FFFFFF"; white when absent.
    let color = match get_field_str(entity, "color") {
        Some(hex) => {
            let t = hex.as_str();
            assert(t.spec_bytes() == vstd::utf8::encode_utf8(t@));
            parse_hex_color(t)
        },
        None => Rgb8 { r: 255, g: 255, b: 255 },
    };
    let radius = get_field_f32(entity, "radius");
    let range = get_field_f32(entity, "range");
    ConvertedLight {
        pos: PixelPos { x: entity.px[0], y: entity.px[1] },
        z,
        color,
        intensity,
        radius,
        range,
    }
}

fn apply_entity(acc: &mut EntityAcc, entity: &LdtkEntityInstance)
    requires
        entity.identifier@ == "Light"@ ==> color_field_sliceable(
            field_value(entity.field_instances@, "color"@),
        ),
    ensures
        final(acc)@ == entity_step(old(acc)@, *entity),
{
    let id = entity.identifier.as_str();
    let pos = PixelPos { x: entity.px[0], y: entity.px[1] };
    if str_eq(id, "Spawn") {
        acc.spawn = Some(pos);
    } else if str_eq(id, "Enemy") {
        let e = convert_enemy(entity);
        acc.enemies.push(e);
        assert(acc.enemies@.map_values(|e: ConvertedEnemy| e@) =~= old(acc).enemies@.map_values(
            |e: ConvertedEnemy| e@,
        ).push(enemy_of(*entity)));
    } else if str_eq(id, "Star") {
        acc.stars.push(pos);
    } else if str_eq(id, "HealthFood") {
        acc.health_foods.push(pos);
    } else if str_eq(id, "Door") {
        let target_layer = match get_field_i32(entity, "target_layer") {
            Some(t) => t,
            None => 0,
        };
        acc.doors.push(ConvertedDoor { target_layer, pos });
    } else if str_eq(id, "Prop") || str_starts_with(id, "Prop_") {
        let p = convert_prop(entity);
        acc.props.push(p);
        assert(acc.props@.map_values(|p: ConvertedProp| p@) =~= old(acc).props@.map_values(
            |p: ConvertedProp| p@,
        ).push(prop_of(*entity)));
    } else if str_eq(id, "Light") {
        let l = convert_light(entity);
        acc.lights.push(l);
    } else if str_eq(id, "Gate") {
        acc.gate_col = get_field_i32(entity, "gate_col");
        acc.stars_required = get_field_i32(entity, "stars_required");
    } else if str_eq(id, "Exit") {
        acc.exit_next_level = get_field_str(entity, "exit_next_level");
    }
    assert(acc@.enemies =~= entity_step(old(acc)@, *entity).enemies);
    assert(acc@.props =~= entity_step(old(acc)@, *entity).props);
    assert(acc@.stars =~= entity_step(old(acc)@, *entity).stars);
    assert(acc@.health_foods =~= entity_step(old(acc)@, *entity).health_foods);
    assert(acc@.doors =~= entity_step(old(acc)@, *entity).doors);
    assert(acc@.lights =~= entity_step(old(acc)@, *entity).lights);
}


// ---------------------------------------------------------------------------
// Level conversion
// ---------------------------------------------------------------------------

/// The first layer of the given kind.
pub open spec fn first_of_type(layers: Seq<LdtkLayerInstance>, t: Seq<char>) -> Option<
    LdtkLayerInstance,
>
    decreases layers.len(),
{
    if layers.len() == 0 {
        None
    } else if layers[0].layer_type@ == t {
        Some(layers[0])
    } else {
        first_of_type(layers.drop_first(), t)
    }
}

/// Look of a level, from its custom fields; the origin defaults to
/// (-864, -200) when OriginX / OriginY are absent.
pub open spec fn look_of(level: LdtkLevel) -> LevelLook {
    let f = level.field_instances@;
    LevelLook {
        origin_x: num_or(value_number(field_value(f, "OriginX"@)), Number::NegInt(-864i64)),
        origin_y: num_or(value_number(field_value(f, "OriginY"@)), Number::NegInt(-200i64)),
        bg_color: value_color(field_value(f, "bg_color"@)),
        glow_enabled: value_bool(field_value(f, "glow_enabled"@)),
        glow_color: value_color(field_value(f, "glow_color"@)),
        glow_intensity: value_number(field_value(f, "glow_intensity"@)),
        canopy_enabled: value_bool(field_value(f, "canopy_enabled"@)),
        canopy_panel_bottom: value_number(field_value(f, "canopy_panel_bottom"@)),
        canopy_panel_height: value_number(field_value(f, "canopy_panel_height"@)),
        canopy_backdrop_height: value_number(field_value(f, "canopy_backdrop_height"@)),
        canopy_panel_color: value_color(field_value(f, "canopy_panel_color"@)),
        canopy_panel_alpha: value_number(field_value(f, "canopy_panel_alpha"@)),
        canopy_backdrop_color: value_color(field_value(f, "canopy_backdrop_color"@)),
    }
}

/// The single layer one inline LDtk level becomes: tiles from its first
/// IntGrid layer, entities from its first Entities layer (whose height, or
/// else the IntGrid's, flips entity positions).
pub open spec fn layer_of(level: LdtkLevel, layers: Seq<LdtkLayerInstance>) -> LayerView {
    let ig = first_of_type(layers, "IntGrid"@);
    let en = first_of_type(layers, "Entities"@);
    let rows = match ig {
        Some(l) => l.c_hei,
        None => 0,
    };
    LayerView {
        cols: match ig {
            Some(l) => l.c_wid,
            None => 0,
        },
        rows,
        entity_rows: match en {
            Some(l) => l.c_hei,
            None => rows,
        },
        tiles: match ig {
            Some(l) => tiles_of(l),
            None => seq![],
        },
        look: look_of(level),
        entities: match en {
            Some(l) => entities_fold(l.entity_instances@),
            None => no_entities(),
        },
    }
}

/// A level converts to one layer, or to none when its layers are stored externally.
pub open spec fn level_view(level: LdtkLevel) -> LevelView {
    LevelView {
        identifier: level.identifier@,
        layers: match level.layer_instances {
            Some(ls) => seq![layer_of(level, ls@)],
            None => seq![],
        },
    }
}

/// The level can be converted without a failure: its colour strings can be
/// sliced and its tile grid can be built.
pub open spec fn level_convertible(level: LdtkLevel) -> bool {
    let f = level.field_instances@;
    &&& color_field_sliceable(field_value(f, "bg_color"@))
    &&& color_field_sliceable(field_value(f, "glow_color"@))
    &&& color_field_sliceable(field_value(f, "canopy_panel_color"@))
    &&& color_field_sliceable(field_value(f, "canopy_backdrop_color"@))
    &&& match level.layer_instances {
        None => true,
        Some(ls) => {
            &&& (match first_of_type(ls@, "IntGrid"@) {
                Some(l) => tiles_convertible(l),
                None => true,
            })
            &&& (match first_of_type(ls@, "Entities"@) {
                Some(l) => light_colors_sliceable(l.entity_instances@),
                None => true,
            })
        },
    }
}

/// Index of the first layer of the given kind.
pub fn first_layer_of_type(layers: &Vec<LdtkLayerInstance>, t: &str) -> (r: Option<usize>)
    ensures
        match r {
            Some(i) => i < layers@.len() && first_of_type(layers@, t@) == Some(layers@[i as int]),
            None => first_of_type(layers@, t@) is None,
        },
{
    let mut i: usize = 0;
    assert(layers@.skip(0) =~= layers@);
    while i < layers.len()
        invariant
            i <= layers@.len(),
            first_of_type(layers@, t@) == first_of_type(layers@.skip(i as int), t@),
        decreases layers@.len() - i,
    {
        assert(layers@.skip(i as int)[0] == layers@[i as int]);
        if str_eq(layers[i].layer_type.as_str(), t) {
            return Some(i);
        }
        assert(layers@.skip(i as int).drop_first() =~= layers@.skip(i + 1));
        i = i + 1;
    }
    None
}

fn convert_entities(ents: &Vec<LdtkEntityInstance>) -> (acc: EntityAcc)
    requires
        light_colors_sliceable(ents@),
    ensures
        acc@ == entities_fold(ents@),
{
    let mut acc = EntityAcc {
        spawn: None,
        enemies: Vec::new(),
        stars: Vec::new(),
        health_foods: Vec::new(),
        doors: Vec::new(),
        props: Vec::new(),
        lights: Vec::new(),
        gate_col: None,
        exit_next_level: None,
        stars_required: None,
    };
    assert(acc@.enemies =~= seq![]);
    assert(acc@.props =~= seq![]);
    assert(ents@.take(0) =~= Seq::<LdtkEntityInstance>::empty());
    let mut i: usize = 0;
    while i < ents.len()
        invariant
            i <= ents@.len(),
            light_colors_sliceable(ents@),
            acc@ == entities_fold(ents@.take(i as int)),
        decreases ents@.len() - i,
    {
        assert(ents@.take(i + 1).drop_last() =~= ents@.take(i as int));
        assert(ents@.take(i + 1).last() == ents@[i as int]);
        apply_entity(&mut acc, &ents[i]);
        i = i + 1;
    }
    assert(ents@.take(ents@.len() as int) =~= ents@);
    acc
}

/// Converts one LDtk level into its game-ready form.
pub fn convert_level(level: &LdtkLevel) -> (r: ConvertedLevel)
    requires
        level_convertible(*level),
    ensures
        r@ == level_view(*level),
{
    // World-space origin, with defaults when absent.
    let origin_x = number_or(get_level_field_f32(level, "OriginX"), Number::NegInt(-864));
    let origin_y = number_or(get_level_field_f32(level, "OriginY"), Number::NegInt(-200));
    // Sublevel (L1) dark background and emissive glow.
    let bg_color = get_level_field_color(level, "bg_color");
    let glow_enabled = get_level_field_bool(level, "glow_enabled");
    let glow_color = get_level_field_color(level, "glow_color");
    let glow_intensity = get_level_field_f32(level, "glow_intensity");
    // Solar canopy (rooftop layer only).
    let canopy_enabled = get_level_field_bool(level, "canopy_enabled");
    let canopy_panel_bottom = get_level_field_f32(level, "canopy_panel_bottom");
    let canopy_panel_height = get_level_field_f32(level, "canopy_panel_height");
    let canopy_backdrop_height = get_level_field_f32(level, "canopy_backdrop_height");
    let canopy_panel_color = get_level_field_color(level, "canopy_panel_color");
    let canopy_panel_alpha = get_level_field_f32(level, "canopy_panel_alpha");
    let canopy_backdrop_color = get_level_field_color(level, "canopy_backdrop_color");

    let layers = match &level.layer_instances {
        Some(l) => l,
        None => {
            let r = ConvertedLevel { identifier: level.identifier.clone(), layers: Vec::new() };
            assert(r@.layers =~= level_view(*level).layers);
            return r;
        },
    };
    let intgrid = first_layer_of_type(layers, "IntGrid");
    let entities = first_layer_of_type(layers, "Entities");
    let (cols, rows, tiles) = match intgrid {
        Some(i) => (layers[i].c_wid, layers[i].c_hei, convert_tiles(&layers[i])),
        None => (0, 0, Vec::new()),
    };
    let (entity_rows, acc) = match entities {
        Some(i) => (layers[i].c_hei, convert_entities(&layers[i].entity_instances)),
        None => (
            rows,
            EntityAcc {
                spawn: None,
                enemies: Vec::new(),
                stars: Vec::new(),
                health_foods: Vec::new(),
                doors: Vec::new(),
                props: Vec::new(),
                lights: Vec::new(),
                gate_col: None,
                exit_next_level: None,
                stars_required: None,
            },
        ),
    };
    assert(acc@.enemies =~= layer_of(*level, layers@).entities.enemies);
    assert(acc@.props =~= layer_of(*level, layers@).entities.props);
    assert(acc@.stars =~= layer_of(*level, layers@).entities.stars);
    assert(acc@.health_foods =~= layer_of(*level, layers@).entities.health_foods);
    assert(acc@.doors =~= layer_of(*level, layers@).entities.doors);
    assert(acc@.lights =~= layer_of(*level, layers@).entities.lights);
    assert(rows_view(tiles@) =~= layer_of(*level, layers@).tiles);
    let layer = ConvertedLayer {
        cols,
        rows,
        origin_x,
        origin_y,
        entity_rows,
        spawn: acc.spawn,
        tiles,
        enemies: acc.enemies,
        stars: acc.stars,
        health_foods: acc.health_foods,
        doors: acc.doors,
        props: acc.props,
        lights: acc.lights,
        gate_col: acc.gate_col,
        exit_next_level: acc.exit_next_level,
        stars_required: acc.stars_required,
        bg_color,
        glow_enabled,
        glow_color,
        glow_intensity,
        canopy_enabled,
        canopy_panel_bottom,
        canopy_panel_height,
        canopy_backdrop_height,
        canopy_panel_color,
        canopy_panel_alpha,
        canopy_backdrop_color,
    };
    let mut out: Vec<ConvertedLayer> = Vec::new();
    out.push(layer);
    let r = ConvertedLevel { identifier: level.identifier.clone(), layers: out };
    assert(r@.layers =~= level_view(*level).layers);
    r
}

// ---------------------------------------------------------------------------
// Checking what conversion accepts
// ---------------------------------------------------------------------------

/// Whether the IntGrid layer's tiles can be drawn: non-negative dimensions
/// and a CSV no longer than the grid.
pub fn tiles_are_convertible(layer: &LdtkLayerInstance) -> (b: bool)
    ensures
        b == tiles_convertible(*layer),
{
    if layer.c_wid < 0 || layer.c_hei < 0 {
        return false;
    }
    let w = layer.c_wid as u64;
    let h = layer.c_hei as u64;
    assert(w * h <= 0x7fff_ffff * 0x7fff_ffff) by (nonlinear_arith)
        requires
            w <= 0x7fff_ffff,
            h <= 0x7fff_ffff,
    ;
    let cells = w * h;
    let len = layer.int_grid_csv.len() as u64;
    len <= cells && cells <= usize::MAX as u64
}

/// Whether every Light among `ents` has a colour that can be parsed.
pub fn light_colors_ok(ents: &Vec<LdtkEntityInstance>) -> (b: bool)
    ensures
        b == light_colors_sliceable(ents@),
{
    let mut i: usize = 0;
    while i < ents.len()
        invariant
            i <= ents@.len(),
            forall|k: int|
                0 <= k < i && (#[trigger] ents@[k]).identifier@ == "Light"@ ==> color_field_sliceable(
                    field_value(ents@[k].field_instances@, "color"@),
                ),
        decreases ents@.len() - i,
    {
        if str_eq(ents[i].identifier.as_str(), "Light") && !color_field_ok(
            &ents[i].field_instances,
            "color",
        ) {
            return false;
        }
        i = i + 1;
    }
    true
}

/// Whether `convert_level` can convert `level`: its colour fields can be
/// parsed, its first IntGrid layer can be drawn, and the Lights of its first
/// Entities layer have parsable colours.
pub fn level_is_convertible(level: &LdtkLevel) -> (b: bool)
    ensures
        b == level_convertible(*level),
{
    let f = &level.field_instances;
    if !color_field_ok(f, "bg_color") || !color_field_ok(f, "glow_color") || !color_field_ok(
        f,
        "canopy_panel_color",
    ) || !color_field_ok(f, "canopy_backdrop_color") {
        return false;
    }
    match &level.layer_instances {
        None => true,
        Some(layers) => {
            let grid_ok = match first_layer_of_type(layers, "IntGrid") {
                Some(i) => tiles_are_convertible(&layers[i]),
                None => true,
            };
            let lights_ok = match first_layer_of_type(layers, "Entities") {
                Some(i) => light_colors_ok(&layers[i].entity_instances),
                None => true,
            };
            grid_ok && lights_ok
        },
    }
}

// ---------------------------------------------------------------------------
// What a converted light is made of
// ---------------------------------------------------------------------------

/// The Light entities among `ents`, in order.
pub open spec fn light_entities(ents: Seq<LdtkEntityInstance>) -> Seq<LdtkEntityInstance>
    decreases ents.len(),
{
    if ents.len() == 0 {
        seq![]
    } else {
        light_entities(ents.drop_last()) + if ents.last().identifier@ == "Light"@ {
            seq![ents.last()]
        } else {
            seq![]
        }
    }
}

/// The number a field holds, or `default` when the field is absent, null or
/// not a number.
pub open spec fn number_field(fields: Seq<LdtkFieldInstance>, name: Seq<char>, default: Number) -> Number {
    match field_value(fields, name) {
        Some(FieldValue::Number(n)) => n,
        _ => default,
    }
}

/// The number a field holds, if it holds one.
pub open spec fn optional_number(fields: Seq<LdtkFieldInstance>, name: Seq<char>) -> Option<Number> {
    match field_value(fields, name) {
        Some(FieldValue::Number(n)) => Some(n),
        _ => None,
    }
}

/// Light `k` of a layer is made from the `k`-th Light entity: at its pixel
/// position, with the entity's `intensity`, `z_depth`, `radius` and `range`
/// fields when it sets them, and intensity 100000 and depth 3 when it does
/// not. No other kind of entity adds a light.
pub proof fn lemma_lights_follow_fields(ents: Seq<LdtkEntityInstance>)
    ensures
        entities_fold(ents).lights.len() == light_entities(ents).len(),
        forall|k: int|
            0 <= k < light_entities(ents).len() ==> {
                let e = #[trigger] light_entities(ents)[k];
                let f = e.field_instances@;
                let l = entities_fold(ents).lights[k];
                &&& l.pos == PixelPos { x: e.px[0], y: e.px[1] }
                &&& l.intensity == number_field(f, "intensity"@, Number::PosInt(100000))
                &&& l.z == number_field(f, "z_depth"@, Number::PosInt(3))
                &&& l.radius == optional_number(f, "radius"@)
                &&& l.range == optional_number(f, "range"@)
            },
    decreases ents.len(),
{
    if ents.len() > 0 {
        let init = ents.drop_last();
        let e = ents.last();
        lemma_lights_follow_fields(init);
        reveal_strlit("Light");
        reveal_strlit("Spawn");
        reveal_strlit("Enemy");
        reveal_strlit("Star");
        reveal_strlit("HealthFood");
        reveal_strlit("Door");
        reveal_strlit("Prop");
        reveal_strlit("Prop_");
        let prev = entities_fold(init).lights;
        let now = entities_fold(ents).lights;
        let li = light_entities(init);
        let ls = light_entities(ents);
        if e.identifier@ == "Light"@ {
            assert(e.identifier@ != "Spawn"@ && e.identifier@ != "Enemy"@ && e.identifier@
                != "Star"@ && e.identifier@ != "HealthFood"@ && e.identifier@ != "Door"@) by {
                assert(e.identifier@[0] == 'L');
            }
            assert(!is_prop(e.identifier@)) by {
                let id = e.identifier@;
                assert(id[0] == 'L');
                assert("Prop"@[0] == 'P');
                assert(id != "Prop"@);
                if "Prop_"@.len() <= id.len() {
                    assert(id.subrange(0, 5)[0] == 'L');
                    assert("Prop_"@[0] == 'P');
                }
            }
            assert(now == prev.push(light_of(e)));
            assert(ls == li.push(e));
        } else {
            assert(now == prev);
            assert(ls =~= li);
        }
        assert forall|k: int| 0 <= k < ls.len() implies {
            let e2 = #[trigger] ls[k];
            let f = e2.field_instances@;
            let l = now[k];
            &&& l.pos == PixelPos { x: e2.px[0], y: e2.px[1] }
            &&& l.intensity == number_field(f, "intensity"@, Number::PosInt(100000))
            &&& l.z == number_field(f, "z_depth"@, Number::PosInt(3))
            &&& l.radius == optional_number(f, "radius"@)
            &&& l.range == optional_number(f, "range"@)
        } by {
            if k < li.len() {
                assert(ls[k] == li[k]);
                assert(now[k] == prev[k]);
            }
        }
    }
}

/// The lights of a converted level follow its first Entities layer's Light
/// entities, as `lemma_lights_follow_fields` states.
pub proof fn lemma_level_lights(level: LdtkLevel, ents: LdtkLayerInstance)
    requires
        level.layer_instances is Some,
        first_of_type(level.layer_instances.unwrap()@, "Entities"@) == Some(ents),
    ensures
        level_view(level).layers.len() == 1,
        level_view(level).layers[0].entities.lights == entities_fold(ents.entity_instances@).lights,
{
}

/// The entities among `ents` whose kind is `name`, in order.
pub open spec fn entities_named(ents: Seq<LdtkEntityInstance>, name: Seq<char>) -> Seq<
    LdtkEntityInstance,
>
    decreases ents.len(),
{
    if ents.len() == 0 {
        seq![]
    } else {
        entities_named(ents.drop_last(), name) + if ents.last().identifier@ == name {
            seq![ents.last()]
        } else {
            seq![]
        }
    }
}

/// The `Prop` and `Prop_*` entities among `ents`, in order.
pub open spec fn prop_entities(ents: Seq<LdtkEntityInstance>) -> Seq<LdtkEntityInstance>
    decreases ents.len(),
{
    if ents.len() == 0 {
        seq![]
    } else {
        let id = ents.last().identifier@;
        prop_entities(ents.drop_last()) + if id == "Prop"@ || ("Prop_"@.len() <= id.len()
            && id.subrange(0, 5) == "Prop_"@) {
            seq![ents.last()]
        } else {
            seq![]
        }
    }
}

/// The text a field holds, or `default`.
pub open spec fn text_field(fields: Seq<LdtkFieldInstance>, name: Seq<char>, default: Seq<char>) -> Seq<char> {
    match field_value(fields, name) {
        Some(FieldValue::Str(t)) => t@,
        _ => default,
    }
}

/// The pixel position of an entity.
pub open spec fn entity_px(e: LdtkEntityInstance) -> PixelPos {
    PixelPos { x: e.px[0], y: e.px[1] }
}

/// What each enemy, door, star, health food and prop of a layer is made of:
/// the `k`-th of each list comes from the `k`-th entity of that kind, at its
/// pixel position, with its fields where it sets them and the documented
/// defaults where it does not (enemy: type "Dog", patrol range 0, health 1;
/// door: target layer 0; prop: no model, depth -15, scales 1, rotation 0,
/// background). Spawn, gate and exit come from the last entity of their kind.
pub proof fn lemma_entities_follow_fields(ents: Seq<LdtkEntityInstance>)
    ensures
        ({
            let out = entities_fold(ents);
            let es = entities_named(ents, "Enemy"@);
            &&& out.enemies.len() == es.len()
            &&& forall|k: int|
                0 <= k < es.len() ==> {
                    let f = (#[trigger] es[k]).field_instances@;
                    let v = out.enemies[k];
                    &&& v.pos == entity_px(es[k])
                    &&& v.enemy_type == text_field(f, "enemy_type"@, "Dog"@)
                    &&& v.patrol_range == number_field(f, "patrol_range"@, Number::PosInt(0))
                    &&& v.health == number_field(f, "health"@, Number::PosInt(1))
                    &&& v.speed_override == optional_number(f, "speed_override"@)
                }
        }),
        ({
            let out = entities_fold(ents);
            let ds = entities_named(ents, "Door"@);
            &&& out.doors.len() == ds.len()
            &&& forall|k: int|
                0 <= k < ds.len() ==> {
                    let v = out.doors[k];
                    &&& v.pos == entity_px(#[trigger] ds[k])
                    &&& v.target_layer == match value_i32(
                        field_value(ds[k].field_instances@, "target_layer"@),
                    ) {
                        Some(t) => t,
                        None => 0i32,
                    }
                }
        }),
        ({
            let out = entities_fold(ents);
            let ss = entities_named(ents, "Star"@);
            let hs = entities_named(ents, "HealthFood"@);
            &&& out.stars.len() == ss.len()
            &&& forall|k: int| 0 <= k < ss.len() ==> out.stars[k] == entity_px(#[trigger] ss[k])
            &&& out.health_foods.len() == hs.len()
            &&& forall|k: int|
                0 <= k < hs.len() ==> out.health_foods[k] == entity_px(#[trigger] hs[k])
        }),
        ({
            let out = entities_fold(ents);
            let ps = prop_entities(ents);
            &&& out.props.len() == ps.len()
            &&& forall|k: int|
                0 <= k < ps.len() ==> {
                    let f = (#[trigger] ps[k]).field_instances@;
                    let v = out.props[k];
                    let model = text_field(f, "model_id"@, Seq::empty());
                    &&& v.pos == entity_px(ps[k])
                    &&& v.model_id == model
                    &&& v.anchor_half_height_milli == anchor_half_height(file_name(model))
                    &&& v.z == number_field(f, "z_depth"@, Number::NegInt(-15i64))
                    &&& v.scale_x == number_field(f, "scale_x"@, Number::PosInt(1))
                    &&& v.scale_y == number_field(f, "scale_y"@, Number::PosInt(1))
                    &&& v.scale_z == number_field(f, "scale_z"@, Number::PosInt(1))
                    &&& v.rotation_y == number_field(f, "rotation_y"@, Number::PosInt(0))
                    &&& v.foreground == match field_value(f, "foreground"@) {
                        Some(FieldValue::Bool(b)) => b,
                        _ => false,
                    }
                }
        }),
        ({
            let out = entities_fold(ents);
            let sp = entities_named(ents, "Spawn"@);
            let gs = entities_named(ents, "Gate"@);
            let xs = entities_named(ents, "Exit"@);
            &&& out.spawn == if sp.len() == 0 {
                None
            } else {
                Some(entity_px(sp.last()))
            }
            &&& gs.len() == 0 ==> out.gate_col is None && out.stars_required is None
            &&& gs.len() > 0 ==> out.gate_col == value_i32(
                field_value(gs.last().field_instances@, "gate_col"@),
            ) && out.stars_required == value_i32(
                field_value(gs.last().field_instances@, "stars_required"@),
            )
            &&& out.exit_next_level == if xs.len() == 0 {
                None
            } else {
                match field_value(xs.last().field_instances@, "exit_next_level"@) {
                    Some(FieldValue::Str(t)) => Some(t@),
                    _ => None,
                }
            }
        }),
    decreases ents.len(),
{
    if ents.len() > 0 {
        let init = ents.drop_last();
        let e = ents.last();
        lemma_entities_follow_fields(init);
        reveal_strlit("Light");
        reveal_strlit("Spawn");
        reveal_strlit("Enemy");
        reveal_strlit("Star");
        reveal_strlit("HealthFood");
        reveal_strlit("Door");
        reveal_strlit("Prop");
        reveal_strlit("Prop_");
        reveal_strlit("Gate");
        reveal_strlit("Exit");
        let id = e.identifier@;
        let a = entities_fold(init);
        let b = entities_fold(ents);
        // The kinds are told apart by their first two characters.
        let isprop = id == "Prop"@ || ("Prop_"@.len() <= id.len() && id.subrange(0, 5) == "Prop_"@);
        if isprop {
            assert(id[0] == 'P') by {
                if id != "Prop"@ {
                    assert(id.subrange(0, 5)[0] == 'P');
                }
            }
        }
        assert(is_prop(id) == isprop);
        assert(id == "Spawn"@ ==> id[0] == 'S' && id[1] == 'p');
        assert(id == "Star"@ ==> id[0] == 'S' && id[1] == 't');
        assert(id == "Enemy"@ ==> id[0] == 'E' && id[1] == 'n');
        assert(id == "Exit"@ ==> id[0] == 'E' && id[1] == 'x');
        assert(id == "HealthFood"@ ==> id[0] == 'H');
        assert(id == "Door"@ ==> id[0] == 'D');
        assert(id == "Gate"@ ==> id[0] == 'G');
        assert(id == "Light"@ ==> id[0] == 'L');
        // Each list grows only by an entity of its own kind.
        assert(entities_named(ents, "Enemy"@) == entities_named(init, "Enemy"@) + if id == "Enemy"@ {
            seq![e]
        } else {
            seq![]
        });
        assert(entities_named(ents, "Door"@) == entities_named(init, "Door"@) + if id == "Door"@ {
            seq![e]
        } else {
            seq![]
        });
        assert(entities_named(ents, "Star"@) == entities_named(init, "Star"@) + if id == "Star"@ {
            seq![e]
        } else {
            seq![]
        });
        assert(entities_named(ents, "HealthFood"@) == entities_named(init, "HealthFood"@) + if id
            == "HealthFood"@ {
            seq![e]
        } else {
            seq![]
        });
        assert(prop_entities(ents) == prop_entities(init) + if isprop {
            seq![e]
        } else {
            seq![]
        });
        assert(b.enemies =~= a.enemies + if id == "Enemy"@ {
            seq![enemy_of(e)]
        } else {
            seq![]
        });
        assert(b.doors =~= a.doors + if id == "Door"@ {
            seq![door_of(e)]
        } else {
            seq![]
        });
        assert(b.stars =~= a.stars + if id == "Star"@ {
            seq![pos_of(e)]
        } else {
            seq![]
        });
        assert(b.health_foods =~= a.health_foods + if id == "HealthFood"@ {
            seq![pos_of(e)]
        } else {
            seq![]
        });
        assert(b.props =~= a.props + if isprop {
            seq![prop_of(e)]
        } else {
            seq![]
        });
        let es = entities_named(ents, "Enemy"@);
        let ei = entities_named(init, "Enemy"@);
        assert forall|k: int| 0 <= k < es.len() implies {
            let f = (#[trigger] es[k]).field_instances@;
            let v = b.enemies[k];
            &&& v.pos == entity_px(es[k])
            &&& v.enemy_type == text_field(f, "enemy_type"@, "Dog"@)
            &&& v.patrol_range == number_field(f, "patrol_range"@, Number::PosInt(0))
            &&& v.health == number_field(f, "health"@, Number::PosInt(1))
            &&& v.speed_override == optional_number(f, "speed_override"@)
        } by {
            if k < ei.len() {
                assert(es[k] == ei[k]);
                assert(b.enemies[k] == a.enemies[k]);
            }
        }
        let ds = entities_named(ents, "Door"@);
        let di = entities_named(init, "Door"@);
        assert forall|k: int| 0 <= k < ds.len() implies {
            let v = b.doors[k];
            &&& v.pos == entity_px(#[trigger] ds[k])
            &&& v.target_layer == match value_i32(field_value(ds[k].field_instances@, "target_layer"@)) {
                Some(t) => t,
                None => 0i32,
            }
        } by {
            if k < di.len() {
                assert(ds[k] == di[k]);
                assert(b.doors[k] == a.doors[k]);
            }
        }
        let ss = entities_named(ents, "Star"@);
        let si = entities_named(init, "Star"@);
        assert forall|k: int| 0 <= k < ss.len() implies b.stars[k] == entity_px(#[trigger] ss[k]) by {
            if k < si.len() {
                assert(ss[k] == si[k]);
                assert(b.stars[k] == a.stars[k]);
            }
        }
        let hs = entities_named(ents, "HealthFood"@);
        let hi = entities_named(init, "HealthFood"@);
        assert forall|k: int| 0 <= k < hs.len() implies b.health_foods[k] == entity_px(
            #[trigger] hs[k],
        ) by {
            if k < hi.len() {
                assert(hs[k] == hi[k]);
                assert(b.health_foods[k] == a.health_foods[k]);
            }
        }
        let ps = prop_entities(ents);
        let pi = prop_entities(init);
        assert forall|k: int| 0 <= k < ps.len() implies {
            let f = (#[trigger] ps[k]).field_instances@;
            let v = b.props[k];
            let model = text_field(f, "model_id"@, Seq::empty());
            &&& v.pos == entity_px(ps[k])
            &&& v.model_id == model
            &&& v.anchor_half_height_milli == anchor_half_height(file_name(model))
            &&& v.z == number_field(f, "z_depth"@, Number::NegInt(-15i64))
            &&& v.scale_x == number_field(f, "scale_x"@, Number::PosInt(1))
            &&& v.scale_y == number_field(f, "scale_y"@, Number::PosInt(1))
            &&& v.scale_z == number_field(f, "scale_z"@, Number::PosInt(1))
            &&& v.rotation_y == number_field(f, "rotation_y"@, Number::PosInt(0))
            &&& v.foreground == match field_value(f, "foreground"@) {
                Some(FieldValue::Bool(x)) => x,
                _ => false,
            }
        } by {
            if k < pi.len() {
                assert(ps[k] == pi[k]);
                assert(b.props[k] == a.props[k]);
            }
        }
        let sp = entities_named(ents, "Spawn"@);
        let spi = entities_named(init, "Spawn"@);
        assert(sp == spi + if id == "Spawn"@ { seq![e] } else { seq![] });
        if id == "Spawn"@ {
            assert(sp.last() == e);
        } else {
            assert(sp =~= spi);
        }
        let gs = entities_named(ents, "Gate"@);
        let gi = entities_named(init, "Gate"@);
        assert(gs == gi + if id == "Gate"@ { seq![e] } else { seq![] });
        if id == "Gate"@ {
            assert(gs.last() == e);
        } else {
            assert(gs =~= gi);
        }
        let xs = entities_named(ents, "Exit"@);
        let xi = entities_named(init, "Exit"@);
        assert(xs == xi + if id == "Exit"@ { seq![e] } else { seq![] });
        if id == "Exit"@ {
            assert(xs.last() == e);
        } else {
            assert(xs =~= xi);
        }
    }
}

/// The flag a field holds, if it holds one.
pub open spec fn optional_flag(fields: Seq<LdtkFieldInstance>, name: Seq<char>) -> Option<bool> {
    match field_value(fields, name) {
        Some(FieldValue::Bool(b)) => Some(b),
        _ => None,
    }
}

/// The colour a hex-string field denotes, if it holds a string.
pub open spec fn optional_color(fields: Seq<LdtkFieldInstance>, name: Seq<char>) -> Option<Rgb8> {
    match field_value(fields, name) {
        Some(FieldValue::Str(t)) => Some(hex_color(vstd::utf8::encode_utf8(t@))),
        _ => None,
    }
}

/// An inline level converts to exactly one layer, sized by its first IntGrid
/// layer (0 x 0 without one) and placed at its `OriginX` / `OriginY` fields
/// (-864 / -200 by default); every look setting is the level field of the
/// same name.  A level stored in external files converts to no layer.
pub proof fn lemma_level_look(level: LdtkLevel)
    ensures
        level.layer_instances is None ==> level_view(level).layers.len() == 0,
        level.layer_instances is Some ==> {
            let f = level.field_instances@;
            let ls = level.layer_instances.unwrap()@;
            let v = level_view(level);
            let l = v.layers[0];
            &&& v.identifier == level.identifier@
            &&& v.layers.len() == 1
            &&& l.cols == match first_of_type(ls, "IntGrid"@) {
                Some(g) => g.c_wid,
                None => 0i32,
            }
            &&& l.rows == match first_of_type(ls, "IntGrid"@) {
                Some(g) => g.c_hei,
                None => 0i32,
            }
            &&& l.look.origin_x == number_field(f, "OriginX"@, Number::NegInt(-864i64))
            &&& l.look.origin_y == number_field(f, "OriginY"@, Number::NegInt(-200i64))
            &&& l.look.bg_color == optional_color(f, "bg_color"@)
            &&& l.look.glow_enabled == optional_flag(f, "glow_enabled"@)
            &&& l.look.glow_color == optional_color(f, "glow_color"@)
            &&& l.look.glow_intensity == optional_number(f, "glow_intensity"@)
            &&& l.look.canopy_enabled == optional_flag(f, "canopy_enabled"@)
            &&& l.look.canopy_panel_bottom == optional_number(f, "canopy_panel_bottom"@)
            &&& l.look.canopy_panel_height == optional_number(f, "canopy_panel_height"@)
            &&& l.look.canopy_backdrop_height == optional_number(f, "canopy_backdrop_height"@)
            &&& l.look.canopy_panel_color == optional_color(f, "canopy_panel_color"@)
            &&& l.look.canopy_panel_alpha == optional_number(f, "canopy_panel_alpha"@)
            &&& l.look.canopy_backdrop_color == optional_color(f, "canopy_backdrop_color"@)
        },
{
}

} // verus!
