use vstd::prelude::*;
use vstd::string::*;
use vstd::utf8::is_continuation_byte;

use crate::ldtk::schema::{
    field_value, find_field_index, opt_string_view, value_bool, value_i64, value_number,
    value_str, FieldValue, LdtkEntityInstance, LdtkFieldInstance, LdtkLevel, Number,
};
use crate::ldtk::text::{str_eq, str_ends_with};

verus! {

/// An sRGB colour as three bytes; the game divides each by 255.
#[derive(Debug, Clone, Copy, PartialEq, Eq, Structural)]
pub struct Rgb8 {
    pub r: u8,
    pub g: u8,
    pub b: u8,
}

pub open spec fn white() -> Rgb8 {
    Rgb8 { r: 255, g: 255, b: 255 }
}

// ---------------------------------------------------------------------------
// Hex colours
// ---------------------------------------------------------------------------

/// The bytes left after every leading '#' is removed.
pub open spec fn trim_hashes(b: Seq<u8>) -> Seq<u8>
    decreases b.len(),
{
    if b.len() > 0 && b[0] == 35u8 {
        trim_hashes(b.drop_first())
    } else {
        b
    }
}

/// Value of one hexadecimal digit byte (`0-9`, `a-f`, `A-F`).
pub open spec fn hex_digit(b: u8) -> Option<int> {
    if 48 <= b <= 57 {
        Some(b - 48)
    } else if 97 <= b <= 102 {
        Some(b - 87)
    } else if 65 <= b <= 70 {
        Some(b - 55)
    } else {
        None
    }
}

/// The value of two hex digit bytes, `None` unless both are hex digits.
pub open spec fn hex_pair(b0: u8, b1: u8) -> Option<u8> {
    match (hex_digit(b0), hex_digit(b1)) {
        (Some(h), Some(l)) => Some((h * 16 + l) as u8),
        _ => None,
    }
}

/// The colour a CSS hex string denotes (`"#FF8040"` or `"FF8040"`): the first
/// six bytes after the leading '#'s, read as three pairs of hex digits.
/// White when fewer than six bytes remain or any pair is not two hex digits.
pub open spec fn hex_color(bytes: Seq<u8>) -> Rgb8 {
    let h = trim_hashes(bytes);
    if h.len() >= 6 {
        match (hex_pair(h[0], h[1]), hex_pair(h[2], h[3]), hex_pair(h[4], h[5])) {
            (Some(r), Some(g), Some(b)) => Rgb8 { r, g, b },
            _ => white(),
        }
    } else {
        white()
    }
}

/// Hex digits read in either case: '0'-'9' are 0-9, and both 'a'-'f' and
/// 'A'-'F' are 10-15; any other byte is no digit.
pub proof fn lemma_hex_digits(b: u8)
    ensures
        48 <= b <= 57 ==> hex_digit(b) == Some(b - 48),
        97 <= b <= 102 ==> hex_digit(b) == Some(b - 87) && hex_digit((b - 32) as u8) == Some(
            b - 87,
        ),
        !(48 <= b <= 57 || 65 <= b <= 70 || 97 <= b <= 102) ==> hex_digit(b) is None,
{
}

/// A string whose first six bytes (after an optional '#') are hex digits, in
/// any case, gives the colour whose channels are `16 * high + low` of the
/// three digit pairs.
pub proof fn lemma_hex_color_digits(bytes: Seq<u8>, hash: bool)
    requires
        bytes.len() >= 6,
        forall|i: int|
            0 <= i < 6 ==> 48 <= #[trigger] bytes[i] <= 57 || 65 <= bytes[i] <= 70 || 97 <= bytes[i]
                <= 102,
    ensures
        ({
            let v = |b: u8|
                if b <= 57 {
                    b - 48
                } else if b >= 97 {
                    b - 87
                } else {
                    b - 55
                };
            let c = Rgb8 {
                r: (16 * v(bytes[0]) + v(bytes[1])) as u8,
                g: (16 * v(bytes[2]) + v(bytes[3])) as u8,
                b: (16 * v(bytes[4]) + v(bytes[5])) as u8,
            };
            &&& hex_color(bytes) == c
            &&& hex_color(seq![35u8] + bytes) == c
            &&& 0 <= 16 * v(bytes[0]) + v(bytes[1]) <= 255
            &&& 0 <= 16 * v(bytes[2]) + v(bytes[3]) <= 255
            &&& 0 <= 16 * v(bytes[4]) + v(bytes[5]) <= 255
        }),
{
    assert(bytes[0] != 35u8);
    assert(trim_hashes(bytes) == bytes);
    let hb = seq![35u8] + bytes;
    assert(hb.drop_first() =~= bytes);
    assert(trim_hashes(hb) == bytes);
    assert(48 <= bytes[1] <= 57 || 65 <= bytes[1] <= 70 || 97 <= bytes[1] <= 102);
    assert(48 <= bytes[2] <= 57 || 65 <= bytes[2] <= 70 || 97 <= bytes[2] <= 102);
    assert(48 <= bytes[3] <= 57 || 65 <= bytes[3] <= 70 || 97 <= bytes[3] <= 102);
    assert(48 <= bytes[4] <= 57 || 65 <= bytes[4] <= 70 || 97 <= bytes[4] <= 102);
    assert(48 <= bytes[5] <= 57 || 65 <= bytes[5] <= 70 || 97 <= bytes[5] <= 102);
}

/// The byte offsets 2, 4 and 6 of the trimmed text are character boundaries
/// whenever six bytes remain, so the three two-byte slices can be taken.
pub open spec fn hex_sliceable(bytes: Seq<u8>) -> bool {
    let h = trim_hashes(bytes);
    h.len() < 6 || (!is_continuation_byte(h[2]) && !is_continuation_byte(h[4]) && (h.len() == 6
        || !is_continuation_byte(h[6])))
}

fn hex_digit_value(b: u8) -> (r: Option<u8>)
    ensures
        match r {
            Some(v) => hex_digit(b) == Some(v as int),
            None => hex_digit(b) is None,
        },
{
    if 48 <= b && b <= 57 {
        Some(b - 48)
    } else if 97 <= b && b <= 102 {
        Some(b - 87)
    } else if 65 <= b && b <= 70 {
        Some(b - 55)
    } else {
        None
    }
}

fn hex_pair_value(b0: u8, b1: u8) -> (r: Option<u8>)
    ensures
        r == hex_pair(b0, b1),
{
    match (hex_digit_value(b0), hex_digit_value(b1)) {
        (Some(h), Some(l)) => Some(h * 16 + l),
        _ => None,
    }
}

/// Parses a CSS hex colour string (e.g. `"#FF8040"` or `"FF8040"`) into its
/// three channel bytes.  A malformed string (fewer than six bytes after the
/// '#'s, or a pair that is not two hex digits) reads as white.
pub fn parse_hex_color(hex: &str) -> (c: Rgb8)
    requires
        hex_sliceable(hex.spec_bytes()),
    ensures
        c == hex_color(hex.spec_bytes()),
{
    let bytes = hex.as_bytes();
    let n = bytes.len();
    let mut start: usize = 0;
    assert(bytes@.skip(0) =~= bytes@);
    while start < n && bytes[start] == 35
        invariant
            n == bytes@.len(),
            start <= n,
            trim_hashes(bytes@) == trim_hashes(bytes@.skip(start as int)),
        decreases n - start,
    {
        assert(bytes@.skip(start as int).drop_first() =~= bytes@.skip(start + 1));
        start = start + 1;
    }
    assert(trim_hashes(bytes@.skip(start as int)) == bytes@.skip(start as int));
    if n - start >= 6 {
        let r = hex_pair_value(bytes[start], bytes[start + 1]);
        let g = hex_pair_value(bytes[start + 2], bytes[start + 3]);
        let b = hex_pair_value(bytes[start + 4], bytes[start + 5]);
        match (r, g, b) {
            (Some(r), Some(g), Some(b)) => Rgb8 { r, g, b },
            _ => Rgb8 { r: 255, g: 255, b: 255 },
        }
    } else {
        Rgb8 { r: 255, g: 255, b: 255 }
    }
}

// ---------------------------------------------------------------------------
// Centre-anchored models
// ---------------------------------------------------------------------------

/// The part of a path after its last '/', the whole text when there is none.
pub open spec fn file_name(s: Seq<char>) -> Seq<char>
    decreases s.len(),
{
    if s.len() == 0 {
        s
    } else if s.last() == '/' {
        seq![]
    } else {
        file_name(s.drop_last()).push(s.last())
    }
}

/// Half-height of a centre-anchored model, in thousandths of its scale.
pub open spec fn anchor_half_height(file: Seq<char>) -> Option<u32> {
    if file == "large_rock.glb"@ {
        Some(429)
    } else if file == "yellow_flower.glb"@ {
        Some(300)
    } else if file == "tree_oak.glb"@ {
        Some(500)
    } else if file == "tree_fat.glb"@ {
        Some(447)
    } else if file == "tree_pine.glb"@ {
        Some(500)
    } else if file == "tree_default.glb"@ {
        Some(500)
    } else if file == "tree_cherryblossom.glb"@ {
        Some(500)
    } else if file == "taxi.glb"@ {
        Some(241)
    } else if file == "construction-cone.glb"@ {
        Some(500)
    } else {
        None
    }
}

proof fn lemma_file_name(s: Seq<char>, start: int)
    requires
        0 <= start <= s.len(),
        start == 0 || s[start - 1] == '/',
        forall|j: int| start <= j < s.len() ==> s[j] != '/',
    ensures
        file_name(s) == s.subrange(start, s.len() as int),
    decreases s.len(),
{
    if s.len() == 0 {
        assert(s.subrange(0, 0) =~= s);
    } else if start == s.len() {
        assert(s.subrange(start, s.len() as int) =~= Seq::<char>::empty());
    } else {
        lemma_file_name(s.drop_last(), start);
        assert(s.subrange(start, s.len() as int) =~= s.drop_last().subrange(
            start,
            s.len() - 1,
        ).push(s.last()));
    }
}

proof fn lemma_file_name_has_no_slash(s: Seq<char>)
    ensures
        forall|j: int| 0 <= j < file_name(s).len() ==> file_name(s)[j] != '/',
    decreases s.len(),
{
    if s.len() > 0 && s.last() != '/' {
        lemma_file_name_has_no_slash(s.drop_last());
        let p = file_name(s.drop_last());
        assert(file_name(s) == p.push(s.last()));
        assert forall|j: int| 0 <= j < file_name(s).len() implies file_name(s)[j] != '/' by {
            if j < p.len() {
                assert(file_name(s)[j] == p[j]);
            }
        }
    }
}

proof fn lemma_file_name_of_plain(s: Seq<char>)
    requires
        forall|j: int| 0 <= j < s.len() ==> s[j] != '/',
    ensures
        file_name(s) == s,
    decreases s.len(),
{
    if s.len() > 0 {
        lemma_file_name_of_plain(s.drop_last());
        assert(s.drop_last().push(s.last()) =~= s);
    }
}

/// Only the file name decides the anchor: a path and the text after its last
/// '/' get the same answer ("models/city/taxi.glb" and "taxi.glb" alike).
pub proof fn lemma_anchor_by_file_name(s: Seq<char>)
    ensures
        file_name(file_name(s)) == file_name(s),
        anchor_half_height(file_name(file_name(s))) == anchor_half_height(file_name(s)),
{
    lemma_file_name_has_no_slash(s);
    lemma_file_name_of_plain(file_name(s));
}

/// The centre-anchored models and their half-heights in thousandths of the
/// Y scale: large rock 0.429, yellow flower 0.300, oak, pine, default and
/// cherry-blossom trees 0.500, fat tree 0.447, taxi 0.241, construction cone
/// 0.500.
pub proof fn lemma_anchor_table()
    ensures
        anchor_half_height("large_rock.glb"@) == Some(429u32),
        anchor_half_height("yellow_flower.glb"@) == Some(300u32),
        anchor_half_height("tree_oak.glb"@) == Some(500u32),
        anchor_half_height("tree_fat.glb"@) == Some(447u32),
        anchor_half_height("tree_pine.glb"@) == Some(500u32),
        anchor_half_height("tree_default.glb"@) == Some(500u32),
        anchor_half_height("tree_cherryblossom.glb"@) == Some(500u32),
        anchor_half_height("taxi.glb"@) == Some(241u32),
        anchor_half_height("construction-cone.glb"@) == Some(500u32),
{
    reveal_strlit("large_rock.glb");
    reveal_strlit("yellow_flower.glb");
    reveal_strlit("tree_oak.glb");
    reveal_strlit("tree_fat.glb");
    reveal_strlit("tree_pine.glb");
    reveal_strlit("tree_default.glb");
    reveal_strlit("tree_cherryblossom.glb");
    reveal_strlit("taxi.glb");
    reveal_strlit("construction-cone.glb");
    assert("yellow_flower.glb"@.len() != "large_rock.glb"@.len());
    assert("tree_oak.glb"@.len() != "large_rock.glb"@.len());
    assert("tree_oak.glb"@.len() != "yellow_flower.glb"@.len());
    assert("tree_fat.glb"@.len() != "large_rock.glb"@.len());
    assert("tree_fat.glb"@.len() != "yellow_flower.glb"@.len());
    assert("tree_fat.glb"@[5] != "tree_oak.glb"@[5]);
    assert("tree_pine.glb"@.len() != "large_rock.glb"@.len());
    assert("tree_pine.glb"@.len() != "yellow_flower.glb"@.len());
    assert("tree_pine.glb"@.len() != "tree_oak.glb"@.len());
    assert("tree_pine.glb"@.len() != "tree_fat.glb"@.len());
    assert("tree_default.glb"@.len() != "large_rock.glb"@.len());
    assert("tree_default.glb"@.len() != "yellow_flower.glb"@.len());
    assert("tree_default.glb"@.len() != "tree_oak.glb"@.len());
    assert("tree_default.glb"@.len() != "tree_fat.glb"@.len());
    assert("tree_default.glb"@.len() != "tree_pine.glb"@.len());
    assert("tree_cherryblossom.glb"@.len() != "large_rock.glb"@.len());
    assert("tree_cherryblossom.glb"@.len() != "yellow_flower.glb"@.len());
    assert("tree_cherryblossom.glb"@.len() != "tree_oak.glb"@.len());
    assert("tree_cherryblossom.glb"@.len() != "tree_fat.glb"@.len());
    assert("tree_cherryblossom.glb"@.len() != "tree_pine.glb"@.len());
    assert("tree_cherryblossom.glb"@.len() != "tree_default.glb"@.len());
    assert("taxi.glb"@.len() != "large_rock.glb"@.len());
    assert("taxi.glb"@.len() != "yellow_flower.glb"@.len());
    assert("taxi.glb"@.len() != "tree_oak.glb"@.len());
    assert("taxi.glb"@.len() != "tree_fat.glb"@.len());
    assert("taxi.glb"@.len() != "tree_pine.glb"@.len());
    assert("taxi.glb"@.len() != "tree_default.glb"@.len());
    assert("taxi.glb"@.len() != "tree_cherryblossom.glb"@.len());
    assert("construction-cone.glb"@.len() != "large_rock.glb"@.len());
    assert("construction-cone.glb"@.len() != "yellow_flower.glb"@.len());
    assert("construction-cone.glb"@.len() != "tree_oak.glb"@.len());
    assert("construction-cone.glb"@.len() != "tree_fat.glb"@.len());
    assert("construction-cone.glb"@.len() != "tree_pine.glb"@.len());
    assert("construction-cone.glb"@.len() != "tree_default.glb"@.len());
    assert("construction-cone.glb"@.len() != "tree_cherryblossom.glb"@.len());
    assert("construction-cone.glb"@.len() != "taxi.glb"@.len());
}

/// Distance from a model's visual bottom to its 3D origin, in thousandths of
/// its Y scale, for models whose origin sits at (or near) the vertical centre;
/// `None` for bottom-anchored models.  Leading path components are ignored,
/// so "models/city/taxi.glb" and "taxi.glb" match alike.
pub fn center_anchor_half_height(model_id: &str) -> (r: Option<u32>)
    ensures
        r == anchor_half_height(file_name(model_id@)),
{
    let n = model_id.unicode_len();
    let mut start: usize = n;
    while start > 0 && model_id.get_char(start - 1) != '/'
        invariant
            n == model_id@.len(),
            start <= n,
            forall|j: int| start <= j < n ==> model_id@[j] != '/',
        decreases start,
    {
        start = start - 1;
    }
    proof {
        lemma_file_name(model_id@, start as int);
    }
    let filename = model_id.substring_char(start, n);
    if str_eq(filename, "large_rock.glb") {
        Some(429)
    } else if str_eq(filename, "yellow_flower.glb") {
        Some(300)
    } else if str_eq(filename, "tree_oak.glb") {
        Some(500)
    } else if str_eq(filename, "tree_fat.glb") {
        Some(447)
    } else if str_eq(filename, "tree_pine.glb") {
        Some(500)
    } else if str_eq(filename, "tree_default.glb") {
        Some(500)
    } else if str_eq(filename, "tree_cherryblossom.glb") {
        Some(500)
    } else if str_eq(filename, "taxi.glb") {
        Some(241)
    } else if str_eq(filename, "construction-cone.glb") {
        Some(500)
    } else {
        None
    }
}

// ---------------------------------------------------------------------------
// Field getters
// ---------------------------------------------------------------------------

/// String value of a named field; `None` when absent, null, or not a string.
pub fn field_str(fields: &Vec<LdtkFieldInstance>, name: &str) -> (r: Option<String>)
    ensures
        opt_string_view(r) == value_str(field_value(fields@, name@)),
{
    match find_field_index(fields, name) {
        None => None,
        Some(i) => match &fields[i].value {
            Some(FieldValue::Str(s)) => Some(s.clone()),
            _ => None,
        },
    }
}

/// Numeric value of a named field; `None` when absent, null, or not a number.
pub fn field_number(fields: &Vec<LdtkFieldInstance>, name: &str) -> (r: Option<Number>)
    ensures
        r == value_number(field_value(fields@, name@)),
{
    match find_field_index(fields, name) {
        None => None,
        Some(i) => match &fields[i].value {
            Some(FieldValue::Number(n)) => Some(*n),
            _ => None,
        },
    }
}

/// Integer value of a named field; `None` when absent, null, or not an
/// integer that fits `i64`.
pub fn field_i64(fields: &Vec<LdtkFieldInstance>, name: &str) -> (r: Option<i64>)
    ensures
        r == value_i64(field_value(fields@, name@)),
{
    match find_field_index(fields, name) {
        None => None,
        Some(i) => match &fields[i].value {
            Some(FieldValue::Number(Number::PosInt(n))) => if *n <= 0x7fff_ffff_ffff_ffffu64 {
                Some(*n as i64)
            } else {
                None
            },
            Some(FieldValue::Number(Number::NegInt(n))) => Some(*n),
            _ => None,
        },
    }
}

/// Boolean value of a named field; `None` when absent, null, or not a boolean.
pub fn field_bool(fields: &Vec<LdtkFieldInstance>, name: &str) -> (r: Option<bool>)
    ensures
        r == value_bool(field_value(fields@, name@)),
{
    match find_field_index(fields, name) {
        None => None,
        Some(i) => match &fields[i].value {
            Some(FieldValue::Bool(b)) => Some(*b),
            _ => None,
        },
    }
}

/// The `i32` an integer field holds, wrapped as `as i32` wraps.
pub open spec fn value_i32(v: Option<FieldValue>) -> Option<i32> {
    match value_i64(v) {
        Some(n) => Some(n as i32),
        None => None,
    }
}

/// The colour a level's hex-string field denotes.
pub open spec fn value_color(v: Option<FieldValue>) -> Option<Rgb8> {
    match value_str(v) {
        Some(s) => Some(hex_color(vstd::utf8::encode_utf8(s))),
        None => None,
    }
}

/// A hex-string field, when present, can be sliced into its channels.
pub open spec fn color_field_sliceable(v: Option<FieldValue>) -> bool {
    match value_str(v) {
        Some(s) => hex_sliceable(vstd::utf8::encode_utf8(s)),
        None => true,
    }
}

/// String value of a named custom field on an entity.
pub fn get_field_str(entity: &LdtkEntityInstance, name: &str) -> (r: Option<String>)
    ensures
        opt_string_view(r) == value_str(field_value(entity.field_instances@, name@)),
{
    field_str(&entity.field_instances, name)
}

/// Numeric value of a named custom field on an entity (the game reads it as `f32`).
pub fn get_field_f32(entity: &LdtkEntityInstance, name: &str) -> (r: Option<Number>)
    ensures
        r == value_number(field_value(entity.field_instances@, name@)),
{
    field_number(&entity.field_instances, name)
}

/// `i32` value of a named integer field on an entity (`as i32` of its `i64`).
pub fn get_field_i32(entity: &LdtkEntityInstance, name: &str) -> (r: Option<i32>)
    ensures
        r == value_i32(field_value(entity.field_instances@, name@)),
{
    match field_i64(&entity.field_instances, name) {
        Some(n) => Some(n as i32),
        None => None,
    }
}

/// Boolean value of a named custom field on an entity.
pub fn get_field_bool(entity: &LdtkEntityInstance, name: &str) -> (r: Option<bool>)
    ensures
        r == value_bool(field_value(entity.field_instances@, name@)),
{
    field_bool(&entity.field_instances, name)
}

/// Numeric value of a named custom field on a level (the game reads it as `f32`).
pub fn get_level_field_f32(level: &LdtkLevel, name: &str) -> (r: Option<Number>)
    ensures
        r == value_number(field_value(level.field_instances@, name@)),
{
    field_number(&level.field_instances, name)
}

/// Boolean value of a named custom field on a level; `None` when the field is
/// absent, null, or not a JSON boolean.
pub fn get_level_field_bool(level: &LdtkLevel, name: &str) -> (r: Option<bool>)
    ensures
        r == value_bool(field_value(level.field_instances@, name@)),
{
    field_bool(&level.field_instances, name)
}

/// Colour of a named hex-string field on a level (e.g. `"#1F1A12"`); `None`
/// when the field is absent, null, or not a string.
pub fn get_level_field_color(level: &LdtkLevel, name: &str) -> (r: Option<Rgb8>)
    requires
        color_field_sliceable(field_value(level.field_instances@, name@)),
    ensures
        r == value_color(field_value(level.field_instances@, name@)),
{
    match field_str(&level.field_instances, name) {
        Some(s) => {
            let t = s.as_str();
            assert(t.spec_bytes() == vstd::utf8::encode_utf8(t@));
            Some(parse_hex_color(t))
        },
        None => None,
    }
}

/// Whether the colour parser can slice `hex`: after the leading '#'s, the
/// byte offsets 2, 4 and 6 are character boundaries (when six bytes remain).
pub fn hex_is_sliceable(hex: &str) -> (b: bool)
    ensures
        b == hex_sliceable(hex.spec_bytes()),
{
    let bytes = hex.as_bytes();
    let n = bytes.len();
    let mut start: usize = 0;
    assert(bytes@.skip(0) =~= bytes@);
    while start < n && bytes[start] == 35
        invariant
            n == bytes@.len(),
            start <= n,
            trim_hashes(bytes@) == trim_hashes(bytes@.skip(start as int)),
        decreases n - start,
    {
        assert(bytes@.skip(start as int).drop_first() =~= bytes@.skip(start + 1));
        start = start + 1;
    }
    assert(trim_hashes(bytes@.skip(start as int)) == bytes@.skip(start as int));
    if n - start < 6 {
        return true;
    }
    let c2 = bytes[start + 2];
    let c4 = bytes[start + 4];
    let cont2 = 0x80 <= c2 && c2 <= 0xbf;
    let cont4 = 0x80 <= c4 && c4 <= 0xbf;
    let cont6 = if n - start == 6 {
        false
    } else {
        let c6 = bytes[start + 6];
        0x80 <= c6 && c6 <= 0xbf
    };
    !cont2 && !cont4 && !cont6
}

/// Whether the colour field `name` can be parsed without a slicing failure
/// (true when it is absent or not a string).
pub fn color_field_ok(fields: &Vec<LdtkFieldInstance>, name: &str) -> (b: bool)
    ensures
        b == color_field_sliceable(field_value(fields@, name@)),
{
    match field_str(fields, name) {
        Some(s) => {
            let t = s.as_str();
            assert(t.spec_bytes() == vstd::utf8::encode_utf8(t@));
            hex_is_sliceable(t)
        },
        None => true,
    }
}

} // verus!
