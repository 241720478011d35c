use vstd::prelude::*;
use vstd::string::*;

use crate::ldtk::converter::{
    convert_level, first_of_type, layers_view, level_is_convertible, level_convertible, level_view, light_colors_sliceable,
    tiles_convertible, ConvertedLayer, ConvertedLevel, LayerView, LevelView,
};
use crate::ldtk::fields::color_field_sliceable;
use crate::ldtk::schema::{field_value, LdtkLayerInstance};
use crate::ldtk::validator::{conforms, csv_mismatch, csv_products_fit, layer_conforms, level_conforms};
use crate::ldtk::schema::{LdtkLevel, LdtkRoot};
use crate::ldtk::text::str_ends_with;

verus! {

// ---------------------------------------------------------------------------
// Order of level names
// ---------------------------------------------------------------------------

/// Lexicographic order of texts by code point.  UTF-8 keeps code-point order,
/// so this is the order of `String`'s `Ord`, by which a `BTreeMap` is walked.
pub open spec fn seq_lt(a: Seq<char>, b: Seq<char>) -> bool
    decreases a.len(),
{
    if a.len() == 0 {
        b.len() > 0
    } else if b.len() == 0 {
        false
    } else if a[0] == b[0] {
        seq_lt(a.drop_first(), b.drop_first())
    } else {
        (a[0] as int) < (b[0] as int)
    }
}

pub proof fn lemma_seq_lt_irreflexive(a: Seq<char>)
    ensures
        !seq_lt(a, a),
    decreases a.len(),
{
    if a.len() > 0 {
        lemma_seq_lt_irreflexive(a.drop_first());
    }
}

pub proof fn lemma_seq_lt_transitive(a: Seq<char>, b: Seq<char>, c: Seq<char>)
    requires
        seq_lt(a, b),
        seq_lt(b, c),
    ensures
        seq_lt(a, c),
    decreases a.len(),
{
    if a.len() > 0 && b.len() > 0 && c.len() > 0 {
        if a[0] == b[0] && b[0] == c[0] {
            lemma_seq_lt_transitive(a.drop_first(), b.drop_first(), c.drop_first());
        }
    }
}

pub proof fn lemma_seq_lt_total(a: Seq<char>, b: Seq<char>)
    requires
        a != b,
    ensures
        seq_lt(a, b) || seq_lt(b, a),
    decreases a.len(),
{
    if a.len() == 0 {
        assert(b.len() > 0) by {
            if b.len() == 0 {
                assert(a =~= b);
            }
        }
    } else if b.len() == 0 {
    } else if a[0] == b[0] {
        if a.drop_first() == b.drop_first() {
            assert(a =~= seq![a[0]] + a.drop_first());
            assert(b =~= seq![b[0]] + b.drop_first());
        }
        lemma_seq_lt_total(a.drop_first(), b.drop_first());
    } else {
        assert((a[0] as int) != (b[0] as int));
    }
}

pub proof fn lemma_seq_lt_asymmetric(a: Seq<char>, b: Seq<char>)
    requires
        seq_lt(a, b),
    ensures
        !seq_lt(b, a),
{
    if seq_lt(b, a) {
        lemma_seq_lt_transitive(a, b, a);
        lemma_seq_lt_irreflexive(a);
    }
}

/// `a` comes before `b` exactly when `a` is a proper prefix of `b`, or at
/// the first position where they differ `a` has the smaller code point.
pub proof fn lemma_seq_lt_meaning(a: Seq<char>, b: Seq<char>)
    ensures
        seq_lt(a, b) <==> (a.len() < b.len() && b.subrange(0, a.len() as int) == a) || exists|i: int|
            0 <= i < a.len() && i < b.len() && a.subrange(0, i) == b.subrange(0, i) && (a[i] as int)
                < (#[trigger] b[i] as int),
    decreases a.len(),
{
    if a.len() == 0 {
        assert(b.subrange(0, 0) =~= a);
    } else if b.len() == 0 {
    } else {
        let a1 = a.drop_first();
        let b1 = b.drop_first();
        lemma_seq_lt_meaning(a1, b1);
        let pre = (a.len() < b.len() && b.subrange(0, a.len() as int) == a);
        let pre1 = (a1.len() < b1.len() && b1.subrange(0, a1.len() as int) == a1);
        let ex = exists|i: int|
            0 <= i < a.len() && i < b.len() && a.subrange(0, i) == b.subrange(0, i) && (a[i] as int)
                < (#[trigger] b[i] as int);
        let ex1 = exists|i: int|
            0 <= i < a1.len() && i < b1.len() && a1.subrange(0, i) == b1.subrange(0, i) && (
            a1[i] as int) < (#[trigger] b1[i] as int);
        if a[0] == b[0] {
            if pre1 {
                assert(b.subrange(0, a.len() as int) =~= a) by {
                    assert forall|q: int| 0 <= q < a.len() implies #[trigger] b.subrange(
                        0,
                        a.len() as int,
                    )[q] == a[q] by {
                        if q > 0 {
                            assert(b1.subrange(0, a1.len() as int)[q - 1] == a1[q - 1]);
                        }
                    }
                }
            }
            if pre {
                assert(b1.subrange(0, a1.len() as int) =~= a1) by {
                    assert forall|q: int| 0 <= q < a1.len() implies #[trigger] b1.subrange(
                        0,
                        a1.len() as int,
                    )[q] == a1[q] by {
                        assert(b.subrange(0, a.len() as int)[q + 1] == a[q + 1]);
                    }
                }
            }
            if ex1 {
                let i = choose|i: int|
                    0 <= i < a1.len() && i < b1.len() && a1.subrange(0, i) == b1.subrange(0, i) && (
                    a1[i] as int) < (#[trigger] b1[i] as int);
                assert(a.subrange(0, i + 1) =~= b.subrange(0, i + 1)) by {
                    assert forall|q: int| 0 <= q < i + 1 implies #[trigger] a.subrange(0, i + 1)[q]
                        == b.subrange(0, i + 1)[q] by {
                        if q > 0 {
                            assert(a1.subrange(0, i)[q - 1] == b1.subrange(0, i)[q - 1]);
                        }
                    }
                }
                assert((a[i + 1] as int) < (b[i + 1] as int));
            }
            if ex {
                let i = choose|i: int|
                    0 <= i < a.len() && i < b.len() && a.subrange(0, i) == b.subrange(0, i) && (
                    a[i] as int) < (#[trigger] b[i] as int);
                assert(i > 0);
                assert(a1.subrange(0, i - 1) =~= b1.subrange(0, i - 1)) by {
                    assert forall|q: int| 0 <= q < i - 1 implies #[trigger] a1.subrange(0, i - 1)[q]
                        == b1.subrange(0, i - 1)[q] by {
                        assert(a.subrange(0, i)[q + 1] == b.subrange(0, i)[q + 1]);
                    }
                }
                assert((a1[i - 1] as int) < (b1[i - 1] as int));
            }
        } else {
            if pre {
                assert(b.subrange(0, a.len() as int)[0] == a[0]);
            }
            assert(a.subrange(0, 0) =~= b.subrange(0, 0));
            if ex {
                let i = choose|i: int|
                    0 <= i < a.len() && i < b.len() && a.subrange(0, i) == b.subrange(0, i) && (
                    a[i] as int) < (#[trigger] b[i] as int);
                if i > 0 {
                    assert(a.subrange(0, i)[0] == b.subrange(0, i)[0]);
                }
            }
        }
    }
}

/// Code-point lexicographic comparison of two strings.
pub fn str_lt(a: &str, b: &str) -> (r: bool)
    ensures
        r == seq_lt(a@, b@),
{
    let n = a.unicode_len();
    let m = b.unicode_len();
    let mut i: usize = 0;
    assert(a@.skip(0) =~= a@);
    assert(b@.skip(0) =~= b@);
    while i < n && i < m
        invariant
            n == a@.len(),
            m == b@.len(),
            i <= n,
            i <= m,
            seq_lt(a@, b@) == seq_lt(a@.skip(i as int), b@.skip(i as int)),
        decreases n - i,
    {
        let ca = a.get_char(i);
        let cb = b.get_char(i);
        assert(a@.skip(i as int)[0] == ca);
        assert(b@.skip(i as int)[0] == cb);
        if ca != cb {
            return (ca as u32) < (cb as u32);
        }
        assert(a@.skip(i as int).drop_first() =~= a@.skip(i + 1));
        assert(b@.skip(i as int).drop_first() =~= b@.skip(i + 1));
        i = i + 1;
    }
    i == n && i < m
}

// ---------------------------------------------------------------------------
// Sublevel names
// ---------------------------------------------------------------------------

pub open spec fn ends_with(s: Seq<char>, suffix: Seq<char>) -> bool {
    suffix.len() <= s.len() && s.subrange(s.len() - suffix.len(), s.len() as int) == suffix
}

/// The sublevel suffix an identifier carries and the layer it names:
/// `_Cave`, `_Sewer`, `_Subway` are layer 1 (underground), `_Rooftop` layer 2.
pub open spec fn sublevel_suffix(id: Seq<char>) -> Option<(Seq<char>, int)> {
    if ends_with(id, "_Cave"@) {
        Some(("_Cave"@, 1))
    } else if ends_with(id, "_Sewer"@) {
        Some(("_Sewer"@, 1))
    } else if ends_with(id, "_Subway"@) {
        Some(("_Subway"@, 1))
    } else if ends_with(id, "_Rooftop"@) {
        Some(("_Rooftop"@, 2))
    } else {
        None
    }
}

/// The game level an LDtk level belongs to.
pub open spec fn base_name(id: Seq<char>) -> Seq<char> {
    match sublevel_suffix(id) {
        Some((suffix, _)) => id.subrange(0, id.len() - suffix.len()),
        None => id,
    }
}

/// The layer position an LDtk level takes within its game level (0 = surface).
pub open spec fn layer_slot(id: Seq<char>) -> int {
    match sublevel_suffix(id) {
        Some((_, slot)) => slot,
        None => 0,
    }
}

/// Layers of the levels belonging to `name` at position `slot`, in input order.
pub open spec fn group_layers(levels: Seq<LevelView>, name: Seq<char>, slot: int) -> Seq<
    LayerView,
>
    decreases levels.len(),
{
    if levels.len() == 0 {
        seq![]
    } else {
        let l = levels.last();
        group_layers(levels.drop_last(), name, slot) + if base_name(l.identifier) == name
            && layer_slot(l.identifier) == slot {
            l.layers
        } else {
            seq![]
        }
    }
}

/// All layers of the game level `name`: position 0, then 1, then 2, each in
/// input order.
pub open spec fn merged_layers(levels: Seq<LevelView>, name: Seq<char>) -> Seq<LayerView> {
    group_layers(levels, name, 0) + group_layers(levels, name, 1) + group_layers(levels, name, 2)
}

pub open spec fn base_names(levels: Seq<LevelView>) -> Set<Seq<char>> {
    levels.map_values(|l: LevelView| base_name(l.identifier)).to_set()
}

/// `out` is the merge of `levels`: one level per base name, in ascending
/// name order, each holding its merged layers.
pub open spec fn merged_from(levels: Seq<LevelView>, out: Seq<LevelView>) -> bool {
    &&& forall|a: int, b: int|
        0 <= a < b < out.len() ==> seq_lt(#[trigger] out[a].identifier, #[trigger] out[b].identifier)
    &&& out.map_values(|l: LevelView| l.identifier).to_set() == base_names(levels)
    &&& forall|k: int|
        0 <= k < out.len() ==> #[trigger] out[k].layers == merged_layers(levels, out[k].identifier)
}

pub open spec fn levels_view(v: Seq<ConvertedLevel>) -> Seq<LevelView> {
    v.map_values(|l: ConvertedLevel| l@)
}

proof fn lemma_group_layers_absent(levels: Seq<LevelView>, name: Seq<char>, slot: int)
    requires
        forall|j: int| 0 <= j < levels.len() ==> base_name(#[trigger] levels[j].identifier) != name,
    ensures
        group_layers(levels, name, slot) == Seq::<LayerView>::empty(),
    decreases levels.len(),
{
    if levels.len() > 0 {
        lemma_group_layers_absent(levels.drop_last(), name, slot);
        assert(group_layers(levels, name, slot) =~= Seq::<LayerView>::empty());
    }
}

// ---------------------------------------------------------------------------
// Implementation
// ---------------------------------------------------------------------------

struct Group {
    name: String,
    surface: Vec<ConvertedLayer>,
    under: Vec<ConvertedLayer>,
    roof: Vec<ConvertedLayer>,
}

spec fn names_sorted(groups: Seq<Group>) -> bool {
    forall|a: int, b: int|
        0 <= a < b < groups.len() ==> seq_lt(#[trigger] groups[a].name@, #[trigger] groups[b].name@)
}

/// Some level of `done` belongs to the game level `name`.
spec fn named_in(name: Seq<char>, done: Seq<LevelView>) -> bool {
    exists|j: int| 0 <= j < done.len() && #[trigger] base_name(done[j].identifier) == name
}

/// Some group is named `name`.
spec fn has_group(groups: Seq<Group>, name: Seq<char>) -> bool {
    exists|k: int| 0 <= k < groups.len() && #[trigger] groups[k].name@ == name
}

#[verifier::opaque]
spec fn names_from(groups: Seq<Group>, done: Seq<LevelView>) -> bool {
    forall|k: int| 0 <= k < groups.len() ==> named_in(#[trigger] groups[k].name@, done)
}

#[verifier::opaque]
spec fn names_cover(groups: Seq<Group>, done: Seq<LevelView>) -> bool {
    forall|j: int|
        0 <= j < done.len() ==> has_group(groups, base_name(#[trigger] done[j].identifier))
}

spec fn group_holds(g: Group, done: Seq<LevelView>) -> bool {
    &&& layers_view(g.surface@) == group_layers(done, g.name@, 0)
    &&& layers_view(g.under@) == group_layers(done, g.name@, 1)
    &&& layers_view(g.roof@) == group_layers(done, g.name@, 2)
}

#[verifier::opaque]
spec fn slots_hold(groups: Seq<Group>, done: Seq<LevelView>) -> bool {
    forall|k: int| 0 <= k < groups.len() ==> group_holds(#[trigger] groups[k], done)
}

/// `groups` holds, in ascending name order, one group per base name of
/// `done`, each with that name's layers per position.
spec fn groups_hold(groups: Seq<Group>, done: Seq<LevelView>) -> bool {
    &&& names_sorted(groups)
    &&& names_from(groups, done)
    &&& names_cover(groups, done)
    &&& slots_hold(groups, done)
}

fn sublevel_of(id: &str) -> (r: (String, usize))
    ensures
        r.0@ == base_name(id@),
        r.1 as int == layer_slot(id@),
{
    let n = id.unicode_len();
    if str_ends_with(id, "_Cave") {
        let m = "_Cave".unicode_len();
        (id.substring_char(0, n - m).to_owned(), 1)
    } else if str_ends_with(id, "_Sewer") {
        let m = "_Sewer".unicode_len();
        (id.substring_char(0, n - m).to_owned(), 1)
    } else if str_ends_with(id, "_Subway") {
        let m = "_Subway".unicode_len();
        (id.substring_char(0, n - m).to_owned(), 1)
    } else if str_ends_with(id, "_Rooftop") {
        let m = "_Rooftop".unicode_len();
        (id.substring_char(0, n - m).to_owned(), 2)
    } else {
        (id.to_owned(), 0)
    }
}

fn append_layers(dst: &mut Vec<ConvertedLayer>, src: &mut Vec<ConvertedLayer>)
    ensures
        layers_view(final(dst)@) == layers_view(old(dst)@) + layers_view(old(src)@),
{
    dst.append(src);
    assert(layers_view(dst@) =~= layers_view(old(dst)@) + layers_view(old(src)@));
}


proof fn lemma_group_push(done: Seq<LevelView>, lv: LevelView, name: Seq<char>, slot: int)
    ensures
        group_layers(done.push(lv), name, slot) == group_layers(done, name, slot) + if base_name(
            lv.identifier,
        ) == name && layer_slot(lv.identifier) == slot {
            lv.layers
        } else {
            seq![]
        },
{
    assert(done.push(lv).drop_last() =~= done);
    assert(done.push(lv).last() == lv);
}

/// The slot contents a group gets from one more level.
spec fn slot_extended(
    before: Seq<LayerView>,
    after: Seq<LayerView>,
    lv: LevelView,
    name: Seq<char>,
    slot: int,
) -> bool {
    after == before + if base_name(lv.identifier) == name && layer_slot(lv.identifier) == slot {
        lv.layers
    } else {
        seq![]
    }
}

proof fn lemma_distinct_names(groups: Seq<Group>, a: int, c: int)
    requires
        names_sorted(groups),
        0 <= a < groups.len(),
        0 <= c < groups.len(),
        a != c,
    ensures
        groups[a].name@ != groups[c].name@,
{
    if a < c {
        assert(seq_lt(groups[a].name@, groups[c].name@));
    } else {
        assert(seq_lt(groups[c].name@, groups[a].name@));
    }
    lemma_seq_lt_irreflexive(groups[a].name@);
}

proof fn lemma_group_unchanged(g: Group, done: Seq<LevelView>, lv: LevelView)
    requires
        group_holds(g, done),
        g.name@ != base_name(lv.identifier),
    ensures
        group_holds(g, done.push(lv)),
{
    lemma_group_push(done, lv, g.name@, 0);
    lemma_group_push(done, lv, g.name@, 1);
    lemma_group_push(done, lv, g.name@, 2);
    assert(layers_view(g.surface@) =~= group_layers(done.push(lv), g.name@, 0));
    assert(layers_view(g.under@) =~= group_layers(done.push(lv), g.name@, 1));
    assert(layers_view(g.roof@) =~= group_layers(done.push(lv), g.name@, 2));
}

proof fn lemma_group_extended(old_g: Group, g: Group, done: Seq<LevelView>, lv: LevelView)
    requires
        group_holds(old_g, done),
        g.name@ == old_g.name@,
        slot_extended(layers_view(old_g.surface@), layers_view(g.surface@), lv, g.name@, 0),
        slot_extended(layers_view(old_g.under@), layers_view(g.under@), lv, g.name@, 1),
        slot_extended(layers_view(old_g.roof@), layers_view(g.roof@), lv, g.name@, 2),
    ensures
        group_holds(g, done.push(lv)),
{
    lemma_group_push(done, lv, g.name@, 0);
    lemma_group_push(done, lv, g.name@, 1);
    lemma_group_push(done, lv, g.name@, 2);
}

proof fn lemma_update_from(groups: Seq<Group>, k: int, g: Group, done: Seq<LevelView>, lv: LevelView)
    requires
        names_from(groups, done),
        0 <= k < groups.len(),
        g.name@ == groups[k].name@,
    ensures
        names_from(groups.update(k, g), done.push(lv)),
{
    reveal(names_from);
    let ng = groups.update(k, g);
    let nd = done.push(lv);
    assert forall|kk: int| 0 <= kk < ng.len() implies named_in(#[trigger] ng[kk].name@, nd) by {
        assert(ng[kk].name@ == groups[kk].name@);
        let j = choose|j: int|
            0 <= j < done.len() && base_name(done[j].identifier) == groups[kk].name@;
        assert(nd[j] == done[j]);
    }
}

proof fn lemma_update_cover(groups: Seq<Group>, k: int, g: Group, done: Seq<LevelView>, lv: LevelView)
    requires
        names_cover(groups, done),
        0 <= k < groups.len(),
        g.name@ == groups[k].name@,
        groups[k].name@ == base_name(lv.identifier),
    ensures
        names_cover(groups.update(k, g), done.push(lv)),
{
    reveal(names_cover);
    let ng = groups.update(k, g);
    let nd = done.push(lv);
    assert forall|j: int| 0 <= j < nd.len() implies has_group(ng, base_name(#[trigger] nd[j].identifier)) by {
        if j < done.len() {
            assert(nd[j] == done[j]);
            let kk = choose|kk: int|
                0 <= kk < groups.len() && groups[kk].name@ == base_name(done[j].identifier);
            assert(ng[kk].name@ == groups[kk].name@);
        } else {
            assert(nd[j] == lv);
            assert(ng[k].name@ == base_name(lv.identifier));
        }
    }
}

proof fn lemma_update_slots(groups: Seq<Group>, k: int, g: Group, done: Seq<LevelView>, lv: LevelView)
    requires
        slots_hold(groups, done),
        names_sorted(groups),
        0 <= k < groups.len(),
        groups[k].name@ == base_name(lv.identifier),
        g.name@ == groups[k].name@,
        slot_extended(layers_view(groups[k].surface@), layers_view(g.surface@), lv, g.name@, 0),
        slot_extended(layers_view(groups[k].under@), layers_view(g.under@), lv, g.name@, 1),
        slot_extended(layers_view(groups[k].roof@), layers_view(g.roof@), lv, g.name@, 2),
    ensures
        slots_hold(groups.update(k, g), done.push(lv)),
{
    reveal(slots_hold);
    let ng = groups.update(k, g);
    let nd = done.push(lv);
    assert forall|kk: int| 0 <= kk < ng.len() implies group_holds(#[trigger] ng[kk], nd) by {
        assert(group_holds(groups[kk], done));
        if kk != k {
            lemma_distinct_names(groups, kk, k);
            assert(ng[kk] == groups[kk]);
            lemma_group_unchanged(groups[kk], done, lv);
        } else {
            lemma_group_extended(groups[k], g, done, lv);
        }
    }
}

proof fn lemma_update_existing(
    groups: Seq<Group>,
    k: int,
    g: Group,
    done: Seq<LevelView>,
    lv: LevelView,
)
    requires
        groups_hold(groups, done),
        0 <= k < groups.len(),
        groups[k].name@ == base_name(lv.identifier),
        g.name@ == groups[k].name@,
        slot_extended(layers_view(groups[k].surface@), layers_view(g.surface@), lv, g.name@, 0),
        slot_extended(layers_view(groups[k].under@), layers_view(g.under@), lv, g.name@, 1),
        slot_extended(layers_view(groups[k].roof@), layers_view(g.roof@), lv, g.name@, 2),
    ensures
        groups_hold(groups.update(k, g), done.push(lv)),
{
    let ng = groups.update(k, g);
    assert forall|a: int, b: int| 0 <= a < b < ng.len() implies seq_lt(
        #[trigger] ng[a].name@,
        #[trigger] ng[b].name@,
    ) by {
        assert(seq_lt(groups[a].name@, groups[b].name@));
    }
    lemma_update_from(groups, k, g, done, lv);
    lemma_update_cover(groups, k, g, done, lv);
    lemma_update_slots(groups, k, g, done, lv);
}

proof fn lemma_insert_sorted(groups: Seq<Group>, k: int, g: Group)
    requires
        names_sorted(groups),
        0 <= k <= groups.len(),
        forall|a: int| 0 <= a < k ==> seq_lt(#[trigger] groups[a].name@, g.name@),
        k < groups.len() ==> !seq_lt(groups[k].name@, g.name@) && groups[k].name@ != g.name@,
    ensures
        names_sorted(groups.insert(k, g)),
        forall|a: int| 0 <= a < groups.len() ==> #[trigger] groups[a].name@ != g.name@,
{
    let ng = groups.insert(k, g);
    let b = g.name@;
    assert forall|a: int| k <= a < groups.len() implies seq_lt(b, #[trigger] groups[a].name@) by {
        lemma_seq_lt_total(groups[k].name@, b);
        if a > k {
            assert(seq_lt(groups[k].name@, groups[a].name@));
            lemma_seq_lt_transitive(b, groups[k].name@, groups[a].name@);
        }
    }
    assert forall|a: int, c: int| 0 <= a < c < ng.len() implies seq_lt(
        #[trigger] ng[a].name@,
        #[trigger] ng[c].name@,
    ) by {
        if c < k {
            assert(seq_lt(groups[a].name@, groups[c].name@));
        } else if c == k {
        } else if a < k {
            assert(ng[c] == groups[c - 1]);
            assert(seq_lt(b, groups[c - 1].name@));
            lemma_seq_lt_transitive(groups[a].name@, b, groups[c - 1].name@);
        } else if a == k {
            assert(ng[c] == groups[c - 1]);
        } else {
            assert(ng[a] == groups[a - 1]);
            assert(ng[c] == groups[c - 1]);
            assert(seq_lt(groups[a - 1].name@, groups[c - 1].name@));
        }
    }
    assert forall|a: int| 0 <= a < groups.len() implies #[trigger] groups[a].name@ != b by {
        lemma_seq_lt_irreflexive(b);
    }
}

proof fn lemma_insert_from(groups: Seq<Group>, k: int, g: Group, done: Seq<LevelView>, lv: LevelView)
    requires
        names_from(groups, done),
        0 <= k <= groups.len(),
        g.name@ == base_name(lv.identifier),
    ensures
        names_from(groups.insert(k, g), done.push(lv)),
{
    reveal(names_from);
    let ng = groups.insert(k, g);
    let nd = done.push(lv);
    assert forall|kk: int| 0 <= kk < ng.len() implies named_in(#[trigger] ng[kk].name@, nd) by {
        if kk == k {
            assert(nd[done.len() as int] == lv);
        } else {
            let o = if kk < k {
                kk
            } else {
                kk - 1
            };
            assert(ng[kk] == groups[o]);
            let j = choose|j: int|
                0 <= j < done.len() && base_name(done[j].identifier) == groups[o].name@;
            assert(nd[j] == done[j]);
        }
    }
}

proof fn lemma_insert_cover(groups: Seq<Group>, k: int, g: Group, done: Seq<LevelView>, lv: LevelView)
    requires
        names_cover(groups, done),
        0 <= k <= groups.len(),
        g.name@ == base_name(lv.identifier),
    ensures
        names_cover(groups.insert(k, g), done.push(lv)),
{
    reveal(names_cover);
    let ng = groups.insert(k, g);
    let nd = done.push(lv);
    assert forall|j: int| 0 <= j < nd.len() implies has_group(ng, base_name(#[trigger] nd[j].identifier)) by {
        if j < done.len() {
            assert(nd[j] == done[j]);
            let o = choose|o: int|
                0 <= o < groups.len() && groups[o].name@ == base_name(done[j].identifier);
            if o < k {
                assert(ng[o] == groups[o]);
            } else {
                assert(ng[o + 1] == groups[o]);
            }
        } else {
            assert(nd[j] == lv);
            assert(ng[k] == g);
        }
    }
}

proof fn lemma_insert_slots(groups: Seq<Group>, k: int, g: Group, done: Seq<LevelView>, lv: LevelView)
    requires
        slots_hold(groups, done),
        names_cover(groups, done),
        0 <= k <= groups.len(),
        g.name@ == base_name(lv.identifier),
        forall|a: int| 0 <= a < groups.len() ==> #[trigger] groups[a].name@ != g.name@,
        slot_extended(seq![], layers_view(g.surface@), lv, g.name@, 0),
        slot_extended(seq![], layers_view(g.under@), lv, g.name@, 1),
        slot_extended(seq![], layers_view(g.roof@), lv, g.name@, 2),
    ensures
        slots_hold(groups.insert(k, g), done.push(lv)),
{
    reveal(slots_hold);
    reveal(names_cover);
    let ng = groups.insert(k, g);
    let nd = done.push(lv);
    let b = g.name@;
    // The new name belongs to no earlier level.
    assert forall|j: int| 0 <= j < done.len() implies base_name(
        #[trigger] done[j].identifier,
    ) != b by {
        if base_name(done[j].identifier) == b {
            let kk = choose|kk: int|
                0 <= kk < groups.len() && groups[kk].name@ == base_name(done[j].identifier);
            assert(groups[kk].name@ != b);
        }
    }
    assert forall|kk: int| 0 <= kk < ng.len() implies group_holds(#[trigger] ng[kk], nd) by {
        if kk == k {
            lemma_group_layers_absent(done, b, 0);
            lemma_group_layers_absent(done, b, 1);
            lemma_group_layers_absent(done, b, 2);
            lemma_group_push(done, lv, b, 0);
            lemma_group_push(done, lv, b, 1);
            lemma_group_push(done, lv, b, 2);
            assert(layers_view(g.surface@) =~= group_layers(nd, b, 0));
            assert(layers_view(g.under@) =~= group_layers(nd, b, 1));
            assert(layers_view(g.roof@) =~= group_layers(nd, b, 2));
        } else {
            let o = if kk < k {
                kk
            } else {
                kk - 1
            };
            assert(ng[kk] == groups[o]);
            assert(group_holds(groups[o], done));
            lemma_group_unchanged(groups[o], done, lv);
        }
    }
}

proof fn lemma_insert_new(
    groups: Seq<Group>,
    k: int,
    g: Group,
    done: Seq<LevelView>,
    lv: LevelView,
)
    requires
        groups_hold(groups, done),
        0 <= k <= groups.len(),
        g.name@ == base_name(lv.identifier),
        forall|a: int| 0 <= a < k ==> seq_lt(#[trigger] groups[a].name@, g.name@),
        k < groups.len() ==> !seq_lt(groups[k].name@, g.name@) && groups[k].name@ != g.name@,
        slot_extended(seq![], layers_view(g.surface@), lv, g.name@, 0),
        slot_extended(seq![], layers_view(g.under@), lv, g.name@, 1),
        slot_extended(seq![], layers_view(g.roof@), lv, g.name@, 2),
    ensures
        groups_hold(groups.insert(k, g), done.push(lv)),
{
    lemma_insert_sorted(groups, k, g);
    lemma_insert_from(groups, k, g, done, lv);
    lemma_insert_cover(groups, k, g, done, lv);
    lemma_insert_slots(groups, k, g, done, lv);
}

fn add_to_slot(g: &mut Group, slot: usize, layers: &mut Vec<ConvertedLayer>, Ghost(lv): Ghost<LevelView>)
    requires
        slot as int == layer_slot(lv.identifier),
        old(g).name@ == base_name(lv.identifier),
        layers_view(old(layers)@) == lv.layers,
    ensures
        final(g).name == old(g).name,
        slot_extended(layers_view(old(g).surface@), layers_view(final(g).surface@), lv, old(g).name@, 0),
        slot_extended(layers_view(old(g).under@), layers_view(final(g).under@), lv, old(g).name@, 1),
        slot_extended(layers_view(old(g).roof@), layers_view(final(g).roof@), lv, old(g).name@, 2),
{
    if slot == 0 {
        append_layers(&mut g.surface, layers);
        assert(layers_view(g.under@) =~= layers_view(old(g).under@) + seq![]);
        assert(layers_view(g.roof@) =~= layers_view(old(g).roof@) + seq![]);
    } else if slot == 1 {
        append_layers(&mut g.under, layers);
        assert(layers_view(g.surface@) =~= layers_view(old(g).surface@) + seq![]);
        assert(layers_view(g.roof@) =~= layers_view(old(g).roof@) + seq![]);
    } else {
        append_layers(&mut g.roof, layers);
        assert(layers_view(g.surface@) =~= layers_view(old(g).surface@) + seq![]);
        assert(layers_view(g.under@) =~= layers_view(old(g).under@) + seq![]);
    }
}


/// Merges related LDtk levels into multi-layer game levels.
///
/// LDtk stores each sublevel as a separate level (e.g. "Forest_Cave"), but
/// the game expects a single "Forest" level with layers [0, 1, 2]:
/// no suffix is layer 0 (surface), `_Cave` / `_Sewer` / `_Subway` layer 1
/// (underground), `_Rooftop` layer 2.  Levels whose names carry no known
/// suffix pass through as single-layer levels.  Output levels come in
/// ascending name order.
pub fn merge_sublevel_layers(levels: Vec<ConvertedLevel>) -> (out: Vec<ConvertedLevel>)
    ensures
        merged_from(levels_view(levels@), levels_view(out@)),
{
    let ghost input = levels_view(levels@);
    let total = levels.len();
    let mut rest = levels;
    let mut groups: Vec<Group> = Vec::new();
    let mut i: usize = 0;
    proof {
        reveal(names_from);
        reveal(names_cover);
        reveal(slots_hold);
        assert(input.skip(0) =~= input);
    }
    while i < total
        invariant
            total == input.len(),
            i <= total,
            rest@.len() == total - i,
            levels_view(rest@) == input.skip(i as int),
            groups_hold(groups@, input.take(i as int)),
        decreases total - i,
    {
        let ghost done = input.take(i as int);
        let ghost rest0 = rest@;
        let mut level = rest.remove(0);
        let ghost lv = level@;
        assert(lv == input[i as int]) by {
            assert(levels_view(rest0)[0] == input.skip(i as int)[0]);
        }
        assert forall|q: int| 0 <= q < rest@.len() implies levels_view(rest@)[q] == input.skip(
            i + 1,
        )[q] by {
            assert(rest@[q] == rest0[q + 1]);
            assert(levels_view(rest0)[q + 1] == input.skip(i as int)[q + 1]);
        }
        assert(levels_view(rest@) =~= input.skip(i + 1));
        assert(input.take(i + 1) =~= done.push(lv));
        let (name, slot) = sublevel_of(level.identifier.as_str());
        // Find where the name belongs among the groups so far.
        let mut k: usize = 0;
        while k < groups.len() && str_lt(groups[k].name.as_str(), name.as_str())
            invariant
                k <= groups@.len(),
                forall|a: int| 0 <= a < k ==> seq_lt(#[trigger] groups@[a].name@, name@),
            decreases groups@.len() - k,
        {
            k = k + 1;
        }
        if k < groups.len() && groups[k].name == name {
            let ghost before = groups@;
            let mut g = groups.remove(k);
            assert(g == before[k as int]);
            add_to_slot(&mut g, slot, &mut level.layers, Ghost(lv));
            groups.insert(k, g);
            proof {
                assert(groups@ =~= before.update(k as int, g));
                lemma_update_existing(before, k as int, g, done, lv);
            }
        } else {
            let mut g = Group {
                name,
                surface: Vec::new(),
                under: Vec::new(),
                roof: Vec::new(),
            };
            assert(layers_view(g.surface@) =~= seq![]);
            assert(layers_view(g.under@) =~= seq![]);
            assert(layers_view(g.roof@) =~= seq![]);
            let ghost g0 = g;
            add_to_slot(&mut g, slot, &mut level.layers, Ghost(lv));
            let ghost before = groups@;
            groups.insert(k, g);
            proof {
                lemma_insert_new(before, k as int, g, done, lv);
            }
        }
        i = i + 1;
    }
    assert(input.take(total as int) =~= input);
    // Emit one level per group, in name order.
    let ghost all = groups@;
    let mut out: Vec<ConvertedLevel> = Vec::new();
    let n = groups.len();
    let mut m: usize = 0;
    while m < n
        invariant
            n == all.len(),
            m <= n,
            groups@ == all.skip(m as int),
            groups_hold(all, input),
            out@.len() == m,
            forall|q: int|
                0 <= q < m ==> (#[trigger] levels_view(out@)[q]).identifier == all[q].name@
                    && levels_view(out@)[q].layers == merged_layers(input, all[q].name@),
        decreases n - m,
    {
        let ghost groups0 = groups@;
        let mut g = groups.remove(0);
        assert(g == all[m as int]) by {
            assert(groups0[0] == all.skip(m as int)[0]);
        }
        assert(groups@ =~= all.skip(m + 1));
        proof {
            reveal(slots_hold);
            assert(group_holds(all[m as int], input));
        }
        let ghost gs = layers_view(g.surface@);
        let ghost gu = layers_view(g.under@);
        let ghost gr = layers_view(g.roof@);
        let mut layers: Vec<ConvertedLayer> = Vec::new();
        assert(layers_view(layers@) =~= seq![]);
        append_layers(&mut layers, &mut g.surface);
        append_layers(&mut layers, &mut g.under);
        append_layers(&mut layers, &mut g.roof);
        assert(layers_view(layers@) =~= merged_layers(input, all[m as int].name@));
        let ghost old_out = levels_view(out@);
        out.push(ConvertedLevel { identifier: g.name, layers });
        assert forall|q: int| 0 <= q < m + 1 implies (#[trigger] levels_view(out@)[q]).identifier
            == all[q].name@ && levels_view(out@)[q].layers == merged_layers(
            input,
            all[q].name@,
        ) by {
            if q < m {
                assert(levels_view(out@)[q] == old_out[q]);
            }
        }
        m = m + 1;
    }
    proof {
        let ov = levels_view(out@);
        assert forall|a: int, b: int| 0 <= a < b < ov.len() implies seq_lt(
            #[trigger] ov[a].identifier,
            #[trigger] ov[b].identifier,
        ) by {
            assert(ov[a].identifier == all[a].name@);
            assert(ov[b].identifier == all[b].name@);
        }
        let ids = ov.map_values(|l: LevelView| l.identifier);
        let bases = input.map_values(|l: LevelView| base_name(l.identifier));
        reveal(names_from);
        reveal(names_cover);
        assert forall|x: Seq<char>| ids.to_set().contains(x) == base_names(input).contains(x) by {
            if ids.to_set().contains(x) {
                assert(ids.contains(x));
                let q = choose|q: int| 0 <= q < ids.len() && ids[q] == x;
                assert(ov[q].identifier == all[q].name@);
                assert(named_in(all[q].name@, input));
                let j = choose|j: int|
                    0 <= j < input.len() && #[trigger] base_name(input[j].identifier) == all[q].name@;
                assert(bases[j] == x);
                assert(bases.contains(x));
            }
            if base_names(input).contains(x) {
                assert(bases.contains(x));
                let j = choose|j: int| 0 <= j < bases.len() && bases[j] == x;
                assert(has_group(all, base_name(input[j].identifier)));
                let q = choose|q: int| 0 <= q < all.len() && #[trigger] all[q].name@ == base_name(
                    input[j].identifier,
                );
                assert(ov[q].identifier == all[q].name@);
                assert(ids[q] == x);
                assert(ids.contains(x));
            }
        }
        assert(ids.to_set() =~= base_names(input));
    }
    out
}


/// Every level of the project converts without failure.
pub open spec fn root_convertible(root: LdtkRoot) -> bool {
    forall|i: int| 0 <= i < root.levels@.len() ==> level_convertible(#[trigger] root.levels@[i])
}

/// The levels each LDtk level converts to, in input order.
pub open spec fn converted_levels(root: LdtkRoot) -> Seq<LevelView> {
    root.levels@.map_values(|l: LdtkLevel| level_view(l))
}

/// Converts every level in `root` into game-ready levels, merging sublevels
/// into the layers of their game level.
///
/// This does not validate the input; run [`crate::ldtk::validator::validate`]
/// first for validation guarantees.
pub fn convert(root: &LdtkRoot) -> (out: Vec<ConvertedLevel>)
    requires
        root_convertible(*root),
    ensures
        merged_from(converted_levels(*root), levels_view(out@)),
{
    let mut raw: Vec<ConvertedLevel> = Vec::new();
    let mut i: usize = 0;
    while i < root.levels.len()
        invariant
            i <= root.levels@.len(),
            root_convertible(*root),
            raw@.len() == i,
            levels_view(raw@) == converted_levels(*root).take(i as int),
        decreases root.levels@.len() - i,
    {
        let l = convert_level(&root.levels[i]);
        assert(l@ == converted_levels(*root)[i as int]);
        let ghost raw0 = raw@;
        raw.push(l);
        assert(levels_view(raw@)[i as int] == l@);
        assert forall|q: int| 0 <= q < i implies levels_view(raw@)[q] == levels_view(raw0)[q] by {
            assert(raw@[q] == raw0[q]);
        }
        assert(levels_view(raw@) =~= converted_levels(*root).take(i + 1));
        i = i + 1;
    }
    assert(converted_levels(*root).take(root.levels@.len() as int) =~= converted_levels(*root));
    merge_sublevel_layers(raw)
}

/// Every input level lands in exactly one merged level, the one named by its
/// base name, and no two merged levels share a name.
pub proof fn lemma_merge_places_each_level(levels: Seq<LevelView>, out: Seq<LevelView>, i: int)
    requires
        merged_from(levels, out),
        0 <= i < levels.len(),
    ensures
        exists|k: int| 0 <= k < out.len() && #[trigger] out[k].identifier == base_name(levels[i].identifier),
        forall|a: int, b: int|
            0 <= a < out.len() && 0 <= b < out.len() && #[trigger] out[a].identifier
                == #[trigger] out[b].identifier ==> a == b,
{
    let name = base_name(levels[i].identifier);
    let ids = out.map_values(|l: LevelView| l.identifier);
    assert(levels.map_values(|l: LevelView| base_name(l.identifier))[i] == name);
    assert(base_names(levels).contains(name));
    assert(ids.to_set().contains(name));
    let k = choose|k: int| 0 <= k < ids.len() && ids[k] == name;
    assert(out[k].identifier == name);
    assert forall|a: int, b: int|
        0 <= a < out.len() && 0 <= b < out.len() && #[trigger] out[a].identifier
            == #[trigger] out[b].identifier implies a == b by {
        if a < b {
            lemma_seq_lt_irreflexive(out[a].identifier);
        } else if b < a {
            lemma_seq_lt_irreflexive(out[a].identifier);
        }
    }
}

proof fn lemma_group_layers_none(levels: Seq<LevelView>, name: Seq<char>, slot: int)
    requires
        forall|j: int|
            0 <= j < levels.len() ==> !(base_name(#[trigger] levels[j].identifier) == name
                && layer_slot(levels[j].identifier) == slot),
    ensures
        group_layers(levels, name, slot) == Seq::<LayerView>::empty(),
    decreases levels.len(),
{
    if levels.len() > 0 {
        lemma_group_layers_none(levels.drop_last(), name, slot);
        assert(group_layers(levels, name, slot) =~= Seq::<LayerView>::empty());
    }
}

proof fn lemma_group_layers_single(levels: Seq<LevelView>, name: Seq<char>, slot: int, i: int)
    requires
        0 <= i < levels.len(),
        base_name(levels[i].identifier) == name,
        layer_slot(levels[i].identifier) == slot,
        forall|j: int|
            0 <= j < levels.len() && j != i ==> !(base_name(#[trigger] levels[j].identifier) == name
                && layer_slot(levels[j].identifier) == slot),
    ensures
        group_layers(levels, name, slot) == levels[i].layers,
    decreases levels.len(),
{
    let init = levels.drop_last();
    if i == levels.len() - 1 {
        assert forall|j: int| 0 <= j < init.len() implies !(base_name(
            #[trigger] init[j].identifier,
        ) == name && layer_slot(init[j].identifier) == slot) by {
            assert(init[j] == levels[j]);
        }
        lemma_group_layers_none(init, name, slot);
        assert(group_layers(levels, name, slot) =~= levels[i].layers);
    } else {
        assert forall|j: int| 0 <= j < init.len() && j != i implies !(base_name(
            #[trigger] init[j].identifier,
        ) == name && layer_slot(init[j].identifier) == slot) by {
            assert(init[j] == levels[j]);
        }
        assert(init[i] == levels[i]);
        lemma_group_layers_single(init, name, slot, i);
        assert(group_layers(levels, name, slot) =~= levels[i].layers);
    }
}

/// A level without a sublevel suffix that no other level shares its name
/// with passes through the merge unchanged: one merged level carries its
/// name and exactly its layers.
pub proof fn lemma_merge_passes_through(levels: Seq<LevelView>, out: Seq<LevelView>, i: int)
    requires
        merged_from(levels, out),
        0 <= i < levels.len(),
        sublevel_suffix(levels[i].identifier) is None,
        forall|j: int|
            0 <= j < levels.len() && j != i ==> base_name(#[trigger] levels[j].identifier)
                != levels[i].identifier,
    ensures
        exists|k: int|
            0 <= k < out.len() && (#[trigger] out[k]).identifier == levels[i].identifier
                && out[k].layers == levels[i].layers,
{
    let name = levels[i].identifier;
    assert(base_name(name) == name);
    lemma_merge_places_each_level(levels, out, i);
    let k = choose|k: int| 0 <= k < out.len() && #[trigger] out[k].identifier == base_name(
        levels[i].identifier,
    );
    lemma_group_layers_single(levels, name, 0, i);
    assert forall|j: int| 0 <= j < levels.len() implies !(base_name(
        #[trigger] levels[j].identifier,
    ) == name && layer_slot(levels[j].identifier) == 1) by {}
    assert forall|j: int| 0 <= j < levels.len() implies !(base_name(
        #[trigger] levels[j].identifier,
    ) == name && layer_slot(levels[j].identifier) == 2) by {}
    lemma_group_layers_none(levels, name, 1);
    lemma_group_layers_none(levels, name, 2);
    assert(merged_layers(levels, name) =~= levels[i].layers);
    assert(out[k].layers == levels[i].layers);
}

/// A game level made of one surface level and one level for each sublevel
/// slot merges into exactly three layers: surface, underground, rooftop.
pub proof fn lemma_merge_three_layers(
    levels: Seq<LevelView>,
    out: Seq<LevelView>,
    name: Seq<char>,
    surface: int,
    under: int,
    roof: int,
)
    requires
        merged_from(levels, out),
        0 <= surface < levels.len(),
        0 <= under < levels.len(),
        0 <= roof < levels.len(),
        base_name(levels[surface].identifier) == name && layer_slot(levels[surface].identifier) == 0,
        base_name(levels[under].identifier) == name && layer_slot(levels[under].identifier) == 1,
        base_name(levels[roof].identifier) == name && layer_slot(levels[roof].identifier) == 2,
        forall|j: int|
            0 <= j < levels.len() && j != surface && j != under && j != roof ==> base_name(
                #[trigger] levels[j].identifier,
            ) != name,
    ensures
        exists|k: int|
            0 <= k < out.len() && (#[trigger] out[k]).identifier == name && out[k].layers
                == levels[surface].layers + levels[under].layers + levels[roof].layers,
{
    lemma_merge_places_each_level(levels, out, surface);
    let k = choose|k: int| 0 <= k < out.len() && #[trigger] out[k].identifier == base_name(
        levels[surface].identifier,
    );
    lemma_group_layers_single(levels, name, 0, surface);
    lemma_group_layers_single(levels, name, 1, under);
    lemma_group_layers_single(levels, name, 2, roof);
    assert(out[k].layers == levels[surface].layers + levels[under].layers + levels[roof].layers);
}

proof fn lemma_ends_with_concat(b: Seq<char>, s: Seq<char>, t: Seq<char>)
    requires
        t.len() <= s.len(),
    ensures
        ends_with(b + s, t) <==> s.subrange(s.len() - t.len(), s.len() as int) == t,
{
    let w = b + s;
    assert(w.subrange(w.len() - t.len(), w.len() as int) =~= s.subrange(
        s.len() - t.len(),
        s.len() as int,
    ));
}

/// The sublevel suffixes: a level named `b` + "_Cave", "_Sewer" or "_Subway"
/// is the underground layer (1) of the game level `b`, and `b` + "_Rooftop"
/// its rooftop layer (2), whatever `b` is.
pub proof fn lemma_sublevel_suffixes(b: Seq<char>)
    ensures
        base_name(b + "_Cave"@) == b && layer_slot(b + "_Cave"@) == 1,
        base_name(b + "_Sewer"@) == b && layer_slot(b + "_Sewer"@) == 1,
        base_name(b + "_Subway"@) == b && layer_slot(b + "_Subway"@) == 1,
        base_name(b + "_Rooftop"@) == b && layer_slot(b + "_Rooftop"@) == 2,
{
    reveal_strlit("_Cave");
    reveal_strlit("_Sewer");
    reveal_strlit("_Subway");
    reveal_strlit("_Rooftop");
    let c = "_Cave"@;
    let w = "_Sewer"@;
    let u = "_Subway"@;
    let r = "_Rooftop"@;
    // "_Cave"
    lemma_ends_with_concat(b, c, c);
    assert(c.subrange(0, 5) =~= c);
    assert((b + c).subrange(0, (b + c).len() - 5) =~= b);
    // "_Sewer"
    lemma_ends_with_concat(b, w, w);
    lemma_ends_with_concat(b, w, c);
    assert(w.subrange(1, 6)[0] != c[0]);
    assert(w.subrange(0, 6) =~= w);
    assert((b + w).subrange(0, (b + w).len() - 6) =~= b);
    // "_Subway"
    lemma_ends_with_concat(b, u, u);
    lemma_ends_with_concat(b, u, c);
    lemma_ends_with_concat(b, u, w);
    assert(u.subrange(2, 7)[0] != c[0]);
    assert(u.subrange(1, 7)[0] != w[0]);
    assert(u.subrange(0, 7) =~= u);
    assert((b + u).subrange(0, (b + u).len() - 7) =~= b);
    // "_Rooftop"
    lemma_ends_with_concat(b, r, r);
    lemma_ends_with_concat(b, r, c);
    lemma_ends_with_concat(b, r, w);
    lemma_ends_with_concat(b, r, u);
    assert(r.subrange(3, 8)[0] != c[0]);
    assert(r.subrange(2, 8)[0] != w[0]);
    assert(r.subrange(1, 8)[0] != u[0]);
    assert(r.subrange(0, 8) =~= r);
    assert((b + r).subrange(0, (b + r).len() - 8) =~= b);
}

/// A game level `b` with a street level, one underground sublevel
/// (`b_Cave`, `b_Sewer` or `b_Subway`) and a rooftop sublevel (`b_Rooftop`)
/// merges into one level `b` whose layers are, in order, the street's, the
/// underground's and the rooftop's: a door to layer 1 leads underground and
/// a door to layer 2 onto the roof.
pub proof fn lemma_merge_street_under_roof(
    levels: Seq<LevelView>,
    out: Seq<LevelView>,
    b: Seq<char>,
    under_suffix: Seq<char>,
    street: int,
    under: int,
    roof: int,
)
    requires
        merged_from(levels, out),
        0 <= street < levels.len(),
        0 <= under < levels.len(),
        0 <= roof < levels.len(),
        under_suffix == "_Cave"@ || under_suffix == "_Sewer"@ || under_suffix == "_Subway"@,
        !ends_with(b, "_Cave"@) && !ends_with(b, "_Sewer"@) && !ends_with(b, "_Subway"@)
            && !ends_with(b, "_Rooftop"@),
        levels[street].identifier == b,
        levels[under].identifier == b + under_suffix,
        levels[roof].identifier == b + "_Rooftop"@,
        forall|j: int|
            0 <= j < levels.len() && j != street && j != under && j != roof ==> base_name(
                #[trigger] levels[j].identifier,
            ) != b,
    ensures
        exists|k: int|
            0 <= k < out.len() && (#[trigger] out[k]).identifier == b && out[k].layers
                == levels[street].layers + levels[under].layers + levels[roof].layers,
{
    lemma_sublevel_suffixes(b);
    assert(sublevel_suffix(b) is None);
    lemma_merge_three_layers(levels, out, b, street, under, roof);
}

// ---------------------------------------------------------------------------
// Validated projects convert
// ---------------------------------------------------------------------------

/// Every inline IntGrid layer has non-negative dimensions.
pub open spec fn grid_dims_nonneg(root: LdtkRoot) -> bool {
    forall|i: int|
        0 <= i < root.levels@.len() ==> match #[trigger] root.levels@[i].layer_instances {
            Some(layers) => forall|j: int|
                0 <= j < layers@.len() && (#[trigger] layers@[j]).layer_type@ == "IntGrid"@
                    ==> layers@[j].c_wid >= 0 && layers@[j].c_hei >= 0,
            None => true,
        }
}

/// Every colour string that conversion reads (the level colours and the
/// colours of the Light entities) can be cut into its three channels.
pub open spec fn colors_sliceable(root: LdtkRoot) -> bool {
    forall|i: int|
        0 <= i < root.levels@.len() ==> {
            let level = #[trigger] root.levels@[i];
            let f = level.field_instances@;
            &&& color_field_sliceable(field_value(f, "bg_color"@))
            &&& color_field_sliceable(field_value(f, "glow_color"@))
            &&& color_field_sliceable(field_value(f, "canopy_panel_color"@))
            &&& color_field_sliceable(field_value(f, "canopy_backdrop_color"@))
            &&& match level.layer_instances {
                Some(ls) => match first_of_type(ls@, "Entities"@) {
                    Some(l) => light_colors_sliceable(l.entity_instances@),
                    None => true,
                },
                None => true,
            }
        }
}

proof fn lemma_first_of_type_member(layers: Seq<LdtkLayerInstance>, t: Seq<char>) -> (j: int)
    requires
        first_of_type(layers, t) is Some,
    ensures
        0 <= j < layers.len(),
        layers[j] == first_of_type(layers, t).unwrap(),
        layers[j].layer_type@ == t,
    decreases layers.len(),
{
    if layers[0].layer_type@ == t {
        0
    } else {
        let k = lemma_first_of_type_member(layers.drop_first(), t);
        k + 1
    }
}

/// A project that passes validation converts: once every level conforms,
/// the IntGrid sizes are non-negative and fit `i32`, and every colour string
/// can be sliced, no CSV is longer than its grid and `convert` may run.
pub proof fn lemma_validated_converts(root: LdtkRoot)
    requires
        conforms(root),
        csv_products_fit(root),
        grid_dims_nonneg(root),
        colors_sliceable(root),
    ensures
        root_convertible(root),
{
    assert forall|i: int| 0 <= i < root.levels@.len() implies level_convertible(
        #[trigger] root.levels@[i],
    ) by {
        let level = root.levels@[i];
        assert(level_conforms(level));
        let layers = level.layer_instances.unwrap();
        if first_of_type(layers@, "IntGrid"@) is Some {
            let j = lemma_first_of_type_member(layers@, "IntGrid"@);
            let l = layers@[j];
            assert(layer_conforms(l));
            assert(!csv_mismatch(l));
            assert(l.c_wid >= 0 && l.c_hei >= 0);
            assert(l.c_wid * l.c_hei <= i32::MAX);
            assert(0 <= l.c_wid * l.c_hei) by (nonlinear_arith)
                requires
                    l.c_wid >= 0,
                    l.c_hei >= 0,
            ;
            assert(tiles_convertible(l));
        }
    }
}

/// Whether `convert` can convert every level of `root`.
pub fn root_is_convertible(root: &LdtkRoot) -> (b: bool)
    ensures
        b == root_convertible(*root),
{
    let mut i: usize = 0;
    while i < root.levels.len()
        invariant
            i <= root.levels@.len(),
            forall|k: int| 0 <= k < i ==> level_convertible(#[trigger] root.levels@[k]),
        decreases root.levels@.len() - i,
    {
        if !level_is_convertible(&root.levels[i]) {
            return false;
        }
        i = i + 1;
    }
    true
}

} // verus!
