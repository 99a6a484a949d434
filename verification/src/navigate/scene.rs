//! The maps the navigator knows: their block grid, where their origin lies,
//! and the feature files of each floor.

use vstd::prelude::*;

use crate::text::str_eq;

verus! {

broadcast use vstd::string::group_string_axioms;

/// The block grid of a map, in pixels of its image.
#[derive(Debug, Clone, Copy, PartialEq, Eq, Structural)]
pub struct SceneGeom {
    pub map_w: i32,
    pub map_h: i32,
    pub block_width: i32,
    /// Where the game's origin lies in the image; whole pixels.
    pub origin_x: i32,
    pub origin_y: i32,
    pub split_row: i32,
    pub split_col: i32,
}

/// The grid of a map of `rows` by `cols` blocks, with `up_rows` rows above
/// and `left_cols` columns left of the block holding the origin.
pub open spec fn geom_spec(
    rows: int,
    cols: int,
    up_rows: int,
    left_cols: int,
    block_width: i32,
    split_row: i32,
    split_col: i32,
) -> SceneGeom {
    SceneGeom {
        map_w: (cols * block_width) as i32,
        map_h: (rows * block_width) as i32,
        block_width,
        origin_x: ((left_cols + 1) * block_width) as i32,
        origin_y: ((up_rows + 1) * block_width) as i32,
        split_row,
        split_col,
    }
}

/// Whether `a * b` fits in `i32`.
pub open spec fn product_fits(a: int, b: int) -> bool {
    i32::MIN <= a * b <= i32::MAX
}

impl SceneGeom {
    /// The grid of a map of `rows` by `cols` blocks of `block_width` pixels,
    /// whose origin block has `up_rows` rows above and `left_cols` columns to
    /// its left.
    pub fn new(
        rows: i32,
        cols: i32,
        up_rows: i32,
        left_cols: i32,
        block_width: i32,
        split_row: i32,
        split_col: i32,
    ) -> (g: Self)
        requires
            product_fits(cols as int, block_width as int),
            product_fits(rows as int, block_width as int),
            left_cols < i32::MAX,
            up_rows < i32::MAX,
            product_fits(left_cols + 1, block_width as int),
            product_fits(up_rows + 1, block_width as int),
        ensures
            g == geom_spec(
                rows as int,
                cols as int,
                up_rows as int,
                left_cols as int,
                block_width,
                split_row,
                split_col,
            ),
    {
        SceneGeom {
            map_w: cols * block_width,
            map_h: rows * block_width,
            block_width,
            origin_x: (left_cols + 1) * block_width,
            origin_y: (up_rows + 1) * block_width,
            split_row,
            split_col,
        }
    }
}

/// Where the features of a floor come from.
#[derive(Debug, Clone, Copy)]
pub enum SiftSource {
    /// Key points and descriptors computed beforehand.
    BgiPrebuilt { kp: &'static str, mat: &'static str },
    /// An image whose features are computed when it is loaded.
    RawImage { path: &'static str },
}

/// A floor of a map and the source of its features.
#[derive(Debug, Clone, Copy)]
pub struct Floor {
    pub floor: i32,
    pub source: SiftSource,
}

/// A map the navigator knows.
pub struct Scene {
    pub name: &'static str,
    pub desc: &'static str,
    pub geom: SceneGeom,
    pub floors: Vec<Floor>,
}

/// How many maps the navigator knows.
pub open spec fn scene_count() -> int {
    5
}

/// The name of the `i`-th map.
pub open spec fn scene_name_at(i: int) -> Seq<char> {
    if i == 0 {
        "Teyvat"@
    } else if i == 1 {
        "TheChasm"@
    } else if i == 2 {
        "Enkanomiya"@
    } else if i == 3 {
        "SeaOfBygoneEras"@
    } else {
        "AncientSacredMountain"@
    }
}

/// The description of the `i`-th map.
pub open spec fn scene_desc_at(i: int) -> Seq<char> {
    if i == 0 {
        "提瓦特大陆"@
    } else if i == 1 {
        "层岩巨渊"@
    } else if i == 2 {
        "渊下宫"@
    } else if i == 3 {
        "旧日之海"@
    } else {
        "远古圣山"@
    }
}

/// The grid of the `i`-th map.
pub open spec fn scene_geom_at(i: int) -> SceneGeom {
    if i == 0 {
        geom_spec(15, 22, 7, 15, 2048, 30, 44)
    } else if i == 1 {
        geom_spec(2, 2, 1, 1, 1024, 0, 0)
    } else if i == 2 {
        geom_spec(3, 3, 1, 1, 1024, 0, 0)
    } else if i == 3 {
        geom_spec(3, 4, 2, 5, 1024, 0, 0)
    } else {
        geom_spec(4, 4, 1, 1, 1024, 0, 0)
    }
}

/// The floors of the `i`-th map, from the ground floor down.
pub open spec fn scene_floors_at(i: int) -> Seq<Floor> {
    if i == 0 {
        seq![
            Floor {
                floor: 0,
                source: SiftSource::BgiPrebuilt {
                    kp: "Teyvat_0_2048_SIFT.kp.bin",
                    mat: "Teyvat_0_2048_SIFT.mat.png",
                },
            },
        ]
    } else if i == 1 {
        seq![Floor { floor: 0, source: SiftSource::RawImage { path: "TheChasm_0_1024.png" } }]
    } else if i == 2 {
        seq![Floor { floor: 0, source: SiftSource::RawImage { path: "Enkanomiya_0_1024.png" } }]
    } else if i == 3 {
        seq![
            Floor { floor: 0, source: SiftSource::RawImage { path: "SeaOfBygoneEras_0_1024.png" } },
            Floor { floor: -1i32, source: SiftSource::RawImage { path: "SeaOfBygoneEras_-1_1024.webp" } },
            Floor { floor: -2i32, source: SiftSource::RawImage { path: "SeaOfBygoneEras_-2_1024.webp" } },
        ]
    } else {
        seq![
            Floor { floor: 0, source: SiftSource::RawImage { path: "AncientSacredMountain_0_1024.png" } },
            Floor {
                floor: -1i32,
                source: SiftSource::RawImage { path: "AncientSacredMountain_-1_1024.webp" },
            },
        ]
    }
}

/// Whether `s` is the `i`-th map.
pub open spec fn is_scene_at(s: Scene, i: int) -> bool {
    &&& s.name@ == scene_name_at(i)
    &&& s.desc@ == scene_desc_at(i)
    &&& s.geom == scene_geom_at(i)
    &&& s.floors@ == scene_floors_at(i)
}

/// The `i`-th map the navigator knows.
fn scene_at(i: usize) -> (s: Scene)
    requires
        i < scene_count(),
    ensures
        is_scene_at(s, i as int),
{
    if i == 0 {
        let floors = vec![
            Floor {
                floor: 0,
                source: SiftSource::BgiPrebuilt {
                    kp: "Teyvat_0_2048_SIFT.kp.bin",
                    mat: "Teyvat_0_2048_SIFT.mat.png",
                },
            },
        ];
        assert(floors@ =~= scene_floors_at(0));
        Scene { name: "Teyvat", desc: "提瓦特大陆", geom: SceneGeom::new(15, 22, 7, 15, 2048, 30, 44), floors }
    } else if i == 1 {
        let floors = vec![Floor { floor: 0, source: SiftSource::RawImage { path: "TheChasm_0_1024.png" } }];
        assert(floors@ =~= scene_floors_at(1));
        Scene { name: "TheChasm", desc: "层岩巨渊", geom: SceneGeom::new(2, 2, 1, 1, 1024, 0, 0), floors }
    } else if i == 2 {
        let floors = vec![Floor { floor: 0, source: SiftSource::RawImage { path: "Enkanomiya_0_1024.png" } }];
        assert(floors@ =~= scene_floors_at(2));
        Scene { name: "Enkanomiya", desc: "渊下宫", geom: SceneGeom::new(3, 3, 1, 1, 1024, 0, 0), floors }
    } else if i == 3 {
        let floors = vec![
            Floor { floor: 0, source: SiftSource::RawImage { path: "SeaOfBygoneEras_0_1024.png" } },
            Floor { floor: -1, source: SiftSource::RawImage { path: "SeaOfBygoneEras_-1_1024.webp" } },
            Floor { floor: -2, source: SiftSource::RawImage { path: "SeaOfBygoneEras_-2_1024.webp" } },
        ];
        assert(floors@ =~= scene_floors_at(3));
        Scene { name: "SeaOfBygoneEras", desc: "旧日之海", geom: SceneGeom::new(3, 4, 2, 5, 1024, 0, 0), floors }
    } else {
        let floors = vec![
            Floor { floor: 0, source: SiftSource::RawImage { path: "AncientSacredMountain_0_1024.png" } },
            Floor {
                floor: -1,
                source: SiftSource::RawImage { path: "AncientSacredMountain_-1_1024.webp" },
            },
        ];
        assert(floors@ =~= scene_floors_at(4));
        Scene {
            name: "AncientSacredMountain",
            desc: "远古圣山",
            geom: SceneGeom::new(4, 4, 1, 1, 1024, 0, 0),
            floors,
        }
    }
}

/// Every map the navigator knows, in a fixed order.
pub fn all_scenes() -> (v: Vec<Scene>)
    ensures
        v@.len() == scene_count(),
        forall|i: int| 0 <= i < scene_count() ==> is_scene_at(#[trigger] v@[i], i),
{
    let mut v: Vec<Scene> = Vec::new();
    let mut i: usize = 0;
    while i < 5
        invariant
            0 <= i <= 5,
            v@.len() == i,
            forall|j: int| 0 <= j < i ==> is_scene_at(#[trigger] v@[j], j),
        decreases 5 - i,
    {
        v.push(scene_at(i));
        i = i + 1;
    }
    v
}

/// The known map named `name`, if there is one.
pub fn scene_by_name(name: &str) -> (r: Option<Scene>)
    ensures
        match r {
            Some(s) => exists|i: int| 0 <= i < scene_count() && scene_name_at(i) == name@ && is_scene_at(s, i),
            None => forall|i: int| 0 <= i < scene_count() ==> scene_name_at(i) != name@,
        },
{
    let mut i: usize = 0;
    while i < 5
        invariant
            0 <= i <= 5,
            forall|j: int| 0 <= j < i ==> scene_name_at(j) != name@,
        decreases 5 - i,
    {
        let s = scene_at(i);
        if str_eq(s.name, name) {
            return Some(s);
        }
        i = i + 1;
    }
    None
}

/// The known maps have different names, so a name finds at most one of them.
pub proof fn lemma_scene_names_distinct(i: int, j: int)
    requires
        0 <= i < scene_count(),
        0 <= j < scene_count(),
        scene_name_at(i) == scene_name_at(j),
    ensures
        i == j,
{
    reveal_strlit("Teyvat");
    reveal_strlit("TheChasm");
    reveal_strlit("Enkanomiya");
    reveal_strlit("SeaOfBygoneEras");
    reveal_strlit("AncientSacredMountain");
    assert("Teyvat"@.len() == 6);
    assert("TheChasm"@.len() == 8);
    assert("Enkanomiya"@.len() == 10);
    assert("SeaOfBygoneEras"@.len() == 15);
    assert("AncientSacredMountain"@.len() == 21);
}

} // verus!
