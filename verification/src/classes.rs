//! The map's class vocabularies and the names and colours they are stored and
//! drawn under.
use vstd::prelude::*;

verus! {

/// Drivability of a map cell, judged from the spread of its elevations.
#[derive(Debug, Clone, Copy, PartialEq, Eq, Structural)]
pub enum TerrainClass {
    Unknown,
    Drivable,
    NonDrivable,
}

impl TerrainClass {
    /// The name under which the class is stored.
    pub open spec fn spec_name(self) -> Seq<char> {
        match self {
            TerrainClass::Unknown => "unknown"@,
            TerrainClass::Drivable => "drivable"@,
            TerrainClass::NonDrivable => "non_drivable"@,
        }
    }

    /// The name under which the class is stored.
    pub fn as_str(self) -> (name: &'static str)
        ensures
            name@ == self.spec_name(),
    {
        match self {
            TerrainClass::Unknown => "unknown",
            TerrainClass::Drivable => "drivable",
            TerrainClass::NonDrivable => "non_drivable",
        }
    }
}

/// Distinct terrain classes are stored under distinct names.
pub proof fn law_terrain_names_distinct(a: TerrainClass, b: TerrainClass)
    requires
        a != b,
    ensures
        a.spec_name() != b.spec_name(),
{
    reveal_strlit("unknown");
    reveal_strlit("drivable");
    reveal_strlit("non_drivable");
    assert(a.spec_name().len() != b.spec_name().len() || a.spec_name()[0] != b.spec_name()[0]);
}

/// The rule-based semantic label of a map cell.
#[derive(Debug, Clone, Copy, PartialEq, Eq, Structural)]
pub enum SemanticClass {
    Unknown,
    DrivableTerrain,
    NonDrivableTerrain,
    Wall,
    Pole,
    Barrier,
    StaticObstacle,
    Pedestrian,
    Vehicle,
    OtherDynamic,
}

/// A colour as red, green and blue intensities.
#[derive(Debug, Clone, Copy, PartialEq, Eq, Structural)]
pub struct Rgb {
    pub r: u8,
    pub g: u8,
    pub b: u8,
}

impl SemanticClass {
    /// Every semantic class, in legend order.
    pub const ALL: [SemanticClass; 10] = [
        SemanticClass::Unknown,
        SemanticClass::DrivableTerrain,
        SemanticClass::NonDrivableTerrain,
        SemanticClass::Wall,
        SemanticClass::Pole,
        SemanticClass::Barrier,
        SemanticClass::StaticObstacle,
        SemanticClass::Pedestrian,
        SemanticClass::Vehicle,
        SemanticClass::OtherDynamic,
    ];

    /// The name under which the class is stored and listed.
    pub open spec fn spec_name(self) -> Seq<char> {
        match self {
            SemanticClass::Unknown => "unknown"@,
            SemanticClass::DrivableTerrain => "drivable_terrain"@,
            SemanticClass::NonDrivableTerrain => "non_drivable_terrain"@,
            SemanticClass::Wall => "wall"@,
            SemanticClass::Pole => "pole"@,
            SemanticClass::Barrier => "barrier"@,
            SemanticClass::StaticObstacle => "static_obstacle"@,
            SemanticClass::Pedestrian => "pedestrian"@,
            SemanticClass::Vehicle => "vehicle"@,
            SemanticClass::OtherDynamic => "other_dynamic"@,
        }
    }

    /// The name under which the class is stored and listed.
    pub fn as_str(self) -> (name: &'static str)
        ensures
            name@ == self.spec_name(),
    {
        match self {
            SemanticClass::Unknown => "unknown",
            SemanticClass::DrivableTerrain => "drivable_terrain",
            SemanticClass::NonDrivableTerrain => "non_drivable_terrain",
            SemanticClass::Wall => "wall",
            SemanticClass::Pole => "pole",
            SemanticClass::Barrier => "barrier",
            SemanticClass::StaticObstacle => "static_obstacle",
            SemanticClass::Pedestrian => "pedestrian",
            SemanticClass::Vehicle => "vehicle",
            SemanticClass::OtherDynamic => "other_dynamic",
        }
    }

    /// The colour the class is drawn in: one colour per kind of class, with the
    /// static obstacles sharing one and the moving ones another.
    pub open spec fn spec_color(self) -> Rgb {
        match self {
            SemanticClass::DrivableTerrain => Rgb { r: 95, g: 190, b: 130 },
            SemanticClass::NonDrivableTerrain => Rgb { r: 185, g: 145, b: 85 },
            SemanticClass::Wall | SemanticClass::Barrier | SemanticClass::StaticObstacle => Rgb {
                r: 220,
                g: 115,
                b: 90,
            },
            SemanticClass::Pole => Rgb { r: 175, g: 135, b: 225 },
            SemanticClass::Pedestrian | SemanticClass::Vehicle | SemanticClass::OtherDynamic => Rgb {
                r: 240,
                g: 90,
                b: 150,
            },
            SemanticClass::Unknown => Rgb { r: 150, g: 165, b: 165 },
        }
    }

    /// The colour the class is drawn in.
    pub fn color(self) -> (c: Rgb)
        ensures
            c == self.spec_color(),
    {
        match self {
            SemanticClass::DrivableTerrain => Rgb { r: 95, g: 190, b: 130 },
            SemanticClass::NonDrivableTerrain => Rgb { r: 185, g: 145, b: 85 },
            SemanticClass::Wall | SemanticClass::Barrier | SemanticClass::StaticObstacle => Rgb {
                r: 220,
                g: 115,
                b: 90,
            },
            SemanticClass::Pole => Rgb { r: 175, g: 135, b: 225 },
            SemanticClass::Pedestrian | SemanticClass::Vehicle | SemanticClass::OtherDynamic => Rgb {
                r: 240,
                g: 90,
                b: 150,
            },
            SemanticClass::Unknown => Rgb { r: 150, g: 165, b: 165 },
        }
    }
}

/// Distinct semantic classes are stored under distinct names.
pub proof fn law_semantic_names_distinct(a: SemanticClass, b: SemanticClass)
    requires
        a != b,
    ensures
        a.spec_name() != b.spec_name(),
{
    reveal_strlit("unknown");
    reveal_strlit("drivable_terrain");
    reveal_strlit("non_drivable_terrain");
    reveal_strlit("wall");
    reveal_strlit("pole");
    reveal_strlit("barrier");
    reveal_strlit("static_obstacle");
    reveal_strlit("pedestrian");
    reveal_strlit("vehicle");
    reveal_strlit("other_dynamic");
    assert(a.spec_name().len() != b.spec_name().len() || a.spec_name()[0] != b.spec_name()[0]
        || a.spec_name()[1] != b.spec_name()[1]);
}

/// The kind of a detected object.
#[derive(Debug, Clone, Copy, PartialEq, Eq, Structural)]
pub enum ObjectClass {
    Wall,
    Pole,
    Barrier,
    StaticObstacle,
    Pedestrian,
    Vehicle,
    Cyclist,
    OtherDynamic,
}

impl ObjectClass {
    /// The name under which an object of the class is stored: the variant's
    /// name in lower case, without separators.
    pub open spec fn spec_storage_name(self) -> Seq<char> {
        match self {
            ObjectClass::Wall => "wall"@,
            ObjectClass::Pole => "pole"@,
            ObjectClass::Barrier => "barrier"@,
            ObjectClass::StaticObstacle => "staticobstacle"@,
            ObjectClass::Pedestrian => "pedestrian"@,
            ObjectClass::Vehicle => "vehicle"@,
            ObjectClass::Cyclist => "cyclist"@,
            ObjectClass::OtherDynamic => "otherdynamic"@,
        }
    }

    /// The name under which an object of the class is stored.
    pub fn storage_name(self) -> (name: &'static str)
        ensures
            name@ == self.spec_storage_name(),
    {
        match self {
            ObjectClass::Wall => "wall",
            ObjectClass::Pole => "pole",
            ObjectClass::Barrier => "barrier",
            ObjectClass::StaticObstacle => "staticobstacle",
            ObjectClass::Pedestrian => "pedestrian",
            ObjectClass::Vehicle => "vehicle",
            ObjectClass::Cyclist => "cyclist",
            ObjectClass::OtherDynamic => "otherdynamic",
        }
    }
}

/// Distinct object classes are stored under distinct names.
pub proof fn law_object_names_distinct(a: ObjectClass, b: ObjectClass)
    requires
        a != b,
    ensures
        a.spec_storage_name() != b.spec_storage_name(),
{
    reveal_strlit("wall");
    reveal_strlit("pole");
    reveal_strlit("barrier");
    reveal_strlit("staticobstacle");
    reveal_strlit("pedestrian");
    reveal_strlit("vehicle");
    reveal_strlit("cyclist");
    reveal_strlit("otherdynamic");
    assert(a.spec_storage_name().len() != b.spec_storage_name().len()
        || a.spec_storage_name()[0] != b.spec_storage_name()[0]);
}

/// `c` is an ASCII capital letter.
pub open spec fn is_capital(c: char) -> bool {
    'A' <= c <= 'Z'
}

/// The small letter of an ASCII capital, any other character unchanged.
pub open spec fn small(c: char) -> char {
    if is_capital(c) {
        ((c as u32) + 32) as char
    } else {
        c
    }
}

/// The snake-case form of the CamelCase identifier `id`: each capital letter
/// turned small, with an underscore before every one but the first character.
pub open spec fn snake_case(id: Seq<char>, first: bool) -> Seq<char>
    decreases id.len(),
{
    if id.len() == 0 {
        Seq::empty()
    } else if is_capital(id[0]) {
        (if first {
            seq![small(id[0])]
        } else {
            seq!['_', small(id[0])]
        }) + snake_case(id.drop_first(), false)
    } else {
        seq![id[0]] + snake_case(id.drop_first(), false)
    }
}

/// `id` with every capital letter turned small.
pub open spec fn lower_case(id: Seq<char>) -> Seq<char>
    decreases id.len(),
{
    if id.len() == 0 {
        Seq::empty()
    } else {
        seq![small(id[0])] + lower_case(id.drop_first())
    }
}

proof fn lemma_snake_barrier()
    ensures
        snake_case("Barrier"@, true) == "barrier"@,
{
    reveal_strlit("Barrier");
    reveal_strlit("barrier");
    let id = "Barrier"@;
    assert(id.skip(7) =~= Seq::<char>::empty());
    assert(snake_case(id.skip(7), false) =~= Seq::<char>::empty());
    assert(id.skip(6).drop_first() =~= id.skip(7));
    assert(snake_case(id.skip(6), false) =~= seq!['r']);
    assert(id.skip(5).drop_first() =~= id.skip(6));
    assert(snake_case(id.skip(5), false) =~= seq!['e', 'r']);
    assert(id.skip(4).drop_first() =~= id.skip(5));
    assert(snake_case(id.skip(4), false) =~= seq!['i', 'e', 'r']);
    assert(id.skip(3).drop_first() =~= id.skip(4));
    assert(snake_case(id.skip(3), false) =~= seq!['r', 'i', 'e', 'r']);
    assert(id.skip(2).drop_first() =~= id.skip(3));
    assert(snake_case(id.skip(2), false) =~= seq!['r', 'r', 'i', 'e', 'r']);
    assert(id.skip(1).drop_first() =~= id.skip(2));
    assert(snake_case(id.skip(1), false) =~= seq!['a', 'r', 'r', 'i', 'e', 'r']);
    assert(id.skip(0).drop_first() =~= id.skip(1));
    assert(snake_case(id.skip(0), true) =~= seq!['b', 'a', 'r', 'r', 'i', 'e', 'r']);
    assert(id.skip(0) =~= id);
}

proof fn lemma_snake_drivable()
    ensures
        snake_case("Drivable"@, true) == "drivable"@,
{
    reveal_strlit("Drivable");
    reveal_strlit("drivable");
    let id = "Drivable"@;
    assert(id.skip(8) =~= Seq::<char>::empty());
    assert(snake_case(id.skip(8), false) =~= Seq::<char>::empty());
    assert(id.skip(7).drop_first() =~= id.skip(8));
    assert(snake_case(id.skip(7), false) =~= seq!['e']);
    assert(id.skip(6).drop_first() =~= id.skip(7));
    assert(snake_case(id.skip(6), false) =~= seq!['l', 'e']);
    assert(id.skip(5).drop_first() =~= id.skip(6));
    assert(snake_case(id.skip(5), false) =~= seq!['b', 'l', 'e']);
    assert(id.skip(4).drop_first() =~= id.skip(5));
    assert(snake_case(id.skip(4), false) =~= seq!['a', 'b', 'l', 'e']);
    assert(id.skip(3).drop_first() =~= id.skip(4));
    assert(snake_case(id.skip(3), false) =~= seq!['v', 'a', 'b', 'l', 'e']);
    assert(id.skip(2).drop_first() =~= id.skip(3));
    assert(snake_case(id.skip(2), false) =~= seq!['i', 'v', 'a', 'b', 'l', 'e']);
    assert(id.skip(1).drop_first() =~= id.skip(2));
    assert(snake_case(id.skip(1), false) =~= seq!['r', 'i', 'v', 'a', 'b', 'l', 'e']);
    assert(id.skip(0).drop_first() =~= id.skip(1));
    assert(snake_case(id.skip(0), true) =~= seq!['d', 'r', 'i', 'v', 'a', 'b', 'l', 'e']);
    assert(id.skip(0) =~= id);
}

#[verifier::rlimit(50)]
proof fn lemma_snake_drivable_terrain()
    ensures
        snake_case("DrivableTerrain"@, true) == "drivable_terrain"@,
{
    reveal_strlit("DrivableTerrain");
    reveal_strlit("drivable_terrain");
    let id = "DrivableTerrain"@;
    assert(id.skip(15) =~= Seq::<char>::empty());
    assert(snake_case(id.skip(15), false) =~= Seq::<char>::empty());
    assert(id.skip(14).drop_first() =~= id.skip(15));
    assert(snake_case(id.skip(14), false) =~= seq!['n']);
    assert(id.skip(13).drop_first() =~= id.skip(14));
    assert(snake_case(id.skip(13), false) =~= seq!['i', 'n']);
    assert(id.skip(12).drop_first() =~= id.skip(13));
    assert(snake_case(id.skip(12), false) =~= seq!['a', 'i', 'n']);
    assert(id.skip(11).drop_first() =~= id.skip(12));
    assert(snake_case(id.skip(11), false) =~= seq!['r', 'a', 'i', 'n']);
    assert(id.skip(10).drop_first() =~= id.skip(11));
    assert(snake_case(id.skip(10), false) =~= seq!['r', 'r', 'a', 'i', 'n']);
    assert(id.skip(9).drop_first() =~= id.skip(10));
    assert(snake_case(id.skip(9), false) =~= seq!['e', 'r', 'r', 'a', 'i', 'n']);
    assert(id.skip(8).drop_first() =~= id.skip(9));
    assert(snake_case(id.skip(8), false) =~= seq!['_', 't', 'e', 'r', 'r', 'a', 'i', 'n']);
    assert(id.skip(7).drop_first() =~= id.skip(8));
    assert(snake_case(id.skip(7), false) =~= seq!['e', '_', 't', 'e', 'r', 'r', 'a', 'i', 'n']);
    assert(id.skip(6).drop_first() =~= id.skip(7));
    assert(snake_case(id.skip(6), false) =~= seq!['l', 'e', '_', 't', 'e', 'r', 'r', 'a', 'i', 'n']);
    assert(id.skip(5).drop_first() =~= id.skip(6));
    assert(snake_case(id.skip(5), false) =~= seq!['b', 'l', 'e', '_', 't', 'e', 'r', 'r', 'a', 'i', 'n']);
    assert(id.skip(4).drop_first() =~= id.skip(5));
    assert(snake_case(id.skip(4), false) =~= seq!['a', 'b', 'l', 'e', '_', 't', 'e', 'r', 'r', 'a', 'i', 'n']);
    assert(id.skip(3).drop_first() =~= id.skip(4));
    assert(snake_case(id.skip(3), false) =~= seq!['v', 'a', 'b', 'l', 'e', '_', 't', 'e', 'r', 'r', 'a', 'i', 'n']);
    assert(id.skip(2).drop_first() =~= id.skip(3));
    assert(snake_case(id.skip(2), false) =~= seq!['i', 'v', 'a', 'b', 'l', 'e', '_', 't', 'e', 'r', 'r', 'a', 'i', 'n']);
    assert(id.skip(1).drop_first() =~= id.skip(2));
    assert(snake_case(id.skip(1), false) =~= seq!['r', 'i', 'v', 'a', 'b', 'l', 'e', '_', 't', 'e', 'r', 'r', 'a', 'i', 'n']);
    assert(id.skip(0).drop_first() =~= id.skip(1));
    assert(snake_case(id.skip(0), true) =~= seq!['d', 'r', 'i', 'v', 'a', 'b', 'l', 'e', '_', 't', 'e', 'r', 'r', 'a', 'i', 'n']);
    assert(id.skip(0) =~= id);
}

proof fn lemma_snake_non_drivable()
    ensures
        snake_case("NonDrivable"@, true) == "non_drivable"@,
{
    reveal_strlit("NonDrivable");
    reveal_strlit("non_drivable");
    let id = "NonDrivable"@;
    assert(id.skip(11) =~= Seq::<char>::empty());
    assert(snake_case(id.skip(11), false) =~= Seq::<char>::empty());
    assert(id.skip(10).drop_first() =~= id.skip(11));
    assert(snake_case(id.skip(10), false) =~= seq!['e']);
    assert(id.skip(9).drop_first() =~= id.skip(10));
    assert(snake_case(id.skip(9), false) =~= seq!['l', 'e']);
    assert(id.skip(8).drop_first() =~= id.skip(9));
    assert(snake_case(id.skip(8), false) =~= seq!['b', 'l', 'e']);
    assert(id.skip(7).drop_first() =~= id.skip(8));
    assert(snake_case(id.skip(7), false) =~= seq!['a', 'b', 'l', 'e']);
    assert(id.skip(6).drop_first() =~= id.skip(7));
    assert(snake_case(id.skip(6), false) =~= seq!['v', 'a', 'b', 'l', 'e']);
    assert(id.skip(5).drop_first() =~= id.skip(6));
    assert(snake_case(id.skip(5), false) =~= seq!['i', 'v', 'a', 'b', 'l', 'e']);
    assert(id.skip(4).drop_first() =~= id.skip(5));
    assert(snake_case(id.skip(4), false) =~= seq!['r', 'i', 'v', 'a', 'b', 'l', 'e']);
    assert(id.skip(3).drop_first() =~= id.skip(4));
    assert(snake_case(id.skip(3), false) =~= seq!['_', 'd', 'r', 'i', 'v', 'a', 'b', 'l', 'e']);
    assert(id.skip(2).drop_first() =~= id.skip(3));
    assert(snake_case(id.skip(2), false) =~= seq!['n', '_', 'd', 'r', 'i', 'v', 'a', 'b', 'l', 'e']);
    assert(id.skip(1).drop_first() =~= id.skip(2));
    assert(snake_case(id.skip(1), false) =~= seq!['o', 'n', '_', 'd', 'r', 'i', 'v', 'a', 'b', 'l', 'e']);
    assert(id.skip(0).drop_first() =~= id.skip(1));
    assert(snake_case(id.skip(0), true) =~= seq!['n', 'o', 'n', '_', 'd', 'r', 'i', 'v', 'a', 'b', 'l', 'e']);
    assert(id.skip(0) =~= id);
}

#[verifier::rlimit(50)]
proof fn lemma_snake_non_drivable_terrain()
    ensures
        snake_case("NonDrivableTerrain"@, true) == "non_drivable_terrain"@,
{
    reveal_strlit("NonDrivableTerrain");
    reveal_strlit("non_drivable_terrain");
    let id = "NonDrivableTerrain"@;
    assert(id.skip(18) =~= Seq::<char>::empty());
    assert(snake_case(id.skip(18), false) =~= Seq::<char>::empty());
    assert(id.skip(17).drop_first() =~= id.skip(18));
    assert(snake_case(id.skip(17), false) =~= seq!['n']);
    assert(id.skip(16).drop_first() =~= id.skip(17));
    assert(snake_case(id.skip(16), false) =~= seq!['i', 'n']);
    assert(id.skip(15).drop_first() =~= id.skip(16));
    assert(snake_case(id.skip(15), false) =~= seq!['a', 'i', 'n']);
    assert(id.skip(14).drop_first() =~= id.skip(15));
    assert(snake_case(id.skip(14), false) =~= seq!['r', 'a', 'i', 'n']);
    assert(id.skip(13).drop_first() =~= id.skip(14));
    assert(snake_case(id.skip(13), false) =~= seq!['r', 'r', 'a', 'i', 'n']);
    assert(id.skip(12).drop_first() =~= id.skip(13));
    assert(snake_case(id.skip(12), false) =~= seq!['e', 'r', 'r', 'a', 'i', 'n']);
    assert(id.skip(11).drop_first() =~= id.skip(12));
    assert(snake_case(id.skip(11), false) =~= seq!['_', 't', 'e', 'r', 'r', 'a', 'i', 'n']);
    assert(id.skip(10).drop_first() =~= id.skip(11));
    assert(snake_case(id.skip(10), false) =~= seq!['e', '_', 't', 'e', 'r', 'r', 'a', 'i', 'n']);
    assert(id.skip(9).drop_first() =~= id.skip(10));
    assert(snake_case(id.skip(9), false) =~= seq!['l', 'e', '_', 't', 'e', 'r', 'r', 'a', 'i', 'n']);
    assert(id.skip(8).drop_first() =~= id.skip(9));
    assert(snake_case(id.skip(8), false) =~= seq!['b', 'l', 'e', '_', 't', 'e', 'r', 'r', 'a', 'i', 'n']);
    assert(id.skip(7).drop_first() =~= id.skip(8));
    assert(snake_case(id.skip(7), false) =~= seq!['a', 'b', 'l', 'e', '_', 't', 'e', 'r', 'r', 'a', 'i', 'n']);
    assert(id.skip(6).drop_first() =~= id.skip(7));
    assert(snake_case(id.skip(6), false) =~= seq!['v', 'a', 'b', 'l', 'e', '_', 't', 'e', 'r', 'r', 'a', 'i', 'n']);
    assert(id.skip(5).drop_first() =~= id.skip(6));
    assert(snake_case(id.skip(5), false) =~= seq!['i', 'v', 'a', 'b', 'l', 'e', '_', 't', 'e', 'r', 'r', 'a', 'i', 'n']);
    assert(id.skip(4).drop_first() =~= id.skip(5));
    assert(snake_case(id.skip(4), false) =~= seq!['r', 'i', 'v', 'a', 'b', 'l', 'e', '_', 't', 'e', 'r', 'r', 'a', 'i', 'n']);
    assert(id.skip(3).drop_first() =~= id.skip(4));
    assert(snake_case(id.skip(3), false) =~= seq!['_', 'd', 'r', 'i', 'v', 'a', 'b', 'l', 'e', '_', 't', 'e', 'r', 'r', 'a', 'i', 'n']);
    assert(id.skip(2).drop_first() =~= id.skip(3));
    assert(snake_case(id.skip(2), false) =~= seq!['n', '_', 'd', 'r', 'i', 'v', 'a', 'b', 'l', 'e', '_', 't', 'e', 'r', 'r', 'a', 'i', 'n']);
    assert(id.skip(1).drop_first() =~= id.skip(2));
    assert(snake_case(id.skip(1), false) =~= seq!['o', 'n', '_', 'd', 'r', 'i', 'v', 'a', 'b', 'l', 'e', '_', 't', 'e', 'r', 'r', 'a', 'i', 'n']);
    assert(id.skip(0).drop_first() =~= id.skip(1));
    assert(snake_case(id.skip(0), true) =~= seq!['n', 'o', 'n', '_', 'd', 'r', 'i', 'v', 'a', 'b', 'l', 'e', '_', 't', 'e', 'r', 'r', 'a', 'i', 'n']);
    assert(id.skip(0) =~= id);
}

#[verifier::rlimit(50)]
proof fn lemma_snake_other_dynamic()
    ensures
        snake_case("OtherDynamic"@, true) == "other_dynamic"@,
{
    reveal_strlit("OtherDynamic");
    reveal_strlit("other_dynamic");
    let id = "OtherDynamic"@;
    assert(id.skip(12) =~= Seq::<char>::empty());
    assert(snake_case(id.skip(12), false) =~= Seq::<char>::empty());
    assert(id.skip(11).drop_first() =~= id.skip(12));
    assert(snake_case(id.skip(11), false) =~= seq!['c']);
    assert(id.skip(10).drop_first() =~= id.skip(11));
    assert(snake_case(id.skip(10), false) =~= seq!['i', 'c']);
    assert(id.skip(9).drop_first() =~= id.skip(10));
    assert(snake_case(id.skip(9), false) =~= seq!['m', 'i', 'c']);
    assert(id.skip(8).drop_first() =~= id.skip(9));
    assert(snake_case(id.skip(8), false) =~= seq!['a', 'm', 'i', 'c']);
    assert(id.skip(7).drop_first() =~= id.skip(8));
    assert(snake_case(id.skip(7), false) =~= seq!['n', 'a', 'm', 'i', 'c']);
    assert(id.skip(6).drop_first() =~= id.skip(7));
    assert(snake_case(id.skip(6), false) =~= seq!['y', 'n', 'a', 'm', 'i', 'c']);
    assert(id.skip(5).drop_first() =~= id.skip(6));
    assert(snake_case(id.skip(5), false) =~= seq!['_', 'd', 'y', 'n', 'a', 'm', 'i', 'c']);
    assert(id.skip(4).drop_first() =~= id.skip(5));
    assert(snake_case(id.skip(4), false) =~= seq!['r', '_', 'd', 'y', 'n', 'a', 'm', 'i', 'c']);
    assert(id.skip(3).drop_first() =~= id.skip(4));
    assert(snake_case(id.skip(3), false) =~= seq!['e', 'r', '_', 'd', 'y', 'n', 'a', 'm', 'i', 'c']);
    assert(id.skip(2).drop_first() =~= id.skip(3));
    assert(snake_case(id.skip(2), false) =~= seq!['h', 'e', 'r', '_', 'd', 'y', 'n', 'a', 'm', 'i', 'c']);
    assert(id.skip(1).drop_first() =~= id.skip(2));
    assert(snake_case(id.skip(1), false) =~= seq!['t', 'h', 'e', 'r', '_', 'd', 'y', 'n', 'a', 'm', 'i', 'c']);
    assert(id.skip(0).drop_first() =~= id.skip(1));
    assert(snake_case(id.skip(0), true) =~= seq!['o', 't', 'h', 'e', 'r', '_', 'd', 'y', 'n', 'a', 'm', 'i', 'c']);
    assert(id.skip(0) =~= id);
}

proof fn lemma_snake_pedestrian()
    ensures
        snake_case("Pedestrian"@, true) == "pedestrian"@,
{
    reveal_strlit("Pedestrian");
    reveal_strlit("pedestrian");
    let id = "Pedestrian"@;
    assert(id.skip(10) =~= Seq::<char>::empty());
    assert(snake_case(id.skip(10), false) =~= Seq::<char>::empty());
    assert(id.skip(9).drop_first() =~= id.skip(10));
    assert(snake_case(id.skip(9), false) =~= seq!['n']);
    assert(id.skip(8).drop_first() =~= id.skip(9));
    assert(snake_case(id.skip(8), false) =~= seq!['a', 'n']);
    assert(id.skip(7).drop_first() =~= id.skip(8));
    assert(snake_case(id.skip(7), false) =~= seq!['i', 'a', 'n']);
    assert(id.skip(6).drop_first() =~= id.skip(7));
    assert(snake_case(id.skip(6), false) =~= seq!['r', 'i', 'a', 'n']);
    assert(id.skip(5).drop_first() =~= id.skip(6));
    assert(snake_case(id.skip(5), false) =~= seq!['t', 'r', 'i', 'a', 'n']);
    assert(id.skip(4).drop_first() =~= id.skip(5));
    assert(snake_case(id.skip(4), false) =~= seq!['s', 't', 'r', 'i', 'a', 'n']);
    assert(id.skip(3).drop_first() =~= id.skip(4));
    assert(snake_case(id.skip(3), false) =~= seq!['e', 's', 't', 'r', 'i', 'a', 'n']);
    assert(id.skip(2).drop_first() =~= id.skip(3));
    assert(snake_case(id.skip(2), false) =~= seq!['d', 'e', 's', 't', 'r', 'i', 'a', 'n']);
    assert(id.skip(1).drop_first() =~= id.skip(2));
    assert(snake_case(id.skip(1), false) =~= seq!['e', 'd', 'e', 's', 't', 'r', 'i', 'a', 'n']);
    assert(id.skip(0).drop_first() =~= id.skip(1));
    assert(snake_case(id.skip(0), true) =~= seq!['p', 'e', 'd', 'e', 's', 't', 'r', 'i', 'a', 'n']);
    assert(id.skip(0) =~= id);
}

proof fn lemma_snake_pole()
    ensures
        snake_case("Pole"@, true) == "pole"@,
{
    reveal_strlit("Pole");
    reveal_strlit("pole");
    let id = "Pole"@;
    assert(id.skip(4) =~= Seq::<char>::empty());
    assert(snake_case(id.skip(4), false) =~= Seq::<char>::empty());
    assert(id.skip(3).drop_first() =~= id.skip(4));
    assert(snake_case(id.skip(3), false) =~= seq!['e']);
    assert(id.skip(2).drop_first() =~= id.skip(3));
    assert(snake_case(id.skip(2), false) =~= seq!['l', 'e']);
    assert(id.skip(1).drop_first() =~= id.skip(2));
    assert(snake_case(id.skip(1), false) =~= seq!['o', 'l', 'e']);
    assert(id.skip(0).drop_first() =~= id.skip(1));
    assert(snake_case(id.skip(0), true) =~= seq!['p', 'o', 'l', 'e']);
    assert(id.skip(0) =~= id);
}

#[verifier::rlimit(50)]
proof fn lemma_snake_static_obstacle()
    ensures
        snake_case("StaticObstacle"@, true) == "static_obstacle"@,
{
    reveal_strlit("StaticObstacle");
    reveal_strlit("static_obstacle");
    let id = "StaticObstacle"@;
    assert(id.skip(14) =~= Seq::<char>::empty());
    assert(snake_case(id.skip(14), false) =~= Seq::<char>::empty());
    assert(id.skip(13).drop_first() =~= id.skip(14));
    assert(snake_case(id.skip(13), false) =~= seq!['e']);
    assert(id.skip(12).drop_first() =~= id.skip(13));
    assert(snake_case(id.skip(12), false) =~= seq!['l', 'e']);
    assert(id.skip(11).drop_first() =~= id.skip(12));
    assert(snake_case(id.skip(11), false) =~= seq!['c', 'l', 'e']);
    assert(id.skip(10).drop_first() =~= id.skip(11));
    assert(snake_case(id.skip(10), false) =~= seq!['a', 'c', 'l', 'e']);
    assert(id.skip(9).drop_first() =~= id.skip(10));
    assert(snake_case(id.skip(9), false) =~= seq!['t', 'a', 'c', 'l', 'e']);
    assert(id.skip(8).drop_first() =~= id.skip(9));
    assert(snake_case(id.skip(8), false) =~= seq!['s', 't', 'a', 'c', 'l', 'e']);
    assert(id.skip(7).drop_first() =~= id.skip(8));
    assert(snake_case(id.skip(7), false) =~= seq!['b', 's', 't', 'a', 'c', 'l', 'e']);
    assert(id.skip(6).drop_first() =~= id.skip(7));
    assert(snake_case(id.skip(6), false) =~= seq!['_', 'o', 'b', 's', 't', 'a', 'c', 'l', 'e']);
    assert(id.skip(5).drop_first() =~= id.skip(6));
    assert(snake_case(id.skip(5), false) =~= seq!['c', '_', 'o', 'b', 's', 't', 'a', 'c', 'l', 'e']);
    assert(id.skip(4).drop_first() =~= id.skip(5));
    assert(snake_case(id.skip(4), false) =~= seq!['i', 'c', '_', 'o', 'b', 's', 't', 'a', 'c', 'l', 'e']);
    assert(id.skip(3).drop_first() =~= id.skip(4));
    assert(snake_case(id.skip(3), false) =~= seq!['t', 'i', 'c', '_', 'o', 'b', 's', 't', 'a', 'c', 'l', 'e']);
    assert(id.skip(2).drop_first() =~= id.skip(3));
    assert(snake_case(id.skip(2), false) =~= seq!['a', 't', 'i', 'c', '_', 'o', 'b', 's', 't', 'a', 'c', 'l', 'e']);
    assert(id.skip(1).drop_first() =~= id.skip(2));
    assert(snake_case(id.skip(1), false) =~= seq!['t', 'a', 't', 'i', 'c', '_', 'o', 'b', 's', 't', 'a', 'c', 'l', 'e']);
    assert(id.skip(0).drop_first() =~= id.skip(1));
    assert(snake_case(id.skip(0), true) =~= seq!['s', 't', 'a', 't', 'i', 'c', '_', 'o', 'b', 's', 't', 'a', 'c', 'l', 'e']);
    assert(id.skip(0) =~= id);
}

proof fn lemma_snake_unknown()
    ensures
        snake_case("Unknown"@, true) == "unknown"@,
{
    reveal_strlit("Unknown");
    reveal_strlit("unknown");
    let id = "Unknown"@;
    assert(id.skip(7) =~= Seq::<char>::empty());
    assert(snake_case(id.skip(7), false) =~= Seq::<char>::empty());
    assert(id.skip(6).drop_first() =~= id.skip(7));
    assert(snake_case(id.skip(6), false) =~= seq!['n']);
    assert(id.skip(5).drop_first() =~= id.skip(6));
    assert(snake_case(id.skip(5), false) =~= seq!['w', 'n']);
    assert(id.skip(4).drop_first() =~= id.skip(5));
    assert(snake_case(id.skip(4), false) =~= seq!['o', 'w', 'n']);
    assert(id.skip(3).drop_first() =~= id.skip(4));
    assert(snake_case(id.skip(3), false) =~= seq!['n', 'o', 'w', 'n']);
    assert(id.skip(2).drop_first() =~= id.skip(3));
    assert(snake_case(id.skip(2), false) =~= seq!['k', 'n', 'o', 'w', 'n']);
    assert(id.skip(1).drop_first() =~= id.skip(2));
    assert(snake_case(id.skip(1), false) =~= seq!['n', 'k', 'n', 'o', 'w', 'n']);
    assert(id.skip(0).drop_first() =~= id.skip(1));
    assert(snake_case(id.skip(0), true) =~= seq!['u', 'n', 'k', 'n', 'o', 'w', 'n']);
    assert(id.skip(0) =~= id);
}

proof fn lemma_snake_vehicle()
    ensures
        snake_case("Vehicle"@, true) == "vehicle"@,
{
    reveal_strlit("Vehicle");
    reveal_strlit("vehicle");
    let id = "Vehicle"@;
    assert(id.skip(7) =~= Seq::<char>::empty());
    assert(snake_case(id.skip(7), false) =~= Seq::<char>::empty());
    assert(id.skip(6).drop_first() =~= id.skip(7));
    assert(snake_case(id.skip(6), false) =~= seq!['e']);
    assert(id.skip(5).drop_first() =~= id.skip(6));
    assert(snake_case(id.skip(5), false) =~= seq!['l', 'e']);
    assert(id.skip(4).drop_first() =~= id.skip(5));
    assert(snake_case(id.skip(4), false) =~= seq!['c', 'l', 'e']);
    assert(id.skip(3).drop_first() =~= id.skip(4));
    assert(snake_case(id.skip(3), false) =~= seq!['i', 'c', 'l', 'e']);
    assert(id.skip(2).drop_first() =~= id.skip(3));
    assert(snake_case(id.skip(2), false) =~= seq!['h', 'i', 'c', 'l', 'e']);
    assert(id.skip(1).drop_first() =~= id.skip(2));
    assert(snake_case(id.skip(1), false) =~= seq!['e', 'h', 'i', 'c', 'l', 'e']);
    assert(id.skip(0).drop_first() =~= id.skip(1));
    assert(snake_case(id.skip(0), true) =~= seq!['v', 'e', 'h', 'i', 'c', 'l', 'e']);
    assert(id.skip(0) =~= id);
}

proof fn lemma_snake_wall()
    ensures
        snake_case("Wall"@, true) == "wall"@,
{
    reveal_strlit("Wall");
    reveal_strlit("wall");
    let id = "Wall"@;
    assert(id.skip(4) =~= Seq::<char>::empty());
    assert(snake_case(id.skip(4), false) =~= Seq::<char>::empty());
    assert(id.skip(3).drop_first() =~= id.skip(4));
    assert(snake_case(id.skip(3), false) =~= seq!['l']);
    assert(id.skip(2).drop_first() =~= id.skip(3));
    assert(snake_case(id.skip(2), false) =~= seq!['l', 'l']);
    assert(id.skip(1).drop_first() =~= id.skip(2));
    assert(snake_case(id.skip(1), false) =~= seq!['a', 'l', 'l']);
    assert(id.skip(0).drop_first() =~= id.skip(1));
    assert(snake_case(id.skip(0), true) =~= seq!['w', 'a', 'l', 'l']);
    assert(id.skip(0) =~= id);
}

proof fn lemma_lower_wall()
    ensures
        lower_case("Wall"@) == "wall"@,
{
    reveal_strlit("Wall");
    reveal_strlit("wall");
    let id = "Wall"@;
    assert(id.skip(4) =~= Seq::<char>::empty());
    assert(lower_case(id.skip(4)) =~= Seq::<char>::empty());
    assert(id.skip(3).drop_first() =~= id.skip(4));
    assert(lower_case(id.skip(3)) =~= seq!['l']);
    assert(id.skip(2).drop_first() =~= id.skip(3));
    assert(lower_case(id.skip(2)) =~= seq!['l', 'l']);
    assert(id.skip(1).drop_first() =~= id.skip(2));
    assert(lower_case(id.skip(1)) =~= seq!['a', 'l', 'l']);
    assert(id.skip(0).drop_first() =~= id.skip(1));
    assert(lower_case(id.skip(0)) =~= seq!['w', 'a', 'l', 'l']);
    assert(id.skip(0) =~= id);
}

proof fn lemma_lower_pole()
    ensures
        lower_case("Pole"@) == "pole"@,
{
    reveal_strlit("Pole");
    reveal_strlit("pole");
    let id = "Pole"@;
    assert(id.skip(4) =~= Seq::<char>::empty());
    assert(lower_case(id.skip(4)) =~= Seq::<char>::empty());
    assert(id.skip(3).drop_first() =~= id.skip(4));
    assert(lower_case(id.skip(3)) =~= seq!['e']);
    assert(id.skip(2).drop_first() =~= id.skip(3));
    assert(lower_case(id.skip(2)) =~= seq!['l', 'e']);
    assert(id.skip(1).drop_first() =~= id.skip(2));
    assert(lower_case(id.skip(1)) =~= seq!['o', 'l', 'e']);
    assert(id.skip(0).drop_first() =~= id.skip(1));
    assert(lower_case(id.skip(0)) =~= seq!['p', 'o', 'l', 'e']);
    assert(id.skip(0) =~= id);
}

proof fn lemma_lower_barrier()
    ensures
        lower_case("Barrier"@) == "barrier"@,
{
    reveal_strlit("Barrier");
    reveal_strlit("barrier");
    let id = "Barrier"@;
    assert(id.skip(7) =~= Seq::<char>::empty());
    assert(lower_case(id.skip(7)) =~= Seq::<char>::empty());
    assert(id.skip(6).drop_first() =~= id.skip(7));
    assert(lower_case(id.skip(6)) =~= seq!['r']);
    assert(id.skip(5).drop_first() =~= id.skip(6));
    assert(lower_case(id.skip(5)) =~= seq!['e', 'r']);
    assert(id.skip(4).drop_first() =~= id.skip(5));
    assert(lower_case(id.skip(4)) =~= seq!['i', 'e', 'r']);
    assert(id.skip(3).drop_first() =~= id.skip(4));
    assert(lower_case(id.skip(3)) =~= seq!['r', 'i', 'e', 'r']);
    assert(id.skip(2).drop_first() =~= id.skip(3));
    assert(lower_case(id.skip(2)) =~= seq!['r', 'r', 'i', 'e', 'r']);
    assert(id.skip(1).drop_first() =~= id.skip(2));
    assert(lower_case(id.skip(1)) =~= seq!['a', 'r', 'r', 'i', 'e', 'r']);
    assert(id.skip(0).drop_first() =~= id.skip(1));
    assert(lower_case(id.skip(0)) =~= seq!['b', 'a', 'r', 'r', 'i', 'e', 'r']);
    assert(id.skip(0) =~= id);
}

#[verifier::rlimit(50)]
proof fn lemma_lower_static_obstacle()
    ensures
        lower_case("StaticObstacle"@) == "staticobstacle"@,
{
    reveal_strlit("StaticObstacle");
    reveal_strlit("staticobstacle");
    let id = "StaticObstacle"@;
    assert(id.skip(14) =~= Seq::<char>::empty());
    assert(lower_case(id.skip(14)) =~= Seq::<char>::empty());
    assert(id.skip(13).drop_first() =~= id.skip(14));
    assert(lower_case(id.skip(13)) =~= seq!['e']);
    assert(id.skip(12).drop_first() =~= id.skip(13));
    assert(lower_case(id.skip(12)) =~= seq!['l', 'e']);
    assert(id.skip(11).drop_first() =~= id.skip(12));
    assert(lower_case(id.skip(11)) =~= seq!['c', 'l', 'e']);
    assert(id.skip(10).drop_first() =~= id.skip(11));
    assert(lower_case(id.skip(10)) =~= seq!['a', 'c', 'l', 'e']);
    assert(id.skip(9).drop_first() =~= id.skip(10));
    assert(lower_case(id.skip(9)) =~= seq!['t', 'a', 'c', 'l', 'e']);
    assert(id.skip(8).drop_first() =~= id.skip(9));
    assert(lower_case(id.skip(8)) =~= seq!['s', 't', 'a', 'c', 'l', 'e']);
    assert(id.skip(7).drop_first() =~= id.skip(8));
    assert(lower_case(id.skip(7)) =~= seq!['b', 's', 't', 'a', 'c', 'l', 'e']);
    assert(id.skip(6).drop_first() =~= id.skip(7));
    assert(lower_case(id.skip(6)) =~= seq!['o', 'b', 's', 't', 'a', 'c', 'l', 'e']);
    assert(id.skip(5).drop_first() =~= id.skip(6));
    assert(lower_case(id.skip(5)) =~= seq!['c', 'o', 'b', 's', 't', 'a', 'c', 'l', 'e']);
    assert(id.skip(4).drop_first() =~= id.skip(5));
    assert(lower_case(id.skip(4)) =~= seq!['i', 'c', 'o', 'b', 's', 't', 'a', 'c', 'l', 'e']);
    assert(id.skip(3).drop_first() =~= id.skip(4));
    assert(lower_case(id.skip(3)) =~= seq!['t', 'i', 'c', 'o', 'b', 's', 't', 'a', 'c', 'l', 'e']);
    assert(id.skip(2).drop_first() =~= id.skip(3));
    assert(lower_case(id.skip(2)) =~= seq!['a', 't', 'i', 'c', 'o', 'b', 's', 't', 'a', 'c', 'l', 'e']);
    assert(id.skip(1).drop_first() =~= id.skip(2));
    assert(lower_case(id.skip(1)) =~= seq!['t', 'a', 't', 'i', 'c', 'o', 'b', 's', 't', 'a', 'c', 'l', 'e']);
    assert(id.skip(0).drop_first() =~= id.skip(1));
    assert(lower_case(id.skip(0)) =~= seq!['s', 't', 'a', 't', 'i', 'c', 'o', 'b', 's', 't', 'a', 'c', 'l', 'e']);
    assert(id.skip(0) =~= id);
}

proof fn lemma_lower_pedestrian()
    ensures
        lower_case("Pedestrian"@) == "pedestrian"@,
{
    reveal_strlit("Pedestrian");
    reveal_strlit("pedestrian");
    let id = "Pedestrian"@;
    assert(id.skip(10) =~= Seq::<char>::empty());
    assert(lower_case(id.skip(10)) =~= Seq::<char>::empty());
    assert(id.skip(9).drop_first() =~= id.skip(10));
    assert(lower_case(id.skip(9)) =~= seq!['n']);
    assert(id.skip(8).drop_first() =~= id.skip(9));
    assert(lower_case(id.skip(8)) =~= seq!['a', 'n']);
    assert(id.skip(7).drop_first() =~= id.skip(8));
    assert(lower_case(id.skip(7)) =~= seq!['i', 'a', 'n']);
    assert(id.skip(6).drop_first() =~= id.skip(7));
    assert(lower_case(id.skip(6)) =~= seq!['r', 'i', 'a', 'n']);
    assert(id.skip(5).drop_first() =~= id.skip(6));
    assert(lower_case(id.skip(5)) =~= seq!['t', 'r', 'i', 'a', 'n']);
    assert(id.skip(4).drop_first() =~= id.skip(5));
    assert(lower_case(id.skip(4)) =~= seq!['s', 't', 'r', 'i', 'a', 'n']);
    assert(id.skip(3).drop_first() =~= id.skip(4));
    assert(lower_case(id.skip(3)) =~= seq!['e', 's', 't', 'r', 'i', 'a', 'n']);
    assert(id.skip(2).drop_first() =~= id.skip(3));
    assert(lower_case(id.skip(2)) =~= seq!['d', 'e', 's', 't', 'r', 'i', 'a', 'n']);
    assert(id.skip(1).drop_first() =~= id.skip(2));
    assert(lower_case(id.skip(1)) =~= seq!['e', 'd', 'e', 's', 't', 'r', 'i', 'a', 'n']);
    assert(id.skip(0).drop_first() =~= id.skip(1));
    assert(lower_case(id.skip(0)) =~= seq!['p', 'e', 'd', 'e', 's', 't', 'r', 'i', 'a', 'n']);
    assert(id.skip(0) =~= id);
}

proof fn lemma_lower_vehicle()
    ensures
        lower_case("Vehicle"@) == "vehicle"@,
{
    reveal_strlit("Vehicle");
    reveal_strlit("vehicle");
    let id = "Vehicle"@;
    assert(id.skip(7) =~= Seq::<char>::empty());
    assert(lower_case(id.skip(7)) =~= Seq::<char>::empty());
    assert(id.skip(6).drop_first() =~= id.skip(7));
    assert(lower_case(id.skip(6)) =~= seq!['e']);
    assert(id.skip(5).drop_first() =~= id.skip(6));
    assert(lower_case(id.skip(5)) =~= seq!['l', 'e']);
    assert(id.skip(4).drop_first() =~= id.skip(5));
    assert(lower_case(id.skip(4)) =~= seq!['c', 'l', 'e']);
    assert(id.skip(3).drop_first() =~= id.skip(4));
    assert(lower_case(id.skip(3)) =~= seq!['i', 'c', 'l', 'e']);
    assert(id.skip(2).drop_first() =~= id.skip(3));
    assert(lower_case(id.skip(2)) =~= seq!['h', 'i', 'c', 'l', 'e']);
    assert(id.skip(1).drop_first() =~= id.skip(2));
    assert(lower_case(id.skip(1)) =~= seq!['e', 'h', 'i', 'c', 'l', 'e']);
    assert(id.skip(0).drop_first() =~= id.skip(1));
    assert(lower_case(id.skip(0)) =~= seq!['v', 'e', 'h', 'i', 'c', 'l', 'e']);
    assert(id.skip(0) =~= id);
}

proof fn lemma_lower_cyclist()
    ensures
        lower_case("Cyclist"@) == "cyclist"@,
{
    reveal_strlit("Cyclist");
    reveal_strlit("cyclist");
    let id = "Cyclist"@;
    assert(id.skip(7) =~= Seq::<char>::empty());
    assert(lower_case(id.skip(7)) =~= Seq::<char>::empty());
    assert(id.skip(6).drop_first() =~= id.skip(7));
    assert(lower_case(id.skip(6)) =~= seq!['t']);
    assert(id.skip(5).drop_first() =~= id.skip(6));
    assert(lower_case(id.skip(5)) =~= seq!['s', 't']);
    assert(id.skip(4).drop_first() =~= id.skip(5));
    assert(lower_case(id.skip(4)) =~= seq!['i', 's', 't']);
    assert(id.skip(3).drop_first() =~= id.skip(4));
    assert(lower_case(id.skip(3)) =~= seq!['l', 'i', 's', 't']);
    assert(id.skip(2).drop_first() =~= id.skip(3));
    assert(lower_case(id.skip(2)) =~= seq!['c', 'l', 'i', 's', 't']);
    assert(id.skip(1).drop_first() =~= id.skip(2));
    assert(lower_case(id.skip(1)) =~= seq!['y', 'c', 'l', 'i', 's', 't']);
    assert(id.skip(0).drop_first() =~= id.skip(1));
    assert(lower_case(id.skip(0)) =~= seq!['c', 'y', 'c', 'l', 'i', 's', 't']);
    assert(id.skip(0) =~= id);
}

proof fn lemma_lower_other_dynamic()
    ensures
        lower_case("OtherDynamic"@) == "otherdynamic"@,
{
    reveal_strlit("OtherDynamic");
    reveal_strlit("otherdynamic");
    let id = "OtherDynamic"@;
    assert(id.skip(12) =~= Seq::<char>::empty());
    assert(lower_case(id.skip(12)) =~= Seq::<char>::empty());
    assert(id.skip(11).drop_first() =~= id.skip(12));
    assert(lower_case(id.skip(11)) =~= seq!['c']);
    assert(id.skip(10).drop_first() =~= id.skip(11));
    assert(lower_case(id.skip(10)) =~= seq!['i', 'c']);
    assert(id.skip(9).drop_first() =~= id.skip(10));
    assert(lower_case(id.skip(9)) =~= seq!['m', 'i', 'c']);
    assert(id.skip(8).drop_first() =~= id.skip(9));
    assert(lower_case(id.skip(8)) =~= seq!['a', 'm', 'i', 'c']);
    assert(id.skip(7).drop_first() =~= id.skip(8));
    assert(lower_case(id.skip(7)) =~= seq!['n', 'a', 'm', 'i', 'c']);
    assert(id.skip(6).drop_first() =~= id.skip(7));
    assert(lower_case(id.skip(6)) =~= seq!['y', 'n', 'a', 'm', 'i', 'c']);
    assert(id.skip(5).drop_first() =~= id.skip(6));
    assert(lower_case(id.skip(5)) =~= seq!['d', 'y', 'n', 'a', 'm', 'i', 'c']);
    assert(id.skip(4).drop_first() =~= id.skip(5));
    assert(lower_case(id.skip(4)) =~= seq!['r', 'd', 'y', 'n', 'a', 'm', 'i', 'c']);
    assert(id.skip(3).drop_first() =~= id.skip(4));
    assert(lower_case(id.skip(3)) =~= seq!['e', 'r', 'd', 'y', 'n', 'a', 'm', 'i', 'c']);
    assert(id.skip(2).drop_first() =~= id.skip(3));
    assert(lower_case(id.skip(2)) =~= seq!['h', 'e', 'r', 'd', 'y', 'n', 'a', 'm', 'i', 'c']);
    assert(id.skip(1).drop_first() =~= id.skip(2));
    assert(lower_case(id.skip(1)) =~= seq!['t', 'h', 'e', 'r', 'd', 'y', 'n', 'a', 'm', 'i', 'c']);
    assert(id.skip(0).drop_first() =~= id.skip(1));
    assert(lower_case(id.skip(0)) =~= seq!['o', 't', 'h', 'e', 'r', 'd', 'y', 'n', 'a', 'm', 'i', 'c']);
    assert(id.skip(0) =~= id);
}

impl TerrainClass {
    /// The identifier of the variant, as written in the enum.
    pub open spec fn variant_name(self) -> Seq<char> {
        match self {
            TerrainClass::Unknown => "Unknown"@,
            TerrainClass::Drivable => "Drivable"@,
            TerrainClass::NonDrivable => "NonDrivable"@,
        }
    }
}

/// Each terrain class is stored under its own variant's name in snake case.
pub proof fn law_terrain_names_snake_case(c: TerrainClass)
    ensures
        c.spec_name() == snake_case(c.variant_name(), true),
{
    match c {
        TerrainClass::Unknown => lemma_snake_unknown(),
        TerrainClass::Drivable => lemma_snake_drivable(),
        TerrainClass::NonDrivable => lemma_snake_non_drivable(),
    }
}

impl SemanticClass {
    /// The identifier of the variant, as written in the enum.
    pub open spec fn variant_name(self) -> Seq<char> {
        match self {
            SemanticClass::Unknown => "Unknown"@,
            SemanticClass::DrivableTerrain => "DrivableTerrain"@,
            SemanticClass::NonDrivableTerrain => "NonDrivableTerrain"@,
            SemanticClass::Wall => "Wall"@,
            SemanticClass::Pole => "Pole"@,
            SemanticClass::Barrier => "Barrier"@,
            SemanticClass::StaticObstacle => "StaticObstacle"@,
            SemanticClass::Pedestrian => "Pedestrian"@,
            SemanticClass::Vehicle => "Vehicle"@,
            SemanticClass::OtherDynamic => "OtherDynamic"@,
        }
    }
}

/// Each semantic class is stored and listed under its own variant's name in
/// snake case: `Wall` as `wall`, `StaticObstacle` as `static_obstacle`.
pub proof fn law_semantic_names_snake_case(c: SemanticClass)
    ensures
        c.spec_name() == snake_case(c.variant_name(), true),
{
    match c {
        SemanticClass::Unknown => lemma_snake_unknown(),
        SemanticClass::DrivableTerrain => lemma_snake_drivable_terrain(),
        SemanticClass::NonDrivableTerrain => lemma_snake_non_drivable_terrain(),
        SemanticClass::Wall => lemma_snake_wall(),
        SemanticClass::Pole => lemma_snake_pole(),
        SemanticClass::Barrier => lemma_snake_barrier(),
        SemanticClass::StaticObstacle => lemma_snake_static_obstacle(),
        SemanticClass::Pedestrian => lemma_snake_pedestrian(),
        SemanticClass::Vehicle => lemma_snake_vehicle(),
        SemanticClass::OtherDynamic => lemma_snake_other_dynamic(),
    }
}

impl ObjectClass {
    /// The identifier of the variant, as written in the enum.
    pub open spec fn variant_name(self) -> Seq<char> {
        match self {
            ObjectClass::Wall => "Wall"@,
            ObjectClass::Pole => "Pole"@,
            ObjectClass::Barrier => "Barrier"@,
            ObjectClass::StaticObstacle => "StaticObstacle"@,
            ObjectClass::Pedestrian => "Pedestrian"@,
            ObjectClass::Vehicle => "Vehicle"@,
            ObjectClass::Cyclist => "Cyclist"@,
            ObjectClass::OtherDynamic => "OtherDynamic"@,
        }
    }
}

/// Each object class is stored under its own variant's name in lower case.
pub proof fn law_object_names_lower_case(c: ObjectClass)
    ensures
        c.spec_storage_name() == lower_case(c.variant_name()),
{
    match c {
        ObjectClass::Wall => lemma_lower_wall(),
        ObjectClass::Pole => lemma_lower_pole(),
        ObjectClass::Barrier => lemma_lower_barrier(),
        ObjectClass::StaticObstacle => lemma_lower_static_obstacle(),
        ObjectClass::Pedestrian => lemma_lower_pedestrian(),
        ObjectClass::Vehicle => lemma_lower_vehicle(),
        ObjectClass::Cyclist => lemma_lower_cyclist(),
        ObjectClass::OtherDynamic => lemma_lower_other_dynamic(),
    }
}

} // verus!
