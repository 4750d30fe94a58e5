//! Which structures are placed together.

use crate::command::locate::StructureKeys;
use vstd::prelude::*;

verus! {

/// One structure of a set.
#[derive(Debug)]
pub struct StructureEntry {
    pub structure: StructureKeys,
}

/// Structures that are placed by one rule.
#[derive(Debug)]
pub struct StructureSet {
    pub name: &'static str,
    pub structures: Vec<StructureEntry>,
}

/// The structure sets with what they list.
pub open spec fn set_table() -> Seq<(Seq<char>, Seq<StructureKeys>)> {
    seq![
        ("villages"@, seq![StructureKeys::VillagePlains, StructureKeys::VillageDesert, StructureKeys::VillageSavanna, StructureKeys::VillageSnowy, StructureKeys::VillageTaiga]),
        ("desert_pyramids"@, seq![StructureKeys::DesertPyramid]),
        ("igloos"@, seq![StructureKeys::Igloo]),
        ("jungle_temples"@, seq![StructureKeys::JunglePyramid]),
        ("swamp_huts"@, seq![StructureKeys::SwampHut]),
        ("pillager_outposts"@, seq![StructureKeys::PillagerOutpost]),
        ("ocean_monuments"@, seq![StructureKeys::Monument]),
        ("woodland_mansions"@, seq![StructureKeys::Mansion]),
        ("buried_treasures"@, seq![StructureKeys::BuriedTreasure]),
        ("mineshafts"@, seq![StructureKeys::Mineshaft, StructureKeys::MineshaftMesa]),
        ("ruined_portals"@, seq![StructureKeys::RuinedPortal, StructureKeys::RuinedPortalDesert, StructureKeys::RuinedPortalJungle, StructureKeys::RuinedPortalSwamp, StructureKeys::RuinedPortalMountain, StructureKeys::RuinedPortalOcean, StructureKeys::RuinedPortalNether]),
        ("shipwrecks"@, seq![StructureKeys::Shipwreck, StructureKeys::ShipwreckBeached]),
        ("ocean_ruins"@, seq![StructureKeys::OceanRuinCold, StructureKeys::OceanRuinWarm]),
        ("nether_complexes"@, seq![StructureKeys::Fortress, StructureKeys::BastionRemnant]),
        ("nether_fossils"@, seq![StructureKeys::NetherFossil]),
        ("end_cities"@, seq![StructureKeys::EndCity]),
        ("strongholds"@, seq![StructureKeys::Stronghold]),
        ("ancient_cities"@, seq![StructureKeys::AncientCity]),
        ("trail_ruins"@, seq![StructureKeys::TrailRuins]),
        ("trial_chambers"@, seq![StructureKeys::TrialChambers]),
    ]
}

impl View for StructureSet {
    type V = (Seq<char>, Seq<StructureKeys>);

    open spec fn view(&self) -> (Seq<char>, Seq<StructureKeys>) {
        (self.name@, self.structures@.map_values(|entry: StructureEntry| entry.structure))
    }
}

/// The names and members of a sequence of sets.
pub open spec fn set_views(sets: Seq<StructureSet>) -> Seq<(Seq<char>, Seq<StructureKeys>)> {
    sets.map_values(|set: StructureSet| set@)
}

/// The sets that list a structure, in the order of the table.
pub open spec fn sets_listing(
    sets: Seq<(Seq<char>, Seq<StructureKeys>)>,
    key: StructureKeys,
) -> Seq<(Seq<char>, Seq<StructureKeys>)> {
    sets.filter(|set: (Seq<char>, Seq<StructureKeys>)| set.1.contains(key))
}

fn structure_set(name: &'static str, keys: &[StructureKeys]) -> (set: StructureSet)
    ensures
        set@ == (name@, keys@),
{
    let mut structures: Vec<StructureEntry> = Vec::new();
    for i in 0..keys.len()
        invariant
            structures@.len() == i,
            forall|j: int| 0 <= j < i ==> (#[trigger] structures@[j]).structure == keys@[j],
    {
        structures.push(StructureEntry { structure: keys[i] });
    }
    let set = StructureSet { name, structures };
    assert(set@.1 =~= keys@);
    set
}

/// The structure sets.
fn structure_sets() -> (sets: Vec<StructureSet>)
    ensures
        set_views(sets@) == set_table(),
{
    let mut sets: Vec<StructureSet> = Vec::new();
    sets.push(structure_set("villages", &[StructureKeys::VillagePlains, StructureKeys::VillageDesert, StructureKeys::VillageSavanna, StructureKeys::VillageSnowy, StructureKeys::VillageTaiga]));
    sets.push(structure_set("desert_pyramids", &[StructureKeys::DesertPyramid]));
    sets.push(structure_set("igloos", &[StructureKeys::Igloo]));
    sets.push(structure_set("jungle_temples", &[StructureKeys::JunglePyramid]));
    sets.push(structure_set("swamp_huts", &[StructureKeys::SwampHut]));
    sets.push(structure_set("pillager_outposts", &[StructureKeys::PillagerOutpost]));
    sets.push(structure_set("ocean_monuments", &[StructureKeys::Monument]));
    sets.push(structure_set("woodland_mansions", &[StructureKeys::Mansion]));
    sets.push(structure_set("buried_treasures", &[StructureKeys::BuriedTreasure]));
    sets.push(structure_set("mineshafts", &[StructureKeys::Mineshaft, StructureKeys::MineshaftMesa]));
    sets.push(structure_set("ruined_portals", &[StructureKeys::RuinedPortal, StructureKeys::RuinedPortalDesert, StructureKeys::RuinedPortalJungle, StructureKeys::RuinedPortalSwamp, StructureKeys::RuinedPortalMountain, StructureKeys::RuinedPortalOcean, StructureKeys::RuinedPortalNether]));
    sets.push(structure_set("shipwrecks", &[StructureKeys::Shipwreck, StructureKeys::ShipwreckBeached]));
    sets.push(structure_set("ocean_ruins", &[StructureKeys::OceanRuinCold, StructureKeys::OceanRuinWarm]));
    sets.push(structure_set("nether_complexes", &[StructureKeys::Fortress, StructureKeys::BastionRemnant]));
    sets.push(structure_set("nether_fossils", &[StructureKeys::NetherFossil]));
    sets.push(structure_set("end_cities", &[StructureKeys::EndCity]));
    sets.push(structure_set("strongholds", &[StructureKeys::Stronghold]));
    sets.push(structure_set("ancient_cities", &[StructureKeys::AncientCity]));
    sets.push(structure_set("trail_ruins", &[StructureKeys::TrailRuins]));
    sets.push(structure_set("trial_chambers", &[StructureKeys::TrialChambers]));
    let ghost table = set_table();
    assert forall|i: int| 0 <= i < table.len() implies (#[trigger] sets@[i])@ == table[i] by {
        assert(sets@[i]@.1 =~= table[i].1);
    }
    assert(set_views(sets@) =~= table);
    sets
}

impl StructureSet {
    /// Whether the set lists a structure.
    #[must_use]
    pub fn lists(&self, key: StructureKeys) -> (listed: bool)
        ensures
            listed == self@.1.contains(key),
    {
        for i in 0..self.structures.len()
            invariant
                forall|j: int| 0 <= j < i ==> #[trigger] self@.1[j] != key,
        {
            if self.structures[i].structure == key {
                assert(self@.1[i as int] == key);
                return true;
            }
        }
        false
    }
}

/// The structure sets that can place a structure.
#[must_use]
pub fn sets_containing(key: StructureKeys) -> (found: Vec<StructureSet>)
    ensures
        set_views(found@) == sets_listing(set_table(), key),
{
    let mut rest: Vec<StructureSet> = structure_sets();
    let mut found: Vec<StructureSet> = Vec::new();
    let ghost table = set_table();
    let ghost mut seen: int = 0;
    while rest.len() > 0
        invariant
            table == set_table(),
            0 <= seen <= table.len(),
            set_views(rest@) == table.skip(seen),
            set_views(found@) == sets_listing(table.take(seen), key),
        decreases rest.len(),
    {
        let ghost left = rest@;
        let ghost before = found@;
        let set = rest.remove(0);
        proof {
            assert(set_views(left).len() == left.len());
            assert(set_views(left)[0] == set@);
            assert(table.skip(seen)[0] == set@);
            assert(table.take(seen + 1) =~= table.take(seen).push(set@));
            lemma_listing_push(table.take(seen), set@, key);
        }
        if set.lists(key) {
            found.push(set);
            assert(set_views(found@) =~= set_views(before).push(set@));
        }
        proof {
            assert(rest@ =~= left.skip(1));
            assert(set_views(rest@) =~= set_views(left).skip(1));
            assert(table.skip(seen).skip(1) =~= table.skip(seen + 1));
            seen = seen + 1;
        }
    }
    proof {
        assert(table.take(seen) =~= table);
    }
    found
}

proof fn lemma_listing_push(
    sets: Seq<(Seq<char>, Seq<StructureKeys>)>,
    set: (Seq<char>, Seq<StructureKeys>),
    key: StructureKeys,
)
    ensures
        sets_listing(sets.push(set), key) == (if set.1.contains(key) {
            sets_listing(sets, key).push(set)
        } else {
            sets_listing(sets, key)
        }),
{
    reveal(Seq::filter);
    assert(sets.push(set).drop_last() =~= sets);
}

/// Where in the table of sets a structure is listed.
spec fn home(key: StructureKeys) -> (int, int) {
    match key {
        StructureKeys::PillagerOutpost => (5, 0),
        StructureKeys::Mineshaft => (9, 0),
        StructureKeys::MineshaftMesa => (9, 1),
        StructureKeys::Mansion => (7, 0),
        StructureKeys::JunglePyramid => (3, 0),
        StructureKeys::DesertPyramid => (1, 0),
        StructureKeys::Igloo => (2, 0),
        StructureKeys::Shipwreck => (11, 0),
        StructureKeys::ShipwreckBeached => (11, 1),
        StructureKeys::SwampHut => (4, 0),
        StructureKeys::Stronghold => (16, 0),
        StructureKeys::Monument => (6, 0),
        StructureKeys::OceanRuinCold => (12, 0),
        StructureKeys::OceanRuinWarm => (12, 1),
        StructureKeys::Fortress => (13, 0),
        StructureKeys::NetherFossil => (14, 0),
        StructureKeys::EndCity => (15, 0),
        StructureKeys::BuriedTreasure => (8, 0),
        StructureKeys::BastionRemnant => (13, 1),
        StructureKeys::VillagePlains => (0, 0),
        StructureKeys::VillageDesert => (0, 1),
        StructureKeys::VillageSavanna => (0, 2),
        StructureKeys::VillageSnowy => (0, 3),
        StructureKeys::VillageTaiga => (0, 4),
        StructureKeys::RuinedPortal => (10, 0),
        StructureKeys::RuinedPortalDesert => (10, 1),
        StructureKeys::RuinedPortalJungle => (10, 2),
        StructureKeys::RuinedPortalSwamp => (10, 3),
        StructureKeys::RuinedPortalMountain => (10, 4),
        StructureKeys::RuinedPortalOcean => (10, 5),
        StructureKeys::RuinedPortalNether => (10, 6),
        StructureKeys::AncientCity => (17, 0),
        StructureKeys::TrailRuins => (18, 0),
        StructureKeys::TrialChambers => (19, 0),
    }
}

/// A structure is listed where it is at home and nowhere else.
proof fn lemma_home(key: StructureKeys)
    ensures
        0 <= home(key).0 < set_table().len(),
        set_table()[home(key).0].1.contains(key),
        forall|i: int|
            0 <= i < set_table().len() && #[trigger] set_table()[i].1.contains(key) ==> i == home(
                key,
            ).0,
{
    let table = set_table();
    let (i, j) = home(key);
    assert(table[i].1[j] == key);
}

proof fn lemma_one_listed(
    sets: Seq<(Seq<char>, Seq<StructureKeys>)>,
    key: StructureKeys,
    at: int,
)
    requires
        forall|i: int|
            0 <= i < sets.len() ==> (#[trigger] sets[i].1.contains(key) <==> i == at),
    ensures
        sets_listing(sets, key) == (if 0 <= at < sets.len() {
            seq![sets[at]]
        } else {
            Seq::empty()
        }),
    decreases sets.len(),
{
    if sets.len() == 0 {
        reveal(Seq::filter);
        assert(sets_listing(sets, key) =~= Seq::empty());
    } else {
        let shorter = sets.drop_last();
        assert forall|i: int| 0 <= i < shorter.len() implies (#[trigger] shorter[i].1.contains(key)
            <==> i == at) by {
            assert(sets[i].1.contains(key) <==> i == at);
        }
        lemma_one_listed(shorter, key, at);
        assert(shorter.push(sets.last()) =~= sets);
        lemma_listing_push(shorter, sets.last(), key);
        assert(sets[sets.len() - 1].1.contains(key) <==> sets.len() - 1 == at);
        if at == sets.len() - 1 {
            assert(Seq::empty().push(sets.last()) =~= seq![sets[at]]);
        }
    }
}

/// Every structure is placed by exactly one set.
pub proof fn law_every_structure_is_placed(key: StructureKeys)
    ensures
        sets_listing(set_table(), key).len() == 1,
        sets_listing(set_table(), key)[0].1.contains(key),
{
    lemma_home(key);
    lemma_one_listed(set_table(), key, home(key).0);
}

/// The one set that lists a structure is the one of its kind.
pub proof fn law_structures_are_in_their_sets(key: StructureKeys)
    ensures
        sets_listing(set_table(), key).len() == 1,
        sets_listing(set_table(), key)[0].0 == (match key {
            StructureKeys::VillagePlains
            | StructureKeys::VillageDesert
            | StructureKeys::VillageSavanna
            | StructureKeys::VillageSnowy
            | StructureKeys::VillageTaiga => "villages"@,
            StructureKeys::DesertPyramid => "desert_pyramids"@,
            StructureKeys::Igloo => "igloos"@,
            StructureKeys::JunglePyramid => "jungle_temples"@,
            StructureKeys::SwampHut => "swamp_huts"@,
            StructureKeys::PillagerOutpost => "pillager_outposts"@,
            StructureKeys::Monument => "ocean_monuments"@,
            StructureKeys::Mansion => "woodland_mansions"@,
            StructureKeys::BuriedTreasure => "buried_treasures"@,
            StructureKeys::Mineshaft
            | StructureKeys::MineshaftMesa => "mineshafts"@,
            StructureKeys::RuinedPortal
            | StructureKeys::RuinedPortalDesert
            | StructureKeys::RuinedPortalJungle
            | StructureKeys::RuinedPortalSwamp
            | StructureKeys::RuinedPortalMountain
            | StructureKeys::RuinedPortalOcean
            | StructureKeys::RuinedPortalNether => "ruined_portals"@,
            StructureKeys::Shipwreck
            | StructureKeys::ShipwreckBeached => "shipwrecks"@,
            StructureKeys::OceanRuinCold
            | StructureKeys::OceanRuinWarm => "ocean_ruins"@,
            StructureKeys::Fortress
            | StructureKeys::BastionRemnant => "nether_complexes"@,
            StructureKeys::NetherFossil => "nether_fossils"@,
            StructureKeys::EndCity => "end_cities"@,
            StructureKeys::Stronghold => "strongholds"@,
            StructureKeys::AncientCity => "ancient_cities"@,
            StructureKeys::TrailRuins => "trail_ruins"@,
            StructureKeys::TrialChambers => "trial_chambers"@,
        }),
        sets_listing(set_table(), key)[0].1.contains(key),
{
    law_every_structure_is_placed(key);
    lemma_home(key);
    lemma_one_listed(set_table(), key, home(key).0);
}

/// The sets that list a structure are exactly those of the table whose members it is among, in
/// the order of the table.
pub proof fn law_listing_picks_members(
    sets: Seq<(Seq<char>, Seq<StructureKeys>)>,
    set: (Seq<char>, Seq<StructureKeys>),
    key: StructureKeys,
)
    ensures
        sets_listing(Seq::empty(), key) == Seq::<(Seq<char>, Seq<StructureKeys>)>::empty(),
        set.1.contains(key) ==> sets_listing(sets.push(set), key) == sets_listing(sets, key).push(
            set,
        ),
        !set.1.contains(key) ==> sets_listing(sets.push(set), key) == sets_listing(sets, key),
{
    reveal(Seq::filter);
    assert(sets_listing(Seq::empty(), key) =~= Seq::empty());
    lemma_listing_push(sets, set, key);
}

/// A set is its name and the structures that it lists, in order.
pub proof fn law_sets_are_name_and_members(set: StructureSet, i: int)
    requires
        0 <= i < set.structures@.len(),
    ensures
        set@.0 == set.name@,
        set@.1.len() == set.structures@.len(),
        set@.1[i] == set.structures@[i].structure,
{
}

} // verus!
