//! Structure names, and what the `locate` command answers.

use crate::text::same_text;
use vstd::prelude::*;
use vstd::string::*;

verus! {

/// How far out a search goes, in rings of chunk regions around the origin.
pub const MAX_SEARCH_RADIUS: i32 = 100;

/// Every kind of structure.
#[derive(Clone, Copy, Debug, PartialEq, Eq, Structural)]
pub enum StructureKeys {
    PillagerOutpost,
    Mineshaft,
    MineshaftMesa,
    Mansion,
    JunglePyramid,
    DesertPyramid,
    Igloo,
    Shipwreck,
    ShipwreckBeached,
    SwampHut,
    Stronghold,
    Monument,
    OceanRuinCold,
    OceanRuinWarm,
    Fortress,
    NetherFossil,
    EndCity,
    BuriedTreasure,
    BastionRemnant,
    VillagePlains,
    VillageDesert,
    VillageSavanna,
    VillageSnowy,
    VillageTaiga,
    RuinedPortal,
    RuinedPortalDesert,
    RuinedPortalJungle,
    RuinedPortalSwamp,
    RuinedPortalMountain,
    RuinedPortalOcean,
    RuinedPortalNether,
    AncientCity,
    TrailRuins,
    TrialChambers,
}

/// The name of every kind of structure, without the namespace.
pub const STRUCTURE_NAMES: [(&'static str, StructureKeys); 34] = [
    ("pillager_outpost", StructureKeys::PillagerOutpost),
    ("mineshaft", StructureKeys::Mineshaft),
    ("mineshaft_mesa", StructureKeys::MineshaftMesa),
    ("mansion", StructureKeys::Mansion),
    ("jungle_pyramid", StructureKeys::JunglePyramid),
    ("desert_pyramid", StructureKeys::DesertPyramid),
    ("igloo", StructureKeys::Igloo),
    ("shipwreck", StructureKeys::Shipwreck),
    ("shipwreck_beached", StructureKeys::ShipwreckBeached),
    ("swamp_hut", StructureKeys::SwampHut),
    ("stronghold", StructureKeys::Stronghold),
    ("monument", StructureKeys::Monument),
    ("ocean_ruin_cold", StructureKeys::OceanRuinCold),
    ("ocean_ruin_warm", StructureKeys::OceanRuinWarm),
    ("fortress", StructureKeys::Fortress),
    ("nether_fossil", StructureKeys::NetherFossil),
    ("end_city", StructureKeys::EndCity),
    ("buried_treasure", StructureKeys::BuriedTreasure),
    ("bastion_remnant", StructureKeys::BastionRemnant),
    ("village_plains", StructureKeys::VillagePlains),
    ("village_desert", StructureKeys::VillageDesert),
    ("village_savanna", StructureKeys::VillageSavanna),
    ("village_snowy", StructureKeys::VillageSnowy),
    ("village_taiga", StructureKeys::VillageTaiga),
    ("ruined_portal", StructureKeys::RuinedPortal),
    ("ruined_portal_desert", StructureKeys::RuinedPortalDesert),
    ("ruined_portal_jungle", StructureKeys::RuinedPortalJungle),
    ("ruined_portal_swamp", StructureKeys::RuinedPortalSwamp),
    ("ruined_portal_mountain", StructureKeys::RuinedPortalMountain),
    ("ruined_portal_ocean", StructureKeys::RuinedPortalOcean),
    ("ruined_portal_nether", StructureKeys::RuinedPortalNether),
    ("ancient_city", StructureKeys::AncientCity),
    ("trail_ruins", StructureKeys::TrailRuins),
    ("trial_chambers", StructureKeys::TrialChambers),
];

/// What can come of locating a structure.
#[derive(Clone, Copy, Debug, PartialEq, Eq, Structural)]
pub enum LocateError {
    /// No structure has this name.
    Invalid,
    /// There is no such structure within reach.
    NotFound,
}

/// Which name a text spells, told from its length, its first character and its fourth from the
/// end; meaningless for texts that spell no name.
spec fn spelling(text: Seq<char>) -> int {
    let first = text[0];
    let late = text[text.len() - 4];
    if text.len() == 5 {
        6
    } else if text.len() == 7 {
        3
    } else if text.len() == 8 {
        if first == 'm' {
            11
        } else if first == 'f' {
            14
        } else {
            16
        }
    } else if text.len() == 9 {
        if first == 'm' {
            1
        } else if first == 's' && late == 'r' {
            7
        } else {
            9
        }
    } else if text.len() == 10 {
        10
    } else if text.len() == 11 {
        32
    } else if text.len() == 12 {
        31
    } else if text.len() == 13 {
        if first == 'n' {
            15
        } else if first == 'v' && late == 'n' {
            22
        } else if first == 'v' && late == 'a' {
            23
        } else {
            24
        }
    } else if text.len() == 14 {
        if first == 'm' {
            2
        } else if first == 'j' {
            4
        } else if first == 'd' {
            5
        } else if first == 'v' && late == 'a' {
            19
        } else if first == 'v' && late == 's' {
            20
        } else {
            33
        }
    } else if text.len() == 15 {
        if first == 'o' && late == 'c' {
            12
        } else if first == 'o' && late == 'w' {
            13
        } else if first == 'b' && late == 's' {
            17
        } else if first == 'b' && late == 'n' {
            18
        } else {
            21
        }
    } else if text.len() == 16 {
        0
    } else if text.len() == 17 {
        8
    } else if text.len() == 19 {
        if first == 'r' && late == 'w' {
            27
        } else {
            29
        }
    } else if text.len() == 20 {
        if first == 'r' && late == 's' {
            25
        } else if first == 'r' && late == 'n' {
            26
        } else {
            30
        }
    } else if text.len() == 22 {
        28
    } else {
        -1
    }
}

/// A name's spelling leads back to the name, and no name has a colon in it.
proof fn lemma_spelling(i: int)
    requires
        0 <= i < STRUCTURE_NAMES@.len(),
    ensures
        spelling(STRUCTURE_NAMES@[i].0@) == i,
        forall|k: int|
            0 <= k < STRUCTURE_NAMES@[i].0@.len() ==> #[trigger] STRUCTURE_NAMES@[i].0@[k] != ':',
{
    if i == 0 {
        reveal_strlit("pillager_outpost");
    } else if i == 1 {
        reveal_strlit("mineshaft");
    } else if i == 2 {
        reveal_strlit("mineshaft_mesa");
    } else if i == 3 {
        reveal_strlit("mansion");
    } else if i == 4 {
        reveal_strlit("jungle_pyramid");
    } else if i == 5 {
        reveal_strlit("desert_pyramid");
    } else if i == 6 {
        reveal_strlit("igloo");
    } else if i == 7 {
        reveal_strlit("shipwreck");
    } else if i == 8 {
        reveal_strlit("shipwreck_beached");
    } else if i == 9 {
        reveal_strlit("swamp_hut");
    } else if i == 10 {
        reveal_strlit("stronghold");
    } else if i == 11 {
        reveal_strlit("monument");
    } else if i == 12 {
        reveal_strlit("ocean_ruin_cold");
    } else if i == 13 {
        reveal_strlit("ocean_ruin_warm");
    } else if i == 14 {
        reveal_strlit("fortress");
    } else if i == 15 {
        reveal_strlit("nether_fossil");
    } else if i == 16 {
        reveal_strlit("end_city");
    } else if i == 17 {
        reveal_strlit("buried_treasure");
    } else if i == 18 {
        reveal_strlit("bastion_remnant");
    } else if i == 19 {
        reveal_strlit("village_plains");
    } else if i == 20 {
        reveal_strlit("village_desert");
    } else if i == 21 {
        reveal_strlit("village_savanna");
    } else if i == 22 {
        reveal_strlit("village_snowy");
    } else if i == 23 {
        reveal_strlit("village_taiga");
    } else if i == 24 {
        reveal_strlit("ruined_portal");
    } else if i == 25 {
        reveal_strlit("ruined_portal_desert");
    } else if i == 26 {
        reveal_strlit("ruined_portal_jungle");
    } else if i == 27 {
        reveal_strlit("ruined_portal_swamp");
    } else if i == 28 {
        reveal_strlit("ruined_portal_mountain");
    } else if i == 29 {
        reveal_strlit("ruined_portal_ocean");
    } else if i == 30 {
        reveal_strlit("ruined_portal_nether");
    } else if i == 31 {
        reveal_strlit("ancient_city");
    } else if i == 32 {
        reveal_strlit("trail_ruins");
    } else if i == 33 {
        reveal_strlit("trial_chambers");
    }
}

/// Where in the table of names a structure is.
spec fn place(key: StructureKeys) -> int {
    match key {
        StructureKeys::PillagerOutpost => 0,
        StructureKeys::Mineshaft => 1,
        StructureKeys::MineshaftMesa => 2,
        StructureKeys::Mansion => 3,
        StructureKeys::JunglePyramid => 4,
        StructureKeys::DesertPyramid => 5,
        StructureKeys::Igloo => 6,
        StructureKeys::Shipwreck => 7,
        StructureKeys::ShipwreckBeached => 8,
        StructureKeys::SwampHut => 9,
        StructureKeys::Stronghold => 10,
        StructureKeys::Monument => 11,
        StructureKeys::OceanRuinCold => 12,
        StructureKeys::OceanRuinWarm => 13,
        StructureKeys::Fortress => 14,
        StructureKeys::NetherFossil => 15,
        StructureKeys::EndCity => 16,
        StructureKeys::BuriedTreasure => 17,
        StructureKeys::BastionRemnant => 18,
        StructureKeys::VillagePlains => 19,
        StructureKeys::VillageDesert => 20,
        StructureKeys::VillageSavanna => 21,
        StructureKeys::VillageSnowy => 22,
        StructureKeys::VillageTaiga => 23,
        StructureKeys::RuinedPortal => 24,
        StructureKeys::RuinedPortalDesert => 25,
        StructureKeys::RuinedPortalJungle => 26,
        StructureKeys::RuinedPortalSwamp => 27,
        StructureKeys::RuinedPortalMountain => 28,
        StructureKeys::RuinedPortalOcean => 29,
        StructureKeys::RuinedPortalNether => 30,
        StructureKeys::AncientCity => 31,
        StructureKeys::TrailRuins => 32,
        StructureKeys::TrialChambers => 33,
    }
}

/// Whether a text names entry `i` of the table, with or without the `minecraft` namespace.
pub open spec fn names_entry(text: Seq<char>, i: int) -> bool {
    &&& 0 <= i < STRUCTURE_NAMES@.len()
    &&& text == STRUCTURE_NAMES@[i].0@ || text == "minecraft:"@ + STRUCTURE_NAMES@[i].0@
}

/// The structure that a text names.
pub open spec fn structure_named(text: Seq<char>) -> Option<StructureKeys> {
    if exists|i: int| names_entry(text, i) {
        Some(STRUCTURE_NAMES@[choose|i: int| names_entry(text, i)].1)
    } else {
        None
    }
}

/// No text names two structures.
pub proof fn law_names_are_unambiguous(text: Seq<char>, i: int, j: int)
    requires
        names_entry(text, i),
        names_entry(text, j),
    ensures
        i == j,
{
    reveal_strlit("minecraft:");
    lemma_spelling(i);
    lemma_spelling(j);
    let a = STRUCTURE_NAMES@[i].0@;
    let b = STRUCTURE_NAMES@[j].0@;
    let prefix = "minecraft:"@;
    assert((prefix + a).skip(10) =~= a);
    assert((prefix + b).skip(10) =~= b);
    assert((prefix + a)[9] == ':');
    assert((prefix + b)[9] == ':');
}

/// Every structure's name leads back to the structure, bare or in the `minecraft` namespace.
pub proof fn law_names_round_trip(i: int)
    requires
        0 <= i < STRUCTURE_NAMES@.len(),
    ensures
        structure_named(STRUCTURE_NAMES@[i].0@) == Some(STRUCTURE_NAMES@[i].1),
        structure_named("minecraft:"@ + STRUCTURE_NAMES@[i].0@) == Some(STRUCTURE_NAMES@[i].1),
{
    let bare = STRUCTURE_NAMES@[i].0@;
    let full = "minecraft:"@ + bare;
    assert(names_entry(bare, i));
    assert(names_entry(full, i));
    law_names_are_unambiguous(bare, i, choose|k: int| names_entry(bare, k));
    law_names_are_unambiguous(full, i, choose|k: int| names_entry(full, k));
}

/// A text in any other namespace names no structure.
pub proof fn law_foreign_namespaces_name_nothing(namespace: Seq<char>, path: Seq<char>)
    requires
        namespace != "minecraft"@,
        !namespace.contains(':'),
    ensures
        structure_named(namespace + seq![':'] + path) is None,
{
    let text = namespace + seq![':'] + path;
    if exists|i: int| names_entry(text, i) {
        let i = choose|i: int| names_entry(text, i);
        let name = STRUCTURE_NAMES@[i].0@;
        assert(text[namespace.len() as int] == ':');
        lemma_spelling(i);
        if text == "minecraft:"@ + name {
            reveal_strlit("minecraft:");
            reveal_strlit("minecraft");
            let at = namespace.len() as int;
            if at < 9 {
                assert(text[at] == "minecraft:"@[at]);
            } else if at > 9 {
                assert(namespace[9] == text[9]);
            } else {
                assert forall|k: int| 0 <= k < 9 implies namespace[k] == "minecraft"@[k] by {
                    assert(namespace[k] == text[k]);
                }
                assert(namespace =~= "minecraft"@);
            }
        }
    }
}

/// Every kind of structure has a name.
pub proof fn law_every_structure_has_a_name(key: StructureKeys)
    ensures
        exists|i: int|
            0 <= i < STRUCTURE_NAMES@.len() && (#[trigger] STRUCTURE_NAMES@[i]).1 == key,
{
    let i = place(key);
    assert(STRUCTURE_NAMES@[i].1 == key);
}

/// A name in the `minecraft` namespace.
fn qualified(name: &str) -> (text: String)
    ensures
        text@ == "minecraft:"@ + name@,
{
    let mut text: String = "minecraft:".to_owned();
    text.append(name);
    text
}

/// The structure that a text names: a bare name or one in the `minecraft` namespace.
#[must_use]
pub fn structure_by_name(name: &str) -> (found: Option<StructureKeys>)
    ensures
        found == structure_named(name@),
{
    for i in 0..STRUCTURE_NAMES.len()
        invariant
            forall|j: int| 0 <= j < i ==> !names_entry(name@, j),
    {
        let (entry, key) = STRUCTURE_NAMES[i];
        let full = qualified(entry);
        if same_text(name, entry) || same_text(name, full.as_str()) {
            assert(names_entry(name@, i as int));
            proof {
                law_names_are_unambiguous(
                    name@,
                    i as int,
                    choose|j: int| names_entry(name@, j),
                );
            }
            return Some(key);
        }
    }
    None
}

/// Every structure's name in the `minecraft` namespace, to suggest while typing.
#[must_use]
pub fn suggestions() -> (texts: Vec<String>)
    ensures
        texts@.len() == STRUCTURE_NAMES@.len(),
        forall|i: int|
            0 <= i < texts@.len() ==> (#[trigger] texts@[i])@ == "minecraft:"@
                + STRUCTURE_NAMES@[i].0@,
{
    let mut texts: Vec<String> = Vec::new();
    for i in 0..STRUCTURE_NAMES.len()
        invariant
            texts@.len() == i,
            forall|j: int|
                0 <= j < i ==> (#[trigger] texts@[j])@ == "minecraft:"@ + STRUCTURE_NAMES@[j].0@,
    {
        texts.push(qualified(STRUCTURE_NAMES[i].0));
    }
    texts
}

/// The answer to a request for the nearest structure of a name. No search is made, so a
/// structure that exists is never found.
#[must_use]
pub fn locate_structure(name: &str) -> (answer: LocateError)
    ensures
        answer == (if structure_named(name@) is Some {
            LocateError::NotFound
        } else {
            LocateError::Invalid
        }),
{
    match structure_by_name(name) {
        Some(_) => LocateError::NotFound,
        None => LocateError::Invalid,
    }
}

/// Every structure goes by its own name, bare or in the `minecraft` namespace, and by no other text.
pub proof fn law_structures_go_by_their_names(key: StructureKeys, text: Seq<char>)
    ensures
        ({
            let name = match key {
                StructureKeys::PillagerOutpost => "pillager_outpost"@,
                StructureKeys::Mineshaft => "mineshaft"@,
                StructureKeys::MineshaftMesa => "mineshaft_mesa"@,
                StructureKeys::Mansion => "mansion"@,
                StructureKeys::JunglePyramid => "jungle_pyramid"@,
                StructureKeys::DesertPyramid => "desert_pyramid"@,
                StructureKeys::Igloo => "igloo"@,
                StructureKeys::Shipwreck => "shipwreck"@,
                StructureKeys::ShipwreckBeached => "shipwreck_beached"@,
                StructureKeys::SwampHut => "swamp_hut"@,
                StructureKeys::Stronghold => "stronghold"@,
                StructureKeys::Monument => "monument"@,
                StructureKeys::OceanRuinCold => "ocean_ruin_cold"@,
                StructureKeys::OceanRuinWarm => "ocean_ruin_warm"@,
                StructureKeys::Fortress => "fortress"@,
                StructureKeys::NetherFossil => "nether_fossil"@,
                StructureKeys::EndCity => "end_city"@,
                StructureKeys::BuriedTreasure => "buried_treasure"@,
                StructureKeys::BastionRemnant => "bastion_remnant"@,
                StructureKeys::VillagePlains => "village_plains"@,
                StructureKeys::VillageDesert => "village_desert"@,
                StructureKeys::VillageSavanna => "village_savanna"@,
                StructureKeys::VillageSnowy => "village_snowy"@,
                StructureKeys::VillageTaiga => "village_taiga"@,
                StructureKeys::RuinedPortal => "ruined_portal"@,
                StructureKeys::RuinedPortalDesert => "ruined_portal_desert"@,
                StructureKeys::RuinedPortalJungle => "ruined_portal_jungle"@,
                StructureKeys::RuinedPortalSwamp => "ruined_portal_swamp"@,
                StructureKeys::RuinedPortalMountain => "ruined_portal_mountain"@,
                StructureKeys::RuinedPortalOcean => "ruined_portal_ocean"@,
                StructureKeys::RuinedPortalNether => "ruined_portal_nether"@,
                StructureKeys::AncientCity => "ancient_city"@,
                StructureKeys::TrailRuins => "trail_ruins"@,
                StructureKeys::TrialChambers => "trial_chambers"@,
            };
            structure_named(text) == Some(key) <==> text == name || text == "minecraft:"@ + name
        }),
{
    let i = place(key);
    assert(STRUCTURE_NAMES@[i].1 == key);
    law_names_round_trip(i);
    if structure_named(text) == Some(key) {
        let k = choose|k: int| names_entry(text, k);
        assert(names_entry(text, k));
        assert(place(STRUCTURE_NAMES@[k].1) == k);
    }
}

} // verus!
