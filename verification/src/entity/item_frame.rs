//! Item frames.

use crate::entity::item::{no_items, Item, ItemStack};
use crate::entity::nbt::{
    bool_at, byte_at, float_at, stack_at, NbtCompound, NbtValue,
};
use crate::ieee::Single;
use vstd::prelude::*;

verus! {

/// Bit pattern of 1: the displayed item always drops.
pub const FULL_CHANCE_BITS: u32 = 0x3f80_0000;

/// Sides of a block.
#[derive(Clone, Copy, Debug, PartialEq, Eq, Structural)]
pub enum BlockDirection {
    Down,
    Up,
    North,
    South,
    West,
    East,
}

/// The index of a direction.
pub open spec fn direction_index(direction: BlockDirection) -> int {
    match direction {
        BlockDirection::Down => 0,
        BlockDirection::Up => 1,
        BlockDirection::North => 2,
        BlockDirection::South => 3,
        BlockDirection::West => 4,
        BlockDirection::East => 5,
    }
}

impl BlockDirection {
    #[must_use]
    pub fn to_index(self) -> (index: u8)
        ensures
            index == direction_index(self),
    {
        match self {
            BlockDirection::Down => 0,
            BlockDirection::Up => 1,
            BlockDirection::North => 2,
            BlockDirection::South => 3,
            BlockDirection::West => 4,
            BlockDirection::East => 5,
        }
    }

    #[must_use]
    pub fn from_index(index: u8) -> (direction: Option<Self>)
        ensures
            match direction {
                Some(found) => direction_index(found) == index,
                None => index >= 6,
            },
    {
        match index {
            0 => Some(BlockDirection::Down),
            1 => Some(BlockDirection::Up),
            2 => Some(BlockDirection::North),
            3 => Some(BlockDirection::South),
            4 => Some(BlockDirection::West),
            5 => Some(BlockDirection::East),
            _ => None,
        }
    }
}

/// An item frame, glowing or not. `P` is whatever else an item stack carries.
#[derive(Debug)]
pub struct ItemFrameEntity<P> {
    pub item_stack: ItemStack<P>,
    /// By how many eighths the displayed item is turned.
    pub rotation: u8,
    /// Index of the direction away from the block that the frame hangs on.
    pub facing: u8,
    pub item_drop_chance: Single,
    pub invisible: bool,
    /// Little can harm a fixed frame.
    pub fixed: bool,
    /// What the spawn packet says of the frame: the direction again.
    pub data: i32,
}

/// A hit on an item frame.
#[derive(Clone, Copy, Debug)]
pub struct FrameDamage {
    /// The damage ignores invulnerability.
    pub bypasses_invulnerability: bool,
    pub is_explosion: bool,
    /// Where the damage comes from directly, such as an arrow, if anywhere; set if that is a
    /// player in creative mode.
    pub source: Option<bool>,
    /// Who is behind the damage, such as the archer, if anyone; set if that is a player in
    /// creative mode.
    pub cause: Option<bool>,
    /// The frame cannot be harmed by this damage.
    pub invulnerable: bool,
    /// The `entity_drops` game rule.
    pub entity_drops: bool,
    /// Random, from zero up to but not including one.
    pub roll: Single,
}

/// What comes of a hit. Anything but `Unharmed` is a block change that others may notice.
#[derive(Debug)]
pub enum FrameReaction<P> {
    Unharmed,
    /// The item pops out, with the sound of an item being removed. These stacks drop.
    ItemRemoved(Vec<ItemStack<P>>),
    /// The frame breaks, with the sound of that, and is gone. These stacks drop.
    Broken(Vec<ItemStack<P>>),
}

impl FrameDamage {
    /// Whoever counts as having caused the damage: who is behind it, or else where it comes from.
    pub open spec fn spec_causer(self) -> Option<bool> {
        match self.cause {
            Some(creative) => Some(creative),
            None => self.source,
        }
    }

    /// Whoever counts as having caused the damage: who is behind it, or else where it comes from.
    #[must_use]
    pub fn causer(&self) -> (causer: Option<bool>)
        ensures
            causer == self.spec_causer(),
    {
        match self.cause {
            Some(creative) => Some(creative),
            None => self.source,
        }
    }
}

/// The byte that holds a signed byte's bits.
pub open spec fn byte_of(signed: i8) -> int {
    if signed < 0 {
        signed + 256
    } else {
        signed as int
    }
}

fn unsigned(signed: i8) -> (byte: u8)
    ensures
        byte == byte_of(signed),
{
    let byte: u8 = signed as u8;
    assert(signed < 0 ==> signed as u8 == signed + 256) by (bit_vector);
    byte
}

impl<P> ItemFrameEntity<P> {
    /// Rotation and direction are in range, and the spawn packet agrees with the direction.
    pub open spec fn wf(self) -> bool {
        &&& self.rotation < 8
        &&& self.facing < 6
        &&& self.data == self.facing
    }

    /// The comparator signal: nothing for an empty frame, else by rotation.
    pub open spec fn analog_output(self) -> int {
        if self.item_stack.spec_is_empty() {
            0
        } else {
            self.rotation % 8 + 1
        }
    }

    /// What drops when the displayed item comes out, perhaps with the frame. Nothing drops where
    /// entities do not, or if the causer is a player in creative mode.
    pub open spec fn drops(
        self,
        entity_drops: bool,
        causer: Option<bool>,
        with_frame: bool,
        roll: Single,
    ) -> Seq<ItemStack<P>> {
        let frame = if with_frame {
            seq![ItemStack { item: Item::ItemFrame, count: 1, extra: None }]
        } else {
            Seq::empty()
        };
        let displayed = if !self.item_stack.spec_is_empty() && self.item_drop_chance.above(roll) {
            seq![self.item_stack]
        } else {
            Seq::empty()
        };
        if !entity_drops || causer == Some(true) {
            Seq::empty()
        } else {
            frame + displayed
        }
    }

    /// The frame with its item out.
    pub open spec fn emptied(self) -> ItemFrameEntity<P> {
        ItemFrameEntity { item_stack: no_items(), ..self }
    }

    /// Whether a hit leaves the frame alone. A fixed frame gives way only to damage that ignores
    /// invulnerability and to players in creative mode.
    pub open spec fn shrugs_off(self, damage: FrameDamage) -> bool {
        if self.fixed {
            !damage.bypasses_invulnerability && damage.spec_causer() != Some(true)
        } else {
            damage.invulnerable
        }
    }

    /// Whether chance decides what a hit makes of the displayed item: only if the hit takes it out
    /// where it may drop.
    pub open spec fn leaves_item_to_chance(self, damage: FrameDamage) -> bool {
        &&& !self.shrugs_off(damage)
        &&& damage.entity_drops
        &&& damage.spec_causer() != Some(true)
        &&& !self.item_stack.spec_is_empty()
    }

    /// Whether a hit only takes the item out.
    pub open spec fn loses_item_only(self, damage: FrameDamage) -> bool {
        !self.fixed && !damage.is_explosion && !self.item_stack.spec_is_empty()
    }

    /// Saved values with those of the frame among them. Without an item, neither the item nor its
    /// drop chance is saved.
    pub open spec fn saved(self, values: Map<Seq<char>, NbtValue<P>>) -> Map<
        Seq<char>,
        NbtValue<P>,
    > {
        let with_item = if self.item_stack.spec_is_empty() {
            values
        } else {
            values.insert("Item"@, NbtValue::Stack(self.item_stack)).insert(
                "ItemDropChance"@,
                NbtValue::Float(self.item_drop_chance),
            )
        };
        with_item.insert("ItemRotation"@, NbtValue::Byte(self.rotation as i8)).insert(
            "Facing"@,
            NbtValue::Byte(self.facing as i8),
        ).insert("Invisible"@, NbtValue::Bool(self.invisible)).insert(
            "Fixed"@,
            NbtValue::Bool(self.fixed),
        )
    }

    /// The frame with saved values. A missing item leaves the displayed one alone; everything
    /// else that is missing counts as zero, unset or certain to drop.
    pub open spec fn loaded(self, values: Map<Seq<char>, NbtValue<P>>) -> ItemFrameEntity<P> {
        let rotation = match byte_at(values, "ItemRotation"@) {
            Some(turned) => byte_of(turned) % 8,
            None => 0,
        };
        let facing = match byte_at(values, "Facing"@) {
            Some(index) => byte_of(index) % 6,
            None => 0,
        };
        ItemFrameEntity {
            item_stack: match stack_at(values, "Item"@) {
                Some(stack) => stack,
                None => self.item_stack,
            },
            rotation: rotation as u8,
            facing: facing as u8,
            item_drop_chance: match float_at(values, "ItemDropChance"@) {
                Some(chance) => chance,
                None => Single { bits: FULL_CHANCE_BITS },
            },
            invisible: bool_at(values, "Invisible"@) == Some(true),
            fixed: bool_at(values, "Fixed"@) == Some(true),
            data: facing as i32,
        }
    }

    /// An empty frame that faces south.
    #[must_use]
    pub fn new() -> (frame: Self)
        ensures
            frame.wf(),
            frame == (ItemFrameEntity::<P> {
                item_stack: no_items(),
                rotation: 0,
                facing: 3,
                item_drop_chance: Single { bits: FULL_CHANCE_BITS },
                invisible: false,
                fixed: false,
                data: 3,
            }),
    {
        let facing: u8 = BlockDirection::South.to_index();
        ItemFrameEntity {
            item_stack: ItemStack::empty(),
            rotation: 0,
            facing,
            item_drop_chance: Single { bits: FULL_CHANCE_BITS },
            invisible: false,
            fixed: false,
            data: facing as i32,
        }
    }

    /// The direction away from the block that the frame hangs on.
    #[must_use]
    pub fn get_facing(&self) -> (direction: BlockDirection)
        ensures
            self.facing < 6 ==> direction_index(direction) == self.facing,
            self.facing >= 6 ==> direction == BlockDirection::South,
    {
        match BlockDirection::from_index(self.facing) {
            Some(direction) => direction,
            None => BlockDirection::South,
        }
    }

    /// The comparator signal of the frame.
    #[must_use]
    pub fn get_analog_output(&self) -> (signal: u8)
        ensures
            signal == self.analog_output(),
    {
        if self.item_stack.is_empty() {
            0
        } else {
            self.rotation % 8 + 1
        }
    }

    /// Takes the displayed item out, in any case, and says what drops. `causer` is set if there is
    /// one, to whether it is a player in creative mode.
    pub fn drop_item(
        &mut self,
        entity_drops: bool,
        causer: Option<bool>,
        with_frame: bool,
        roll: Single,
    ) -> (drops: Vec<ItemStack<P>>)
        ensures
            *final(self) == old(self).emptied(),
            drops@ == old(self).drops(entity_drops, causer, with_frame, roll),
    {
        let mut drops: Vec<ItemStack<P>> = Vec::new();
        let item_stack = self.item_stack.clone();
        self.item_stack = ItemStack::empty();
        let creative_causer = match causer {
            Some(creative) => creative,
            None => false,
        };
        if !entity_drops || creative_causer {
            return drops;
        }
        if with_frame {
            drops.push(ItemStack::new(1, Item::ItemFrame));
        }
        if !item_stack.is_empty() && self.item_drop_chance.exceeds(roll) {
            drops.push(item_stack);
        }
        assert(drops@ =~= old(self).drops(entity_drops, causer, with_frame, roll));
        drops
    }

    /// Whether a hit needs its random number.
    #[must_use]
    pub fn needs_roll(&self, damage: &FrameDamage) -> (needs: bool)
        ensures
            needs == self.leaves_item_to_chance(*damage),
    {
        let creative_causer = match damage.causer() {
            Some(creative) => creative,
            None => false,
        };
        if self.fixed {
            damage.bypasses_invulnerability && damage.entity_drops && !creative_causer
                && !self.item_stack.is_empty()
        } else {
            !damage.invulnerable && damage.entity_drops && !creative_causer
                && !self.item_stack.is_empty()
        }
    }

    /// The frame is hit.
    pub fn damage_with_context(&mut self, damage: FrameDamage) -> (reaction: FrameReaction<P>)
        ensures
            match reaction {
                FrameReaction::Unharmed => {
                    &&& old(self).shrugs_off(damage)
                    &&& *final(self) == *old(self)
                },
                FrameReaction::ItemRemoved(drops) => {
                    &&& !old(self).shrugs_off(damage)
                    &&& old(self).loses_item_only(damage)
                    &&& *final(self) == old(self).emptied()
                    &&& drops@ == old(self).drops(
                        damage.entity_drops,
                        damage.spec_causer(),
                        false,
                        damage.roll,
                    )
                },
                FrameReaction::Broken(drops) => {
                    &&& !old(self).shrugs_off(damage)
                    &&& !old(self).loses_item_only(damage)
                    &&& *final(self) == old(self).emptied()
                    &&& drops@ == old(self).drops(
                        damage.entity_drops,
                        damage.spec_causer(),
                        true,
                        damage.roll,
                    )
                },
            },
    {
        let causer = damage.causer();
        let creative_causer = match causer {
            Some(creative) => creative,
            None => false,
        };
        let can_hurt_when_fixed = damage.bypasses_invulnerability || creative_causer;
        if self.fixed && !can_hurt_when_fixed {
            return FrameReaction::Unharmed;
        }
        if !self.fixed && damage.invulnerable {
            return FrameReaction::Unharmed;
        }
        let holds_item = !self.item_stack.is_empty();
        if !self.fixed && !damage.is_explosion && holds_item {
            return FrameReaction::ItemRemoved(
                self.drop_item(damage.entity_drops, causer, false, damage.roll),
            );
        }
        FrameReaction::Broken(self.drop_item(damage.entity_drops, causer, true, damage.roll))
    }

    /// Saves the frame.
    pub fn write_nbt(&self, nbt: &mut NbtCompound<P>)
        requires
            self.wf(),
        ensures
            final(nbt)@ == self.saved(old(nbt)@),
    {
        if !self.item_stack.is_empty() {
            nbt.put("Item", NbtValue::Stack(self.item_stack.clone()));
            nbt.put("ItemDropChance", NbtValue::Float(self.item_drop_chance));
        }
        nbt.put("ItemRotation", NbtValue::Byte(self.rotation as i8));
        nbt.put("Facing", NbtValue::Byte(self.facing as i8));
        nbt.put("Invisible", NbtValue::Bool(self.invisible));
        nbt.put("Fixed", NbtValue::Bool(self.fixed));
    }

    /// Takes saved values.
    pub fn read_nbt(&mut self, nbt: &NbtCompound<P>)
        ensures
            final(self).wf(),
            *final(self) == old(self).loaded(nbt@),
    {
        if let Some(stack) = nbt.get_stack("Item") {
            self.item_stack = stack;
        }
        self.rotation = match nbt.get_byte("ItemRotation") {
            Some(turned) => unsigned(turned) % 8,
            None => 0,
        };
        let facing: u8 = match nbt.get_byte("Facing") {
            Some(index) => unsigned(index) % 6,
            None => 0,
        };
        self.facing = facing;
        self.data = facing as i32;
        self.item_drop_chance = match nbt.get_float("ItemDropChance") {
            Some(chance) => chance,
            None => Single { bits: FULL_CHANCE_BITS },
        };
        self.invisible = match nbt.get_bool("Invisible") {
            Some(flag) => flag,
            None => false,
        };
        self.fixed = match nbt.get_bool("Fixed") {
            Some(flag) => flag,
            None => false,
        };
    }
}

impl<P> Clone for ItemFrameEntity<P> {
    fn clone(&self) -> (copy: Self)
        ensures
            copy == *self,
    {
        ItemFrameEntity {
            item_stack: self.item_stack.clone(),
            rotation: self.rotation,
            facing: self.facing,
            item_drop_chance: self.item_drop_chance,
            invisible: self.invisible,
            fixed: self.fixed,
            data: self.data,
        }
    }
}

/// The names that frames are saved under differ.
proof fn lemma_names_differ()
    ensures
        "Item"@.len() == 4,
        "Fixed"@.len() == 5,
        "Facing"@.len() == 6,
        "Invisible"@.len() == 9,
        "ItemRotation"@.len() == 12,
        "ItemDropChance"@.len() == 14,
{
    reveal_strlit("Item");
    reveal_strlit("Fixed");
    reveal_strlit("Facing");
    reveal_strlit("Invisible");
    reveal_strlit("ItemRotation");
    reveal_strlit("ItemDropChance");
}

/// A frame that displays an item comes back from what it saved with all that the stack carries,
/// into whatever frame it is loaded and whatever else is saved.
pub proof fn law_nbt_round_trip<P>(
    frame: ItemFrameEntity<P>,
    other: ItemFrameEntity<P>,
    values: Map<Seq<char>, NbtValue<P>>,
)
    requires
        frame.wf(),
        !frame.item_stack.spec_is_empty(),
    ensures
        other.loaded(frame.saved(values)) == frame,
{
    lemma_names_differ();
}

/// An empty frame comes back too, but for the drop chance, which is not saved without an item.
pub proof fn law_nbt_round_trip_of_empty_frame<P>(
    frame: ItemFrameEntity<P>,
    other: ItemFrameEntity<P>,
    values: Map<Seq<char>, NbtValue<P>>,
)
    requires
        frame.wf(),
        frame.item_stack.spec_is_empty(),
        other.item_stack == frame.item_stack,
        !values.contains_key("Item"@),
        !values.contains_key("ItemDropChance"@),
    ensures
        other.loaded(frame.saved(values)) == (ItemFrameEntity {
            item_drop_chance: Single { bits: FULL_CHANCE_BITS },
            ..frame
        }),
{
    lemma_names_differ();
}

/// Saving a frame leaves what is saved under other names alone.
pub proof fn law_saving_keeps_other_values<P>(
    frame: ItemFrameEntity<P>,
    values: Map<Seq<char>, NbtValue<P>>,
    name: Seq<char>,
)
    requires
        name != "Item"@,
        name != "ItemDropChance"@,
        name != "ItemRotation"@,
        name != "Facing"@,
        name != "Invisible"@,
        name != "Fixed"@,
    ensures
        frame.saved(values).contains_key(name) == values.contains_key(name),
        values.contains_key(name) ==> frame.saved(values)[name] == values[name],
{
}

/// A comparator reads from one to eight off a frame with an item and nothing off an empty one.
pub proof fn law_analog_output_tells_emptiness<P>(frame: ItemFrameEntity<P>)
    ensures
        0 <= frame.analog_output() <= 8,
        frame.analog_output() == 0 <==> frame.item_stack.spec_is_empty(),
{
}

/// Two turned frames read the same exactly when they are turned alike.
pub proof fn law_analog_output_tells_rotation<P>(a: ItemFrameEntity<P>, b: ItemFrameEntity<P>)
    requires
        a.wf(),
        b.wf(),
        !a.item_stack.spec_is_empty(),
        !b.item_stack.spec_is_empty(),
    ensures
        a.analog_output() == b.analog_output() <==> a.rotation == b.rotation,
{
}

/// Once the item is out, a comparator reads nothing, whatever dropped and whatever the frame was
/// like.
pub proof fn law_dropping_clears_the_item<P>(frame: ItemFrameEntity<P>)
    ensures
        frame.emptied().analog_output() == 0,
{
}

/// Something drops only where entities do and no player in creative mode is the causer.
pub proof fn law_drops_need_rule_and_causer<P>(
    frame: ItemFrameEntity<P>,
    entity_drops: bool,
    causer: Option<bool>,
    with_frame: bool,
    roll: Single,
)
    requires
        frame.drops(entity_drops, causer, with_frame, roll).len() > 0,
    ensures
        entity_drops,
        causer != Some(true),
{
}

/// A hit that does not need its random number has the same outcome with any other.
pub proof fn law_roll_matters_only_where_needed<P>(
    frame: ItemFrameEntity<P>,
    damage: FrameDamage,
    with_frame: bool,
    other: Single,
)
    requires
        !frame.shrugs_off(damage),
        !frame.leaves_item_to_chance(damage),
    ensures
        frame.drops(damage.entity_drops, damage.spec_causer(), with_frame, damage.roll)
            == frame.drops(damage.entity_drops, damage.spec_causer(), with_frame, other),
{
}

/// The item pops out once: after that, a hit that the frame does not shrug off breaks it.
pub proof fn law_item_pops_out_once<P>(
    frame: ItemFrameEntity<P>,
    first: FrameDamage,
    second: FrameDamage,
)
    requires
        frame.loses_item_only(first),
    ensures
        !frame.emptied().loses_item_only(second),
        frame.emptied().shrugs_off(second) == second.invulnerable,
{
}

/// Directions and their indices belong together one to one.
pub proof fn law_direction_index_is_one_to_one(a: BlockDirection, b: BlockDirection)
    requires
        direction_index(a) == direction_index(b),
    ensures
        a == b,
{
}

/// Sides of a block are numbered down, up, north, south, west, east.
pub proof fn law_directions_are_numbered(direction: BlockDirection)
    ensures
        0 <= direction_index(direction) < 6,
        direction == BlockDirection::Down <==> direction_index(direction) == 0,
        direction == BlockDirection::Up <==> direction_index(direction) == 1,
        direction == BlockDirection::North <==> direction_index(direction) == 2,
        direction == BlockDirection::South <==> direction_index(direction) == 3,
        direction == BlockDirection::West <==> direction_index(direction) == 4,
        direction == BlockDirection::East <==> direction_index(direction) == 5,
{
}

/// Whoever is behind a hit counts as its causer, and only if there is no one, where it comes from.
pub proof fn law_causers(damage: FrameDamage)
    ensures
        damage.cause is Some ==> damage.spec_causer() == damage.cause,
        damage.cause is None ==> damage.spec_causer() == damage.source,
{
}

/// A comparator reads one more than the turns of the displayed item, and nothing off an empty
/// frame.
pub proof fn law_analog_output_counts_turns<P>(frame: ItemFrameEntity<P>)
    requires
        frame.rotation < 8,
    ensures
        frame.item_stack.count > 0 && frame.item_stack.item != Item::Air ==> frame.analog_output()
            == frame.rotation + 1,
        frame.item_stack.count == 0 || frame.item_stack.item == Item::Air ==> frame.analog_output()
            == 0,
{
}

/// Where entities drop and the causer is no player in creative mode, the frame drops if it comes
/// down, and after it the displayed stack, as it is, if there is one and the roll is below its
/// chance. Elsewhere nothing drops.
pub proof fn law_what_drops<P>(
    frame: ItemFrameEntity<P>,
    entity_drops: bool,
    causer: Option<bool>,
    with_frame: bool,
    roll: Single,
)
    ensures
        ({
            let drops = frame.drops(entity_drops, causer, with_frame, roll);
            let any = entity_drops && causer != Some(true);
            let item = frame.item_stack.count > 0 && frame.item_stack.item != Item::Air
                && frame.item_drop_chance.above(roll);
            &&& !any ==> drops.len() == 0
            &&& any ==> drops.len() == (if with_frame {
                1int
            } else {
                0
            }) + (if item {
                1int
            } else {
                0
            })
            &&& any && with_frame ==> drops[0] == (ItemStack::<P> {
                item: Item::ItemFrame,
                count: 1,
                extra: None,
            })
            &&& any && item ==> drops.last() == frame.item_stack
        }),
{
}

/// Taking the item out leaves a frame with nothing in it that is the same in everything else.
pub proof fn law_taking_the_item_out<P>(frame: ItemFrameEntity<P>)
    ensures
        frame.emptied().item_stack.count == 0,
        frame.emptied().item_stack.item == Item::Air,
        frame.emptied().item_stack.extra is None,
        frame.emptied().rotation == frame.rotation,
        frame.emptied().facing == frame.facing,
        frame.emptied().item_drop_chance == frame.item_drop_chance,
        frame.emptied().invisible == frame.invisible,
        frame.emptied().fixed == frame.fixed,
        frame.emptied().data == frame.data,
{
}

/// A fixed frame gives way to damage that ignores invulnerability and to players in creative mode
/// only; another one to whatever it is not invulnerable to.
pub proof fn law_what_frames_shrug_off<P>(frame: ItemFrameEntity<P>, damage: FrameDamage)
    ensures
        frame.fixed ==> (frame.shrugs_off(damage) <==> !damage.bypasses_invulnerability && !(
        damage.cause == Some(true) || (damage.cause is None && damage.source == Some(true)))),
        !frame.fixed ==> (frame.shrugs_off(damage) <==> damage.invulnerable),
{
}

/// A hit takes the item out and leaves the frame exactly if there is an item, the frame is not
/// fixed and the hit is no explosion.
pub proof fn law_when_the_item_pops_out<P>(frame: ItemFrameEntity<P>, damage: FrameDamage)
    ensures
        frame.loses_item_only(damage) <==> !frame.fixed && !damage.is_explosion
            && frame.item_stack.count > 0 && frame.item_stack.item != Item::Air,
{
}

/// Chance decides exactly if a hit that the frame gives way to takes an item out where it may drop.
pub proof fn law_when_chance_decides<P>(frame: ItemFrameEntity<P>, damage: FrameDamage)
    ensures
        frame.leaves_item_to_chance(damage) <==> {
            &&& !frame.shrugs_off(damage)
            &&& damage.entity_drops
            &&& damage.cause != Some(true)
            &&& damage.cause is Some || damage.source != Some(true)
            &&& frame.item_stack.count > 0
            &&& frame.item_stack.item != Item::Air
        },
{
}

/// Every value of a frame is saved under its own name; of an item and its drop chance nothing is if
/// there is no item.
pub proof fn law_what_frames_save<P>(
    frame: ItemFrameEntity<P>,
    values: Map<Seq<char>, NbtValue<P>>,
)
    ensures
        ({
            let saved = frame.saved(values);
            let empty = frame.item_stack.count == 0 || frame.item_stack.item == Item::Air;
            &&& byte_at(saved, "ItemRotation"@) == Some(frame.rotation as i8)
            &&& byte_at(saved, "Facing"@) == Some(frame.facing as i8)
            &&& bool_at(saved, "Invisible"@) == Some(frame.invisible)
            &&& bool_at(saved, "Fixed"@) == Some(frame.fixed)
            &&& !empty ==> stack_at(saved, "Item"@) == Some(frame.item_stack)
            &&& !empty ==> float_at(saved, "ItemDropChance"@) == Some(frame.item_drop_chance)
            &&& empty ==> saved.contains_key("Item"@) == values.contains_key("Item"@)
            &&& empty ==> saved.contains_key("ItemDropChance"@) == values.contains_key(
                "ItemDropChance"@,
            )
        }),
{
    lemma_names_differ();
}

/// Saved values are taken each from its own name. Turns are counted around eight and sides around
/// six, bytes below zero standing for the ones above their range. What is missing is zero, unset or
/// certain to drop, and a missing item leaves the displayed one. The spawn packet tells the side.
pub proof fn law_what_frames_load<P>(
    frame: ItemFrameEntity<P>,
    values: Map<Seq<char>, NbtValue<P>>,
)
    ensures
        ({
            let loaded = frame.loaded(values);
            &&& match byte_at(values, "ItemRotation"@) {
                Some(turns) => if turns >= 0 {
                    loaded.rotation == turns as int % 8
                } else {
                    loaded.rotation == (turns + 256) % 8
                },
                None => loaded.rotation == 0,
            }
            &&& match byte_at(values, "Facing"@) {
                Some(side) => if side >= 0 {
                    loaded.facing == side as int % 6
                } else {
                    loaded.facing == (side + 256) % 6
                },
                None => loaded.facing == 0,
            }
            &&& loaded.data == loaded.facing
            &&& stack_at(values, "Item"@) is Some ==> Some(loaded.item_stack) == stack_at(
                values,
                "Item"@,
            )
            &&& stack_at(values, "Item"@) is None ==> loaded.item_stack == frame.item_stack
            &&& float_at(values, "ItemDropChance"@) is Some ==> Some(loaded.item_drop_chance)
                == float_at(values, "ItemDropChance"@)
            &&& float_at(values, "ItemDropChance"@) is None ==> loaded.item_drop_chance == (Single {
                bits: 0x3f80_0000,
            })
            &&& loaded.invisible <==> bool_at(values, "Invisible"@) == Some(true)
            &&& loaded.fixed <==> bool_at(values, "Fixed"@) == Some(true)
        }),
{
}

} // verus!
