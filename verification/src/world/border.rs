//! The world border: its state, how it moves and what clients are told.

use crate::ieee::{lemma_single_value, Double, Single};
use vstd::arithmetic::power2::{lemma_pow2_unfold, pow2};
use vstd::prelude::*;

verus! {

/// Bit pattern of 0.2: damage for each block outside.
pub const DAMAGE_PER_BLOCK_BITS: u32 = 0x3e4c_cccd;

/// Bit pattern of 5: how far outside the damage starts.
pub const BUFFER_BITS: u32 = 0x40a0_0000;

/// Portals lead no farther out than this.
pub const PORTAL_TELEPORT_BOUNDARY: i32 = 29_999_984;

#[derive(Clone, Copy, Debug)]
pub struct Worldborder {
    pub center_x: Double,
    pub center_z: Double,
    /// Where the current movement started.
    pub old_diameter: Double,
    /// Where the current movement ends.
    pub new_diameter: Double,
    /// The size that counts, on the way from the old to the new one.
    pub current_diameter: Double,
    pub lerp_ticks_total: i64,
    pub lerp_ticks_remaining: i64,
    pub speed: i64,
    pub portal_teleport_boundary: i32,
    pub warning_blocks: i32,
    pub warning_time: i32,
    pub damage_per_block: Single,
    pub buffer: Single,
}

/// What clients are told of the border.
#[derive(Clone, Copy, Debug, PartialEq, Eq, Structural)]
pub enum BorderPacket {
    Initialize {
        center_x: Double,
        center_z: Double,
        old_diameter: Double,
        new_diameter: Double,
        speed: i64,
        portal_teleport_boundary: i32,
        warning_blocks: i32,
        warning_time: i32,
    },
    SetCenter { x: Double, z: Double },
    SetLerpSize { from: Double, to: Double, ticks: i64 },
    SetSize { diameter: Double },
    SetWarningDelay { delay: i32 },
    SetWarningDistance { distance: i32 },
}

/// The edges of the border. A block is inside from the lower edges on and before the upper ones.
#[derive(Clone, Copy, Debug)]
pub struct BorderEdges {
    pub min_x: Double,
    pub max_x: Double,
    pub min_z: Double,
    pub max_z: Double,
}

/// The edges of the border, rounded down to blocks.
#[derive(Clone, Copy, Debug)]
pub struct BlockEdges {
    pub min_x: i32,
    pub max_x: i32,
    pub min_z: i32,
    pub max_z: i32,
}

/// A difference has the sign that it should: above zero exactly when the first of its arguments is
/// above the second, and below zero exactly when the second is above the first.
pub open spec fn sign_tells(difference: Double, first: Double, second: Double) -> bool {
    let zero = Double { bits: 0 };
    &&& !difference.is_nan()
    &&& difference.above(zero) <==> first.above(second)
    &&& zero.above(difference) <==> second.above(first)
}

/// The distance of a point to the nearest edge, by its distances to the four of them.
pub open spec fn least_of(west: Double, east: Double, north: Double, south: Double) -> Double {
    west.lesser(east).lesser(north).lesser(south)
}

impl Worldborder {
    /// No more ticks remain of a movement than it has.
    pub open spec fn wf(self) -> bool {
        0 <= self.lerp_ticks_remaining <= self.lerp_ticks_total
    }

    /// The border is at its new size unless it moves.
    pub open spec fn settled(self) -> bool {
        self.lerp_ticks_remaining == 0 ==> self.current_diameter == self.new_diameter
    }

    /// The border after its size is set. A movement starts from where the last one was to end, so
    /// it needs time to pass; without time the border jumps.
    pub open spec fn resized(self, diameter: Double, speed: Option<i64>) -> Worldborder {
        let ticks = match speed {
            Some(ticks) if ticks > 0 => ticks,
            _ => 0,
        };
        Worldborder {
            old_diameter: self.new_diameter,
            new_diameter: diameter,
            current_diameter: if ticks > 0 {
                self.new_diameter
            } else {
                diameter
            },
            lerp_ticks_total: ticks,
            lerp_ticks_remaining: ticks,
            ..self
        }
    }

    /// What clients are told when the size is set.
    pub open spec fn resize_packet(self, diameter: Double, speed: Option<i64>) -> BorderPacket {
        match speed {
            Some(ticks) => BorderPacket::SetLerpSize {
                from: self.new_diameter,
                to: diameter,
                ticks: if ticks > 0 {
                    ticks
                } else {
                    0
                },
            },
            None => BorderPacket::SetSize { diameter },
        }
    }

    /// The border a tick later, given the size that it has then if it still moves.
    pub open spec fn ticked(self, between: Double) -> Worldborder {
        if self.lerp_ticks_remaining > 1 {
            Worldborder {
                lerp_ticks_remaining: (self.lerp_ticks_remaining - 1) as i64,
                current_diameter: between,
                ..self
            }
        } else if self.lerp_ticks_remaining == 1 {
            Worldborder {
                lerp_ticks_remaining: 0,
                current_diameter: self.new_diameter,
                ..self
            }
        } else {
            self
        }
    }

    /// The border some ticks later, given the sizes that it has on the way.
    pub open spec fn after_ticks(self, between: Seq<Double>) -> Worldborder
        decreases between.len(),
    {
        if between.len() == 0 {
            self
        } else {
            self.ticked(between[0]).after_ticks(between.skip(1))
        }
    }

    #[must_use]
    pub fn new(
        x: Double,
        z: Double,
        diameter: Double,
        speed: i64,
        warning_blocks: i32,
        warning_time: i32,
    ) -> (border: Self)
        ensures
            border.wf(),
            border.settled(),
            border == (Worldborder {
                center_x: x,
                center_z: z,
                old_diameter: diameter,
                new_diameter: diameter,
                current_diameter: diameter,
                lerp_ticks_total: 0,
                lerp_ticks_remaining: 0,
                speed,
                portal_teleport_boundary: PORTAL_TELEPORT_BOUNDARY,
                warning_blocks,
                warning_time,
                damage_per_block: Single { bits: DAMAGE_PER_BLOCK_BITS },
                buffer: Single { bits: BUFFER_BITS },
            }),
    {
        Worldborder {
            center_x: x,
            center_z: z,
            old_diameter: diameter,
            new_diameter: diameter,
            current_diameter: diameter,
            lerp_ticks_total: 0,
            lerp_ticks_remaining: 0,
            speed,
            portal_teleport_boundary: PORTAL_TELEPORT_BOUNDARY,
            warning_blocks,
            warning_time,
            damage_per_block: Single { bits: DAMAGE_PER_BLOCK_BITS },
            buffer: Single { bits: BUFFER_BITS },
        }
    }

    /// What a new client is told.
    #[must_use]
    pub fn init_client(&self) -> (packet: BorderPacket)
        ensures
            packet == (BorderPacket::Initialize {
                center_x: self.center_x,
                center_z: self.center_z,
                old_diameter: self.old_diameter,
                new_diameter: self.new_diameter,
                speed: self.speed,
                portal_teleport_boundary: self.portal_teleport_boundary,
                warning_blocks: self.warning_blocks,
                warning_time: self.warning_time,
            }),
    {
        BorderPacket::Initialize {
            center_x: self.center_x,
            center_z: self.center_z,
            old_diameter: self.old_diameter,
            new_diameter: self.new_diameter,
            speed: self.speed,
            portal_teleport_boundary: self.portal_teleport_boundary,
            warning_blocks: self.warning_blocks,
            warning_time: self.warning_time,
        }
    }

    /// Moves the center and says what clients are to be told.
    pub fn set_center(&mut self, x: Double, z: Double) -> (packet: BorderPacket)
        ensures
            *final(self) == (Worldborder { center_x: x, center_z: z, ..*old(self) }),
            packet == (BorderPacket::SetCenter { x, z }),
    {
        self.center_x = x;
        self.center_z = z;
        BorderPacket::SetCenter { x: self.center_x, z: self.center_z }
    }

    /// Sets the size, over so many ticks if any are given, and says what clients are to be told.
    pub fn set_diameter(&mut self, diameter: Double, speed: Option<i64>) -> (packet: BorderPacket)
        ensures
            final(self).wf(),
            final(self).settled(),
            *final(self) == old(self).resized(diameter, speed),
            packet == old(self).resize_packet(diameter, speed),
    {
        self.old_diameter = self.new_diameter;
        self.new_diameter = diameter;
        match speed {
            Some(ticks) => {
                if ticks > 0 {
                    self.lerp_ticks_total = ticks;
                    self.lerp_ticks_remaining = ticks;
                    self.current_diameter = self.old_diameter;
                    BorderPacket::SetLerpSize {
                        from: self.old_diameter,
                        to: self.new_diameter,
                        ticks,
                    }
                } else {
                    self.lerp_ticks_total = 0;
                    self.lerp_ticks_remaining = 0;
                    self.current_diameter = self.new_diameter;
                    BorderPacket::SetLerpSize {
                        from: self.old_diameter,
                        to: self.new_diameter,
                        ticks: 0,
                    }
                }
            },
            None => {
                self.lerp_ticks_total = 0;
                self.lerp_ticks_remaining = 0;
                self.current_diameter = self.new_diameter;
                BorderPacket::SetSize { diameter: self.new_diameter }
            },
        }
    }

    /// Grows the border; `sum` tells what the new size and the offset come to.
    pub fn add_diameter<F: FnOnce(Double, Double) -> Double>(
        &mut self,
        offset: Double,
        speed: Option<i64>,
        sum: F,
    ) -> (packet: BorderPacket)
        requires
            sum.requires((old(self).new_diameter, offset)),
        ensures
            final(self).wf(),
            final(self).settled(),
            sum.ensures((old(self).new_diameter, offset), final(self).new_diameter),
            *final(self) == old(self).resized(final(self).new_diameter, speed),
            packet == old(self).resize_packet(final(self).new_diameter, speed),
    {
        let diameter = sum(self.new_diameter, offset);
        self.set_diameter(diameter, speed)
    }

    /// Moves the border on by a tick. `lerp` tells the size between two others after so many of
    /// all ticks; it is asked only before the last tick.
    pub fn tick<F: FnOnce(Double, Double, i64, i64) -> Double>(&mut self, lerp: F)
        requires
            old(self).wf(),
            old(self).lerp_ticks_remaining > 1 ==> lerp.requires(
                (
                    old(self).old_diameter,
                    old(self).new_diameter,
                    (old(self).lerp_ticks_total - old(self).lerp_ticks_remaining + 1) as i64,
                    old(self).lerp_ticks_total,
                ),
            ),
        ensures
            final(self).wf(),
            old(self).settled() ==> final(self).settled(),
            *final(self) == old(self).ticked(final(self).current_diameter),
            old(self).lerp_ticks_remaining > 1 ==> lerp.ensures(
                (
                    old(self).old_diameter,
                    old(self).new_diameter,
                    (old(self).lerp_ticks_total - final(self).lerp_ticks_remaining) as i64,
                    old(self).lerp_ticks_total,
                ),
                final(self).current_diameter,
            ),
    {
        if self.lerp_ticks_remaining > 0 {
            self.lerp_ticks_remaining = self.lerp_ticks_remaining - 1;
            self.current_diameter = if self.lerp_ticks_remaining > 0 {
                lerp(
                    self.old_diameter,
                    self.new_diameter,
                    self.lerp_ticks_total - self.lerp_ticks_remaining,
                    self.lerp_ticks_total,
                )
            } else {
                self.new_diameter
            };
        }
    }

    /// Sets the warning time and says what clients are to be told.
    pub fn set_warning_delay(&mut self, delay: i32) -> (packet: BorderPacket)
        ensures
            *final(self) == (Worldborder { warning_time: delay, ..*old(self) }),
            packet == (BorderPacket::SetWarningDelay { delay }),
    {
        self.warning_time = delay;
        BorderPacket::SetWarningDelay { delay: self.warning_time }
    }

    /// Sets the warning distance and says what clients are to be told.
    pub fn set_warning_distance(&mut self, distance: i32) -> (packet: BorderPacket)
        ensures
            *final(self) == (Worldborder { warning_blocks: distance, ..*old(self) }),
            packet == (BorderPacket::SetWarningDistance { distance }),
    {
        self.warning_blocks = distance;
        BorderPacket::SetWarningDistance { distance: self.warning_blocks }
    }

    /// Whether a point is inside at the current size. `edges` tells the edges of a border by its
    /// center and its size.
    pub fn contains<F: FnOnce(Double, Double, Double) -> BorderEdges>(
        &self,
        x: Double,
        z: Double,
        edges: F,
    ) -> (inside: bool)
        requires
            edges.requires((self.center_x, self.center_z, self.current_diameter)),
        ensures
            exists|found: BorderEdges| #[trigger]
                edges.ensures((self.center_x, self.center_z, self.current_diameter), found)
                    && inside == found.spec_contains(x, z),
    {
        let found = edges(self.center_x, self.center_z, self.current_diameter);
        assert(edges.ensures((self.center_x, self.center_z, self.current_diameter), found));
        found.contains(x, z)
    }

    /// Whether a block is inside at the current size: its corner is, and so is the corner one
    /// further in both directions. `corner` tells the point of a corner; `edges` tells the edges of
    /// a border by its center and its size.
    pub fn contains_block<
        C: Fn(i64, i64) -> (Double, Double),
        F: FnOnce(Double, Double, Double) -> BorderEdges,
    >(&self, x: i32, z: i32, corner: C, edges: F) -> (inside: bool)
        requires
            corner.requires((x as i64, z as i64)),
            corner.requires(((x + 1) as i64, (z + 1) as i64)),
            edges.requires((self.center_x, self.center_z, self.current_diameter)),
        ensures
            exists|near: (Double, Double), far: (Double, Double), found: BorderEdges|
                {
                    &&& #[trigger] corner.ensures((x as i64, z as i64), near)
                    &&& #[trigger] corner.ensures(((x + 1) as i64, (z + 1) as i64), far)
                    &&& #[trigger] edges.ensures(
                        (self.center_x, self.center_z, self.current_diameter),
                        found,
                    )
                    &&& inside == (found.spec_contains(near.0, near.1) && found.spec_contains(
                        far.0,
                        far.1,
                    ))
                },
    {
        let near = corner(x as i64, z as i64);
        let far = corner(x as i64 + 1, z as i64 + 1);
        let found = edges(self.center_x, self.center_z, self.current_diameter);
        let inside = found.contains(near.0, near.1) && found.contains(far.0, far.1);
        assert(corner.ensures((x as i64, z as i64), near));
        assert(corner.ensures(((x + 1) as i64, (z + 1) as i64), far));
        assert(edges.ensures((self.center_x, self.center_z, self.current_diameter), found));
        inside
    }

    /// Signed distance of a point to the nearest edge at the current size. `edges` tells the edges
    /// of a border by its center and its size; `minus` subtracts.
    pub fn distance_to_border<
        M: Fn(Double, Double) -> Double,
        F: FnOnce(Double, Double, Double) -> BorderEdges,
    >(&self, x: Double, z: Double, minus: M, edges: F) -> (distance: Double)
        requires
            edges.requires((self.center_x, self.center_z, self.current_diameter)),
            forall|a: Double, b: Double| minus.requires((a, b)),
        ensures
            exists|found: BorderEdges, west: Double, east: Double, north: Double, south: Double|
                {
                    &&& #[trigger] edges.ensures(
                        (self.center_x, self.center_z, self.current_diameter),
                        found,
                    )
                    &&& #[trigger] minus.ensures((x, found.min_x), west)
                    &&& #[trigger] minus.ensures((found.max_x, x), east)
                    &&& #[trigger] minus.ensures((z, found.min_z), north)
                    &&& #[trigger] minus.ensures((found.max_z, z), south)
                    &&& distance == least_of(west, east, north, south)
                },
    {
        let found = edges(self.center_x, self.center_z, self.current_diameter);
        let west = minus(x, found.min_x);
        let east = minus(found.max_x, x);
        let north = minus(z, found.min_z);
        let south = minus(found.max_z, z);
        assert(edges.ensures((self.center_x, self.center_z, self.current_diameter), found));
        assert(minus.ensures((x, found.min_x), west));
        assert(minus.ensures((found.max_x, x), east));
        assert(minus.ensures((z, found.min_z), north));
        assert(minus.ensures((found.max_z, z), south));
        west.min_of(east).min_of(north).min_of(south)
    }

    /// The nearest block within limits at the current size: from a block outside the lower edge in
    /// `x`, and from the lower edge in `z`, up to the last block before the upper edges. `edges`
    /// tells the edges of a border by its center and its size, rounded down.
    pub fn clamp_block<F: FnOnce(Double, Double, Double) -> BlockEdges>(
        &self,
        x: i32,
        z: i32,
        edges: F,
    ) -> (block: (i32, i32))
        requires
            edges.requires((self.center_x, self.center_z, self.current_diameter)),
            forall|found: BlockEdges| #[trigger]
                edges.ensures((self.center_x, self.center_z, self.current_diameter), found)
                    ==> found.has_room(),
        ensures
            exists|found: BlockEdges| #[trigger]
                edges.ensures((self.center_x, self.center_z, self.current_diameter), found)
                    && block == found.nearest(x, z),
    {
        let found = edges(self.center_x, self.center_z, self.current_diameter);
        assert(edges.ensures((self.center_x, self.center_z, self.current_diameter), found));
        found.clamp_block(x, z)
    }
}

impl BorderEdges {
    /// Whether a point is inside.
    pub open spec fn spec_contains(self, x: Double, z: Double) -> bool {
        &&& x.at_least(self.min_x)
        &&& self.max_x.above(x)
        &&& z.at_least(self.min_z)
        &&& self.max_z.above(z)
    }

    /// Whether a point is inside.
    #[must_use]
    pub fn contains(&self, x: Double, z: Double) -> (inside: bool)
        ensures
            inside == self.spec_contains(x, z),
    {
        x.reaches(self.min_x) && self.max_x.exceeds(x) && z.reaches(self.min_z)
            && self.max_z.exceeds(z)
    }
}

/// A number, or the nearest one within limits.
pub open spec fn clamped(value: int, low: int, high: int) -> int {
    if value < low {
        low
    } else if value > high {
        high
    } else {
        value
    }
}

fn clamp(value: i32, low: i32, high: i32) -> (nearest: i32)
    ensures
        nearest == clamped(value as int, low as int, high as int),
{
    if value < low {
        low
    } else if value > high {
        high
    } else {
        value
    }
}

impl BlockEdges {
    /// Whether there is any block within limits.
    pub open spec fn has_room(self) -> bool {
        &&& i32::MIN < self.min_x <= self.max_x
        &&& self.min_z < self.max_z
    }

    /// The nearest block within limits. In `x` the lower limit is a block outside.
    pub open spec fn nearest(self, x: i32, z: i32) -> (i32, i32) {
        (
            clamped(x as int, self.min_x - 1, self.max_x - 1) as i32,
            clamped(z as int, self.min_z as int, self.max_z - 1) as i32,
        )
    }

    /// The nearest block within limits.
    #[must_use]
    pub fn clamp_block(&self, x: i32, z: i32) -> (block: (i32, i32))
        requires
            self.has_room(),
        ensures
            block == self.nearest(x, z),
            self.min_x - 1 <= block.0 <= self.max_x - 1,
            self.min_z <= block.1 <= self.max_z - 1,
            self.min_x - 1 <= x <= self.max_x - 1 ==> block.0 == x,
            self.min_z <= z <= self.max_z - 1 ==> block.1 == z,
    {
        (clamp(x, self.min_x - 1, self.max_x - 1), clamp(z, self.min_z, self.max_z - 1))
    }
}

/// However the sizes on the way come out, a border that moves is at its new size once the ticks
/// of its movement are over, and stays there.
pub proof fn law_border_arrives(border: Worldborder, between: Seq<Double>)
    requires
        border.wf(),
        border.settled(),
        between.len() >= border.lerp_ticks_remaining,
    ensures
        border.after_ticks(between).wf(),
        border.after_ticks(between).lerp_ticks_remaining == 0,
        border.after_ticks(between).current_diameter == border.new_diameter,
        border.after_ticks(between).new_diameter == border.new_diameter,
    decreases between.len(),
{
    if between.len() > 0 {
        law_border_arrives(border.ticked(between[0]), between.skip(1));
    }
}

/// Setting a size without time to move puts the border there at once, and so does time that is
/// not positive.
pub proof fn law_no_time_means_at_once(border: Worldborder, diameter: Double, speed: Option<i64>)
    requires
        speed is None || speed->0 <= 0,
    ensures
        border.resized(diameter, speed).current_diameter == diameter,
        border.resized(diameter, speed).lerp_ticks_remaining == 0,
{
}

/// A movement starts where the last one was to end.
pub proof fn law_movement_starts_at_last_goal(border: Worldborder, diameter: Double, ticks: i64)
    requires
        ticks > 0,
    ensures
        border.resized(diameter, Some(ticks)).old_diameter == border.new_diameter,
        border.resized(diameter, Some(ticks)).current_diameter == border.new_diameter,
        border.resized(diameter, Some(ticks)).new_diameter == diameter,
        border.resized(diameter, Some(ticks)).lerp_ticks_remaining == ticks,
{
}

/// The sign of the distance to the border tells the side, if subtracting gives the right signs: a
/// point with a distance above zero is inside, and one with a distance below zero is outside.
pub proof fn law_distance_tells_side(
    edges: BorderEdges,
    x: Double,
    z: Double,
    west: Double,
    east: Double,
    north: Double,
    south: Double,
)
    requires
        sign_tells(west, x, edges.min_x),
        sign_tells(east, edges.max_x, x),
        sign_tells(north, z, edges.min_z),
        sign_tells(south, edges.max_z, z),
    ensures
        least_of(west, east, north, south).above(Double { bits: 0 }) ==> edges.spec_contains(x, z),
        (Double { bits: 0 }).above(least_of(west, east, north, south)) ==> !edges.spec_contains(x, z),
{
}

/// Clamping twice is clamping once, and a number within limits stays what it is.
pub proof fn law_clamping_is_idempotent(value: int, low: int, high: int)
    requires
        low <= high,
    ensures
        low <= clamped(value, low, high) <= high,
        clamped(clamped(value, low, high), low, high) == clamped(value, low, high),
        low <= value <= high ==> clamped(value, low, high) == value,
{
}

/// A block within limits stays where it is, and any other goes to the block within limits that is
/// nearest in either direction. In `x` the limits are a block before the lower edge and the last
/// block before the upper one; in `z` they are the lower edge and the last block before the upper
/// one.
pub proof fn law_clamped_block_is_nearest(edges: BlockEdges, x: i32, z: i32, other: (int, int))
    requires
        i32::MIN < edges.min_x <= edges.max_x,
        edges.min_z < edges.max_z,
        edges.min_x - 1 <= other.0 <= edges.max_x - 1,
        edges.min_z <= other.1 <= edges.max_z - 1,
    ensures
        ({
            let (a, b) = edges.nearest(x, z);
            &&& edges.min_x - 1 <= a <= edges.max_x - 1
            &&& edges.min_z <= b <= edges.max_z - 1
            &&& edges.min_x - 1 <= x <= edges.max_x - 1 ==> a == x
            &&& edges.min_z <= z <= edges.max_z - 1 ==> b == z
            &&& (x <= a <= other.0 || other.0 <= a <= x)
            &&& (z <= b <= other.1 || other.1 <= b <= z)
        }),
{
}

/// A point is inside from the lower edges on and before the upper ones, each coordinate by its own.
pub proof fn law_inside_is_between_edges(edges: BorderEdges, x: Double, z: Double)
    ensures
        edges.spec_contains(x, z) <==> {
            &&& !x.is_nan() && !z.is_nan()
            &&& !edges.min_x.is_nan() && !edges.max_x.is_nan()
            &&& !edges.min_z.is_nan() && !edges.max_z.is_nan()
            &&& edges.min_x.value() <= x.value() < edges.max_x.value()
            &&& edges.min_z.value() <= z.value() < edges.max_z.value()
        },
{
}

/// The distance to the border is no more than to any edge, and that to one of them.
pub proof fn law_distance_is_to_the_nearest_edge(
    west: Double,
    east: Double,
    north: Double,
    south: Double,
)
    requires
        !west.is_nan(),
        !east.is_nan(),
        !north.is_nan(),
        !south.is_nan(),
    ensures
        ({
            let least = least_of(west, east, north, south);
            &&& least == west || least == east || least == north || least == south
            &&& least.value() <= west.value()
            &&& least.value() <= east.value()
            &&& least.value() <= north.value()
            &&& least.value() <= south.value()
        }),
{
}

/// Setting the size moves nothing else, aims at the size, remembers where the border was to end
/// before, and leaves as many ticks as were given. While there are ticks left the border stays
/// where it was to end.
pub proof fn law_resizing(border: Worldborder, diameter: Double, speed: Option<i64>)
    ensures
        ({
            let after = border.resized(diameter, speed);
            let ticks = if speed is Some && speed->0 > 0 {
                speed->0
            } else {
                0
            };
            &&& after.center_x == border.center_x
            &&& after.center_z == border.center_z
            &&& after.speed == border.speed
            &&& after.portal_teleport_boundary == border.portal_teleport_boundary
            &&& after.warning_blocks == border.warning_blocks
            &&& after.warning_time == border.warning_time
            &&& after.damage_per_block == border.damage_per_block
            &&& after.buffer == border.buffer
            &&& after.old_diameter == border.new_diameter
            &&& after.new_diameter == diameter
            &&& after.lerp_ticks_total == ticks
            &&& after.lerp_ticks_remaining == ticks
            &&& ticks > 0 ==> after.current_diameter == border.new_diameter
            &&& ticks == 0 ==> after.current_diameter == diameter
        }),
{
}

/// What clients are told of a new size is what the border does: where the movement starts, where it
/// ends and how long it takes, or just the size if no time was given.
pub proof fn law_clients_see_the_resizing(
    border: Worldborder,
    diameter: Double,
    speed: Option<i64>,
)
    ensures
        ({
            let after = border.resized(diameter, speed);
            match border.resize_packet(diameter, speed) {
                BorderPacket::SetLerpSize { from, to, ticks } => {
                    &&& speed is Some
                    &&& from == after.old_diameter
                    &&& to == after.new_diameter
                    &&& ticks == after.lerp_ticks_remaining
                },
                BorderPacket::SetSize { diameter: told } => {
                    &&& speed is None
                    &&& told == after.current_diameter
                },
                _ => false,
            }
        }),
{
}

/// A tick takes one off the ticks that are left and changes nothing but them and the size. With the
/// last one the border is where it was to end, and without any left it stays as it is.
pub proof fn law_ticks_count_down(border: Worldborder, between: Double)
    requires
        border.wf(),
    ensures
        ({
            let after = border.ticked(between);
            &&& after == (Worldborder {
                lerp_ticks_remaining: after.lerp_ticks_remaining,
                current_diameter: after.current_diameter,
                ..border
            })
            &&& border.lerp_ticks_remaining > 0 ==> after.lerp_ticks_remaining
                == border.lerp_ticks_remaining - 1
            &&& border.lerp_ticks_remaining > 0 && after.lerp_ticks_remaining > 0
                ==> after.current_diameter == between
            &&& border.lerp_ticks_remaining > 0 && after.lerp_ticks_remaining == 0
                ==> after.current_diameter == border.new_diameter
            &&& border.lerp_ticks_remaining == 0 ==> after == border
        }),
{
}

/// Two sizes in a row: the second movement starts where the first one was to end, however far it
/// came.
pub proof fn law_second_resizing_starts_at_first_goal(
    border: Worldborder,
    first: Double,
    speed: Option<i64>,
    between: Seq<Double>,
    second: Double,
    ticks: i64,
)
    requires
        ticks > 0,
    ensures
        border.resized(first, speed).after_ticks(between).resized(second, Some(ticks)).old_diameter
            == first,
        border.resized(first, speed).after_ticks(between).resized(
            second,
            Some(ticks),
        ).current_diameter == first,
{
    lemma_ticks_keep_goal(border.resized(first, speed), between);
}

/// Ticks do not change where a movement ends.
proof fn lemma_ticks_keep_goal(border: Worldborder, between: Seq<Double>)
    ensures
        border.after_ticks(between).new_diameter == border.new_diameter,
    decreases between.len(),
{
    if between.len() > 0 {
        lemma_ticks_keep_goal(border.ticked(between[0]), between.skip(1));
    }
}

/// Damage for each block outside is a fifth, as near as the format can tell, and starts five blocks
/// outside.
pub proof fn law_defaults()
    ensures
        ({
            let one = (Single { bits: 0x3f80_0000 }).value();
            let fifth = (Single { bits: DAMAGE_PER_BLOCK_BITS }).value();
            let below = (Single { bits: (DAMAGE_PER_BLOCK_BITS - 1) as u32 }).value();
            &&& 2 * (5 * fifth - one) <= 5 * (fifth - below)
            &&& 2 * (one - 5 * fifth) <= 5 * (fifth - below)
            &&& (Single { bits: BUFFER_BITS }).value() == 5 * one
            &&& PORTAL_TELEPORT_BOUNDARY == 30_000_000 - 16
        }),
{
    lemma_single_value(127, 0);
    lemma_single_value(129, 0x20_0000);
    lemma_single_value(124, 0x4c_cccd);
    lemma_single_value(124, 0x4c_cccc);
    lemma_pow2_unfold(124);
    lemma_pow2_unfold(125);
    lemma_pow2_unfold(126);
    lemma_pow2_unfold(127);
    lemma_pow2_unfold(128);
    let p = pow2(123) as int;
    assert(pow2(126) == 8 * p && pow2(128) == 32 * p);
    assert(0x80_0000 * (8 * p) == 0x400_0000 * p) by (nonlinear_arith);
    assert(0xa0_0000 * (32 * p) == 0x1400_0000 * p) by (nonlinear_arith);
    assert(0xcc_cccd * p == 0xcc_cccc * p + p) by (nonlinear_arith);
    vstd::arithmetic::power2::lemma_pow2_pos(123);
}

/// A new border is at rest around its center at its size, and a client that joins is told the same.
pub proof fn law_new_borders_are_at_rest(
    x: Double,
    z: Double,
    diameter: Double,
    speed: i64,
    warning_blocks: i32,
    warning_time: i32,
    border: Worldborder,
    packet: BorderPacket,
)
    requires
        call_ensures(
            Worldborder::new,
            (x, z, diameter, speed, warning_blocks, warning_time),
            border,
        ),
        call_ensures(Worldborder::init_client, (&border,), packet),
    ensures
        border.current_diameter == diameter,
        border.lerp_ticks_remaining == 0,
        forall|between: Double| #[trigger] border.ticked(between) == border,
        packet == (BorderPacket::Initialize {
            center_x: x,
            center_z: z,
            old_diameter: diameter,
            new_diameter: diameter,
            speed,
            portal_teleport_boundary: 29_999_984,
            warning_blocks,
            warning_time,
        }),
{
}

/// A client that joins is told where the border comes from and where it goes, not where it is.
pub proof fn law_joining_clients_see_the_border(border: Worldborder, packet: BorderPacket)
    requires
        call_ensures(Worldborder::init_client, (&border,), packet),
    ensures
        packet is Initialize,
        packet->Initialize_center_x == border.center_x,
        packet->Initialize_center_z == border.center_z,
        packet->Initialize_old_diameter == border.old_diameter,
        packet->Initialize_new_diameter == border.new_diameter,
        packet->Initialize_speed == border.speed,
        packet->Initialize_portal_teleport_boundary == border.portal_teleport_boundary,
        packet->Initialize_warning_blocks == border.warning_blocks,
        packet->Initialize_warning_time == border.warning_time,
{
}

} // verus!
