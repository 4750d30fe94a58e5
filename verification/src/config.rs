//! Configuration of worlds and levels.

use vstd::prelude::*;

verus! {

/// Settings of a level. `C` and `L` hold the settings of chunks and of lighting.
#[derive(Debug)]
pub struct LevelConfig<C, L> {
    pub chunk: C,
    pub lighting: L,
    /// Experimental: block light is computed on a graphics processor.
    pub gpu_experimental_lighting: bool,
    /// Experimental: terrain noise is computed on a graphics processor.
    pub gpu_experimental_terrain_noise: bool,
    /// Ticks between autosaves; none if zero.
    pub autosave_ticks: u64,
}

/// What is written down of a level's settings. Only the chunk settings have to be there.
#[derive(Debug)]
pub struct LevelConfigRecord<C, L> {
    pub chunk: C,
    pub lighting: Option<L>,
    pub gpu_experimental_lighting: Option<bool>,
    pub gpu_experimental_terrain_noise: Option<bool>,
    pub autosave_ticks: Option<u64>,
}

/// Five minutes at 20 ticks a second.
#[must_use]
pub fn default_autosave_ticks() -> (ticks: u64)
    ensures
        ticks == 5 * 60 * 20,
{
    6000
}

impl<C, L> LevelConfig<C, L> {
    /// The settings that a record stands for. What is missing gets its default; `lighting` are
    /// the default lighting settings.
    #[must_use]
    pub fn from_record(record: LevelConfigRecord<C, L>, lighting: L) -> (config: Self)
        ensures
            config == (LevelConfig {
                chunk: record.chunk,
                lighting: match record.lighting {
                    Some(written) => written,
                    None => lighting,
                },
                gpu_experimental_lighting: record.gpu_experimental_lighting == Some(true),
                gpu_experimental_terrain_noise: record.gpu_experimental_terrain_noise == Some(true),
                autosave_ticks: match record.autosave_ticks {
                    Some(ticks) => ticks,
                    None => 6000,
                },
            }),
    {
        LevelConfig {
            chunk: record.chunk,
            lighting: match record.lighting {
                Some(written) => written,
                None => lighting,
            },
            gpu_experimental_lighting: match record.gpu_experimental_lighting {
                Some(flag) => flag,
                None => false,
            },
            gpu_experimental_terrain_noise: match record.gpu_experimental_terrain_noise {
                Some(flag) => flag,
                None => false,
            },
            autosave_ticks: match record.autosave_ticks {
                Some(ticks) => ticks,
                None => default_autosave_ticks(),
            },
        }
    }
}

impl<C: Clone, L: Clone> Clone for LevelConfig<C, L> {
    fn clone(&self) -> (copy: Self)
        ensures
            cloned(self.chunk, copy.chunk),
            cloned(self.lighting, copy.lighting),
            copy.gpu_experimental_lighting == self.gpu_experimental_lighting,
            copy.gpu_experimental_terrain_noise == self.gpu_experimental_terrain_noise,
            copy.autosave_ticks == self.autosave_ticks,
    {
        LevelConfig {
            chunk: self.chunk.clone(),
            lighting: self.lighting.clone(),
            gpu_experimental_lighting: self.gpu_experimental_lighting,
            gpu_experimental_terrain_noise: self.gpu_experimental_terrain_noise,
            autosave_ticks: self.autosave_ticks,
        }
    }
}

impl<C: Default, L: Default> Default for LevelConfig<C, L> {
    /// Everything at its own default, so without autosaves.
    fn default() -> (config: Self)
        ensures
            C::default.ensures((), config.chunk),
            L::default.ensures((), config.lighting),
            !config.gpu_experimental_lighting,
            !config.gpu_experimental_terrain_noise,
            config.autosave_ticks == 0,
    {
        LevelConfig {
            chunk: C::default(),
            lighting: L::default(),
            gpu_experimental_lighting: false,
            gpu_experimental_terrain_noise: false,
            autosave_ticks: 0,
        }
    }
}

/// What is written down is taken as it is. What is missing is off, or the default lighting, or an
/// autosave every five minutes of twenty ticks a second.
pub proof fn law_missing_settings_get_defaults<C, L>(
    record: LevelConfigRecord<C, L>,
    lighting: L,
    config: LevelConfig<C, L>,
)
    requires
        call_ensures(LevelConfig::<C, L>::from_record, (record, lighting), config),
    ensures
        config.chunk == record.chunk,
        record.lighting is Some ==> config.lighting == record.lighting->0,
        record.lighting is None ==> config.lighting == lighting,
        record.gpu_experimental_lighting is Some ==> config.gpu_experimental_lighting
            == record.gpu_experimental_lighting->0,
        record.gpu_experimental_lighting is None ==> !config.gpu_experimental_lighting,
        record.gpu_experimental_terrain_noise is Some ==> config.gpu_experimental_terrain_noise
            == record.gpu_experimental_terrain_noise->0,
        record.gpu_experimental_terrain_noise is None ==> !config.gpu_experimental_terrain_noise,
        record.autosave_ticks is Some ==> config.autosave_ticks == record.autosave_ticks->0,
        record.autosave_ticks is None ==> config.autosave_ticks == 5 * 60 * 20,
{
}

} // verus!
