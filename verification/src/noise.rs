//! The configuration of the coherent-noise generator of each celestial body.
//!
//! A configuration is plain data. Whoever owns a generator builds it from the
//! configuration of the selected body and swaps it whole when the body
//! changes.

use vstd::prelude::*;

verus! {

/// The family of the base noise.
#[derive(Clone, Copy, Debug, PartialEq, Eq, Structural)]
pub enum NoiseFamily {
    OpenSimplex2,
    OpenSimplex2S,
    Perlin,
}

/// How octaves of the base noise are combined.
#[derive(Clone, Copy, Debug, PartialEq, Eq, Structural)]
pub enum FractalMode {
    /// A single octave.
    Single,
    /// Fractal Brownian motion.
    FBm,
    Ridged,
    PingPong,
    DomainWarpProgressive,
}

/// Everything that fixes a generator. `lacunarity`, `gain` and `frequency`
/// are fixed-point reals.
#[derive(Clone, Copy, Debug, PartialEq, Eq, Structural)]
pub struct NoiseConfig {
    pub seed: i32,
    pub family: NoiseFamily,
    pub fractal: FractalMode,
    pub octaves: i32,
    pub lacunarity: i32,
    pub gain: i32,
    pub frequency: i32,
}

/// The configuration of a generator that nothing was set on: seed 1337,
/// one octave of OpenSimplex2 at frequency 0.01.
pub open spec fn plain_noise() -> NoiseConfig {
    NoiseConfig {
        seed: 1337,
        family: NoiseFamily::OpenSimplex2,
        fractal: FractalMode::Single,
        octaves: 3,
        lacunarity: 20_000,
        gain: 5_000,
        frequency: 100,
    }
}

/// The terrain of the terrestrial body.
pub open spec fn earth_noise() -> NoiseConfig {
    NoiseConfig {
        seed: 1337,
        family: NoiseFamily::OpenSimplex2S,
        fractal: FractalMode::Ridged,
        octaves: 5,
        lacunarity: 30_000,
        gain: 5_000,
        frequency: 5_000,
    }
}

/// The clouds of the terrestrial body: large and soft.
pub open spec fn cloud_noise() -> NoiseConfig {
    NoiseConfig {
        seed: 40,
        family: NoiseFamily::Perlin,
        fractal: FractalMode::FBm,
        octaves: 2,
        lacunarity: 30_000,
        gain: 5_000,
        frequency: 100,
    }
}

/// The surface of the red rocky body.
pub open spec fn mars_noise() -> NoiseConfig {
    NoiseConfig {
        seed: 1234,
        family: NoiseFamily::Perlin,
        fractal: FractalMode::Ridged,
        octaves: 4,
        lacunarity: 20_000,
        gain: 5_000,
        frequency: 15_000,
    }
}

/// The surface of the moon.
pub open spec fn moon_noise() -> NoiseConfig {
    NoiseConfig {
        seed: 4321,
        family: NoiseFamily::OpenSimplex2,
        fractal: FractalMode::PingPong,
        octaves: 2,
        lacunarity: 20_000,
        gain: 5_000,
        frequency: 30_000,
    }
}

/// The surface of the smallest rocky body.
pub open spec fn mercury_noise() -> NoiseConfig {
    NoiseConfig {
        seed: 4321,
        family: NoiseFamily::Perlin,
        fractal: FractalMode::PingPong,
        octaves: 5,
        lacunarity: 20_000,
        gain: 10_000,
        frequency: 50_000,
    }
}

/// The atmosphere of the largest gas giant.
pub open spec fn jupiter_noise() -> NoiseConfig {
    NoiseConfig {
        seed: 5678,
        family: NoiseFamily::OpenSimplex2,
        fractal: FractalMode::DomainWarpProgressive,
        octaves: 6,
        lacunarity: 20_000,
        gain: 5_000,
        frequency: 20_000,
    }
}

/// The bands of the largest gas giant.
pub open spec fn jupiter_band_noise() -> NoiseConfig {
    NoiseConfig {
        seed: 7890,
        family: NoiseFamily::OpenSimplex2,
        fractal: FractalMode::FBm,
        octaves: 3,
        lacunarity: 20_000,
        gain: 5_000,
        frequency: 10_000,
    }
}

/// The atmosphere of the pale gas giant.
pub open spec fn urano_noise() -> NoiseConfig {
    NoiseConfig {
        seed: 2021,
        family: NoiseFamily::OpenSimplex2,
        fractal: FractalMode::Ridged,
        octaves: 4,
        lacunarity: 20_000,
        gain: 4_000,
        frequency: 2_000,
    }
}

/// The surface noise of the body that a shader id selects. The ringed gas
/// giant and its rings use a plain generator; an id that names no body gets
/// the terrestrial terrain.
pub open spec fn noise_of(current_shader: u8) -> NoiseConfig {
    if current_shader == 1 {
        earth_noise()
    } else if current_shader == 2 {
        mars_noise()
    } else if current_shader == 3 {
        mercury_noise()
    } else if current_shader == 4 {
        plain_noise()
    } else if current_shader == 5 {
        jupiter_noise()
    } else if current_shader == 6 {
        urano_noise()
    } else if current_shader == 8 {
        moon_noise()
    } else if current_shader == 9 {
        plain_noise()
    } else {
        earth_noise()
    }
}

/// The configuration of a generator with nothing set.
pub fn create_plain_noise() -> (config: NoiseConfig)
    ensures
        config == plain_noise(),
{
    NoiseConfig {
        seed: 1337,
        family: NoiseFamily::OpenSimplex2,
        fractal: FractalMode::Single,
        octaves: 3,
        lacunarity: 20_000,
        gain: 5_000,
        frequency: 100,
    }
}

/// The terrain noise of the terrestrial body.
pub fn create_earth_noise() -> (config: NoiseConfig)
    ensures
        config == earth_noise(),
{
    NoiseConfig {
        seed: 1337,
        family: NoiseFamily::OpenSimplex2S,
        fractal: FractalMode::Ridged,
        octaves: 5,
        lacunarity: 30_000,
        gain: 5_000,
        frequency: 5_000,
    }
}

/// The cloud noise of the terrestrial body.
pub fn create_cloud_noise() -> (config: NoiseConfig)
    ensures
        config == cloud_noise(),
{
    NoiseConfig {
        seed: 40,
        family: NoiseFamily::Perlin,
        fractal: FractalMode::FBm,
        octaves: 2,
        lacunarity: 30_000,
        gain: 5_000,
        frequency: 100,
    }
}

/// The surface noise of the red rocky body.
pub fn create_mars_noise() -> (config: NoiseConfig)
    ensures
        config == mars_noise(),
{
    NoiseConfig {
        seed: 1234,
        family: NoiseFamily::Perlin,
        fractal: FractalMode::Ridged,
        octaves: 4,
        lacunarity: 20_000,
        gain: 5_000,
        frequency: 15_000,
    }
}

/// The surface noise of the moon.
pub fn create_moon_noise() -> (config: NoiseConfig)
    ensures
        config == moon_noise(),
{
    NoiseConfig {
        seed: 4321,
        family: NoiseFamily::OpenSimplex2,
        fractal: FractalMode::PingPong,
        octaves: 2,
        lacunarity: 20_000,
        gain: 5_000,
        frequency: 30_000,
    }
}

/// The surface noise of the smallest rocky body.
pub fn create_mercury_noise() -> (config: NoiseConfig)
    ensures
        config == mercury_noise(),
{
    NoiseConfig {
        seed: 4321,
        family: NoiseFamily::Perlin,
        fractal: FractalMode::PingPong,
        octaves: 5,
        lacunarity: 20_000,
        gain: 10_000,
        frequency: 50_000,
    }
}

/// The atmosphere noise of the largest gas giant.
pub fn create_jupiter_noise() -> (config: NoiseConfig)
    ensures
        config == jupiter_noise(),
{
    NoiseConfig {
        seed: 5678,
        family: NoiseFamily::OpenSimplex2,
        fractal: FractalMode::DomainWarpProgressive,
        octaves: 6,
        lacunarity: 20_000,
        gain: 5_000,
        frequency: 20_000,
    }
}

/// The band noise of the largest gas giant.
pub fn create_jupiter_band_noise() -> (config: NoiseConfig)
    ensures
        config == jupiter_band_noise(),
{
    NoiseConfig {
        seed: 7890,
        family: NoiseFamily::OpenSimplex2,
        fractal: FractalMode::FBm,
        octaves: 3,
        lacunarity: 20_000,
        gain: 5_000,
        frequency: 10_000,
    }
}

/// The atmosphere noise of the pale gas giant.
pub fn create_urano_noise() -> (config: NoiseConfig)
    ensures
        config == urano_noise(),
{
    NoiseConfig {
        seed: 2021,
        family: NoiseFamily::OpenSimplex2,
        fractal: FractalMode::Ridged,
        octaves: 4,
        lacunarity: 20_000,
        gain: 4_000,
        frequency: 2_000,
    }
}

/// The surface noise of the body that a shader id selects.
pub fn create_noise(current_shader: u8) -> (config: NoiseConfig)
    ensures
        config == noise_of(current_shader),
{
    match current_shader {
        1 => create_earth_noise(),
        2 => create_mars_noise(),
        3 => create_mercury_noise(),
        4 => create_plain_noise(),
        5 => create_jupiter_noise(),
        6 => create_urano_noise(),
        8 => create_moon_noise(),
        9 => create_plain_noise(),
        _ => create_earth_noise(),
    }
}

} // verus!
