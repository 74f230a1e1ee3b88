//! The procedural shaders: from a fragment and the noise sampled for it to a
//! color.
//!
//! A shader never samples noise itself. [`sample_points`] says where the noise
//! of a fragment is to be sampled, and the shader takes the samples, as
//! fixed-point reals, in that order.

use vstd::prelude::*;
use crate::color::Color;
use crate::fixed::{
    clamp_unit, diffuse, div_floor, lambert, lemma_product_bound, unit_clamp, Vector3, UNIT,
};
use crate::fragment::Fragment;
use crate::uniforms::Uniforms;

verus! {

/// The noise sampled for one fragment, in the order of its sample points. A
/// shader that needs fewer samples ignores the rest.
#[derive(Clone, Copy, Debug, PartialEq, Eq, Structural)]
pub struct NoiseSamples {
    pub first: i32,
    pub second: i32,
    pub third: i32,
}

/// Which generator a sample is taken from.
#[derive(Clone, Copy, Debug, PartialEq, Eq, Structural)]
pub enum NoiseChannel {
    Surface,
    Cloud,
}

/// A point of the noise domain, as fixed-point reals, and the generator to
/// sample there.
#[derive(Clone, Copy, Debug, PartialEq, Eq, Structural)]
pub struct SamplePoint {
    pub channel: NoiseChannel,
    pub x: i64,
    pub y: i64,
}

/// The closed set of shaders.
#[derive(Clone, Copy, Debug, PartialEq, Eq, Structural)]
pub enum Shader {
    /// Oceans, land and drifting clouds.
    Earth,
    /// Red rock.
    Mars,
    /// Gray rock with tinted patches.
    Mercury,
    /// Cratered gray.
    Moon,
    /// Flat black, for every id that names no shader.
    Flat,
}

/// The two sides of the terrain classification.
#[derive(Clone, Copy, Debug, PartialEq, Eq, Structural)]
pub enum Surface {
    Water,
    Land,
}

/// Terrain noise above this is land; at or below it, water.
pub const LAND_THRESHOLD: i32 = 3_000;

/// Cloud noise above this shows a cloud; at or below it, none.
pub const CLOUD_THRESHOLD: i32 = 1_000;

/// The shader that an id selects.
pub open spec fn shader_of(id: u8) -> Shader {
    if id == 1 {
        Shader::Earth
    } else if id == 2 {
        Shader::Mars
    } else if id == 3 {
        Shader::Mercury
    } else if id == 8 {
        Shader::Moon
    } else {
        Shader::Flat
    }
}

/// The side of the terrain classification that a noise value falls on. The
/// threshold itself is water.
pub open spec fn surface_of(noise: int) -> Surface {
    if noise > LAND_THRESHOLD {
        Surface::Land
    } else {
        Surface::Water
    }
}

/// The quotient `n / d` as a fixed-point real, rounded down and limited to
/// the unit interval.
pub open spec fn fraction(n: int, d: int) -> int {
    unit_clamp(n * UNIT / d)
}

/// A noise value moved from `[-1, 1]` to `[0, 1]`, rounded down.
pub open spec fn normalized(noise: int) -> int {
    (noise + UNIT) / 2
}

/// The factor that lighting multiplies a color by: the ambient share plus
/// the directional share of the diffuse term, rounded down.
pub open spec fn light_level(ambient: int, directional: int, diffuse: int) -> int {
    ambient + directional * diffuse / (UNIT as int)
}

/// Where the light of the terrestrial body stands.
pub open spec fn earth_light() -> Vector3 {
    Vector3 { x: 10_000, y: 10_000, z: 30_000 }
}

/// Where the light of the rocky bodies stands.
pub open spec fn rock_light() -> Vector3 {
    Vector3 { x: 0, y: 80_000, z: 90_000 }
}

/// Where the light of the moon stands.
pub open spec fn moon_light() -> Vector3 {
    Vector3 { x: 100_000, y: 100_000, z: 100_000 }
}

/// The terrain color of the terrestrial body before lighting: between dark
/// and light green on land, by how far the noise is above the threshold, and
/// between dark and light blue in water, by how near it is to the threshold.
pub open spec fn terrain(noise: int) -> Color {
    match surface_of(noise) {
        Surface::Land => Color::of_fixed(1_000, 5_000, 0).mixed(
            Color::of_fixed(2_000, 8_000, 2_000),
            fraction(noise - LAND_THRESHOLD, UNIT - LAND_THRESHOLD),
        ),
        Surface::Water => Color::of_fixed(0, 1_000, 6_000).mixed(
            Color::of_fixed(0, 3_000, 7_000),
            fraction(noise, LAND_THRESHOLD as int),
        ),
    }
}

/// The cloud layer over a lit color: nothing at or below the cloud
/// threshold; above it near-white, added with an opacity between 0.3 and 0.5
/// that follows `pulse`, times how far the noise is above the threshold.
pub open spec fn clouded(lit: Color, cloud: int, pulse: int) -> Color {
    if cloud > CLOUD_THRESHOLD {
        let intensity = fraction(cloud - CLOUD_THRESHOLD, UNIT - CLOUD_THRESHOLD);
        let opacity = 3_000 + 2_000 * unit_clamp(pulse) / (UNIT as int);
        lit.plus(Color::of_fixed(9_000, 9_000, 9_000).times(intensity * opacity / (UNIT as int)))
    } else {
        lit
    }
}

/// The color of a fragment of the terrestrial body: terrain from the first
/// sample, lit with a tenth of ambient light, under clouds from the second.
pub open spec fn earth_color(fragment: Fragment, samples: NoiseSamples, pulse: int) -> Color {
    let d = lambert(fragment.normal, fragment.world_position, earth_light());
    clouded(
        terrain(samples.first as int).times(light_level(1_000, 9_000, d)),
        samples.second as int,
        pulse,
    )
}

/// The rock color of the red body before lighting: from dark red over
/// terracotta to bright orange as the noise goes from 0 to 1.
pub open spec fn red_rock(noise: int) -> Color {
    let t = unit_clamp(noise);
    if t < 5_000 {
        Color::of_fixed(4_000, 1_000, 1_000).mixed(Color::of_fixed(6_000, 3_000, 1_000), t * 2)
    } else {
        Color::of_fixed(6_000, 3_000, 1_000).mixed(
            Color::of_fixed(8_000, 4_000, 1_000),
            (t - 5_000) * 2,
        )
    }
}

/// A color under the light of the rocky bodies: an ambient part of 0.15 and
/// a part times the diffuse term, added.
pub open spec fn rock_lit(base: Color, fragment: Fragment) -> Color {
    let d = lambert(fragment.normal, fragment.world_position, rock_light());
    base.times(1_500).plus(base.times(d))
}

/// The color of a fragment of the red rocky body.
pub open spec fn mars_color(fragment: Fragment, samples: NoiseSamples) -> Color {
    rock_lit(red_rock(samples.first as int), fragment)
}

/// The color of a fragment of the moon: between light and dark gray by the
/// normalized first sample, lit with three tenths of ambient light.
pub open spec fn moon_color(fragment: Fragment, samples: NoiseSamples) -> Color {
    let d = lambert(fragment.normal, fragment.world_position, moon_light());
    Color::of_fixed(8_000, 8_000, 8_000).mixed(
        Color::of_fixed(3_000, 3_000, 3_000),
        normalized(samples.first as int),
    ).times(light_level(3_000, 7_000, d))
}

/// The rock color of the smallest body before lighting: four blends in a
/// row, from light gray toward dark gray, brown, a blue tint and light
/// yellow, by the three normalized samples.
pub open spec fn gray_rock(samples: NoiseSamples) -> Color {
    let f1 = normalized(samples.first as int);
    let f2 = normalized(samples.second as int);
    let f3 = normalized(samples.third as int);
    Color::of_fixed(7_000, 7_000, 7_000).mixed(Color::of_fixed(4_000, 4_000, 4_000), f1).mixed(
        Color::of_fixed(5_000, 4_000, 3_000),
        f2 * 5 / 2,
    ).mixed(Color::of_fixed(3_000, 3_000, 7_000), f2 * 3 / 2).mixed(
        Color::of_fixed(8_000, 7_000, 4_000),
        f3,
    )
}

/// The color of a fragment of the smallest rocky body.
pub open spec fn mercury_color(fragment: Fragment, samples: NoiseSamples) -> Color {
    rock_lit(gray_rock(samples), fragment)
}

/// The color of a fragment under the shader that the uniforms select.
pub open spec fn shaded(fragment: Fragment, uniforms: Uniforms, samples: NoiseSamples) -> Color {
    match shader_of(uniforms.current_shader) {
        Shader::Earth => earth_color(fragment, samples, uniforms.pulse as int),
        Shader::Mars => mars_color(fragment, samples),
        Shader::Mercury => mercury_color(fragment, samples),
        Shader::Moon => moon_color(fragment, samples),
        Shader::Flat => Color { r: 0, g: 0, b: 0 },
    }
}

/// Where the noise of a fragment is sampled, in the order in which a shader
/// takes the samples. The terrestrial body samples terrain at the fragment's
/// world position and clouds at a hundred times that, moved by 100 and, in
/// `x`, by a tenth of a unit for each millisecond of `time`. The smallest rocky
/// body samples terrain at the position, at twice and at half of it.
pub open spec fn sample_points_of(shader: Shader, fragment: Fragment, time: u32) -> Seq<
    SamplePoint,
> {
    let x = fragment.world_position.x as int;
    let y = fragment.world_position.y as int;
    let here = SamplePoint { channel: NoiseChannel::Surface, x: x as i64, y: y as i64 };
    match shader {
        Shader::Earth => seq![
            here,
            SamplePoint {
                channel: NoiseChannel::Cloud,
                x: (x * 100 + 100 * UNIT + time * 1_000) as i64,
                y: (y * 100 + 100 * UNIT) as i64,
            },
        ],
        Shader::Mars => seq![here],
        Shader::Mercury => seq![
            here,
            SamplePoint { channel: NoiseChannel::Surface, x: (x * 2) as i64, y: (y * 2) as i64 },
            SamplePoint { channel: NoiseChannel::Surface, x: (x / 2) as i64, y: (y / 2) as i64 },
        ],
        Shader::Moon => seq![here],
        Shader::Flat => seq![],
    }
}

/// The samples that a run of sampled values stands for: the first three
/// values in order, and `0` where there are fewer.
pub open spec fn samples_of(values: Seq<i32>) -> NoiseSamples {
    NoiseSamples {
        first: if values.len() > 0 {
            values[0]
        } else {
            0
        },
        second: if values.len() > 1 {
            values[1]
        } else {
            0
        },
        third: if values.len() > 2 {
            values[2]
        } else {
            0
        },
    }
}

impl NoiseSamples {
    /// Collects the values sampled at the sample points of a fragment, in
    /// the order of the points.
    pub fn from_values(values: &Vec<i32>) -> (samples: NoiseSamples)
        ensures
            samples == samples_of(values@),
    {
        let n: usize = values.len();
        NoiseSamples {
            first: if n > 0 {
                values[0]
            } else {
                0
            },
            second: if n > 1 {
                values[1]
            } else {
                0
            },
            third: if n > 2 {
                values[2]
            } else {
                0
            },
        }
    }
}

/// Selects the shader of an id. An id that names no shader selects the flat
/// one.
pub fn select_shader(id: u8) -> (shader: Shader)
    ensures
        shader == shader_of(id),
{
    match id {
        1 => Shader::Earth,
        2 => Shader::Mars,
        3 => Shader::Mercury,
        8 => Shader::Moon,
        _ => Shader::Flat,
    }
}

/// Classifies terrain noise: land strictly above the threshold, water at or
/// below it.
pub fn classify_surface(noise: i32) -> (surface: Surface)
    ensures
        surface == surface_of(noise as int),
        surface == Surface::Land <==> noise > LAND_THRESHOLD,
{
    if noise > LAND_THRESHOLD {
        Surface::Land
    } else {
        Surface::Water
    }
}

fn fraction_of(n: i64, d: i64) -> (r: i32)
    requires
        d > 0,
        -0x1_0000_0000 <= n <= 0x1_0000_0000,
    ensures
        r == fraction(n as int, d as int),
        0 <= r <= UNIT,
{
    let scaled: i128 = n as i128 * UNIT as i128;
    let q: i128 = div_floor(scaled, d as i128);
    if q < 0 {
        0
    } else if q > UNIT as i128 {
        UNIT
    } else {
        q as i32
    }
}

fn normalized_times(noise: i32, num: i128, den: i128) -> (r: i32)
    requires
        0 < num <= 16,
        0 < den <= 16,
    ensures
        r == unit_clamp(normalized(noise as int) * num as int / den as int),
        0 <= r <= UNIT,
{
    let half: i128 = div_floor(noise as i128 + UNIT as i128, 2);
    proof {
        lemma_product_bound(half as int, num as int, 0x8000_0000, 16);
    }
    let q: i128 = div_floor(half * num, den);
    if q < 0 {
        0
    } else if q > UNIT as i128 {
        UNIT
    } else {
        q as i32
    }
}

fn level(ambient: i32, directional: i32, d: i32) -> (r: i32)
    requires
        0 <= ambient <= UNIT,
        0 <= directional <= UNIT,
        0 <= d <= UNIT,
    ensures
        r == light_level(ambient as int, directional as int, d as int),
{
    assert(0 <= directional * d <= 10_000 * 10_000) by (nonlinear_arith)
        requires
            0 <= directional <= 10_000,
            0 <= d <= 10_000,
    ;
    ambient + directional * d / UNIT
}

/// The terrain color of the terrestrial body for a noise value.
pub fn terrain_color(noise: i32) -> (color: Color)
    ensures
        color == terrain(noise as int),
{
    match classify_surface(noise) {
        Surface::Land => {
            let t: i32 = fraction_of(
                noise as i64 - LAND_THRESHOLD as i64,
                (UNIT - LAND_THRESHOLD) as i64,
            );
            Color::from_fixed(1_000, 5_000, 0).lerp(&Color::from_fixed(2_000, 8_000, 2_000), t)
        },
        Surface::Water => {
            let t: i32 = fraction_of(noise as i64, LAND_THRESHOLD as i64);
            Color::from_fixed(0, 1_000, 6_000).lerp(&Color::from_fixed(0, 3_000, 7_000), t)
        },
    }
}

fn add_clouds(lit: &Color, cloud: i32, pulse: i32) -> (color: Color)
    ensures
        color == clouded(*lit, cloud as int, pulse as int),
{
    if cloud > CLOUD_THRESHOLD {
        let intensity: i32 = fraction_of(
            cloud as i64 - CLOUD_THRESHOLD as i64,
            (UNIT - CLOUD_THRESHOLD) as i64,
        );
        let swing: i32 = clamp_unit(pulse as i64);
        let opacity: i32 = 3_000 + 2_000 * swing / UNIT;
        assert(0 <= intensity * opacity <= 10_000 * 5_000) by (nonlinear_arith)
            requires
                0 <= intensity <= 10_000,
                0 <= opacity <= 5_000,
        ;
        let veil: Color = Color::from_fixed(9_000, 9_000, 9_000).scale(intensity * opacity / UNIT);
        lit.blend_add(&veil)
    } else {
        *lit
    }
}

fn light_rock(base: &Color, fragment: &Fragment) -> (color: Color)
    ensures
        color == rock_lit(*base, *fragment),
{
    let light = Vector3::new(0, 80_000, 90_000);
    let d: i32 = diffuse(&fragment.normal, &fragment.world_position, &light);
    base.scale(1_500).blend_add(&base.scale(d))
}

/// Shades a fragment of the terrestrial body.
pub fn earth_shader(fragment: &Fragment, uniforms: &Uniforms, samples: &NoiseSamples) -> (color:
    Color)
    ensures
        color == earth_color(*fragment, *samples, uniforms.pulse as int),
{
    let base: Color = terrain_color(samples.first);
    let light = Vector3::new(10_000, 10_000, 30_000);
    let d: i32 = diffuse(&fragment.normal, &fragment.world_position, &light);
    let lit: Color = base.scale(level(1_000, 9_000, d));
    add_clouds(&lit, samples.second, uniforms.pulse)
}

/// Shades a fragment of the red rocky body.
pub fn mars_planet_shader(fragment: &Fragment, samples: &NoiseSamples) -> (color: Color)
    ensures
        color == mars_color(*fragment, *samples),
{
    let t: i32 = clamp_unit(samples.first as i64);
    let terracotta: Color = Color::from_fixed(6_000, 3_000, 1_000);
    let base: Color = if t < 5_000 {
        Color::from_fixed(4_000, 1_000, 1_000).lerp(&terracotta, t * 2)
    } else {
        terracotta.lerp(&Color::from_fixed(8_000, 4_000, 1_000), (t - 5_000) * 2)
    };
    light_rock(&base, fragment)
}

/// Shades a fragment of the moon.
pub fn moon_shader(fragment: &Fragment, samples: &NoiseSamples) -> (color: Color)
    ensures
        color == moon_color(*fragment, *samples),
{
    let t: i32 = normalized_times(samples.first, 1, 1);
    let surface: Color = Color::from_fixed(8_000, 8_000, 8_000).lerp(
        &Color::from_fixed(3_000, 3_000, 3_000),
        t,
    );
    let light = Vector3::new(100_000, 100_000, 100_000);
    let d: i32 = diffuse(&fragment.normal, &fragment.world_position, &light);
    surface.scale(level(3_000, 7_000, d))
}

/// Shades a fragment of the smallest rocky body.
pub fn mercury_shader(fragment: &Fragment, samples: &NoiseSamples) -> (color: Color)
    ensures
        color == mercury_color(*fragment, *samples),
{
    let f1: i32 = normalized_times(samples.first, 1, 1);
    let f2_brown: i32 = normalized_times(samples.second, 5, 2);
    let f2_blue: i32 = normalized_times(samples.second, 3, 2);
    let f3: i32 = normalized_times(samples.third, 1, 1);
    let mix1: Color = Color::from_fixed(7_000, 7_000, 7_000).lerp(
        &Color::from_fixed(4_000, 4_000, 4_000),
        f1,
    );
    let mix2: Color = mix1.lerp(&Color::from_fixed(5_000, 4_000, 3_000), f2_brown);
    let mix3: Color = mix2.lerp(&Color::from_fixed(3_000, 3_000, 7_000), f2_blue);
    let base: Color = mix3.lerp(&Color::from_fixed(8_000, 7_000, 4_000), f3);
    light_rock(&base, fragment)
}

/// Shades a fragment with the shader that the uniforms select. An id that
/// names no shader gives black.
pub fn fragment_shader(fragment: &Fragment, uniforms: &Uniforms, samples: &NoiseSamples) -> (color:
    Color)
    ensures
        color == shaded(*fragment, *uniforms, *samples),
{
    match select_shader(uniforms.current_shader) {
        Shader::Earth => earth_shader(fragment, uniforms, samples),
        Shader::Mars => mars_planet_shader(fragment, samples),
        Shader::Mercury => mercury_shader(fragment, samples),
        Shader::Moon => moon_shader(fragment, samples),
        Shader::Flat => Color::new(0, 0, 0),
    }
}

/// The points at which the noise of a fragment is to be sampled for a
/// shader.
pub fn sample_points(shader: Shader, fragment: &Fragment, time: u32) -> (points: Vec<SamplePoint>)
    ensures
        points@ == sample_points_of(shader, *fragment, time),
{
    let x: i64 = fragment.world_position.x as i64;
    let y: i64 = fragment.world_position.y as i64;
    let here = SamplePoint { channel: NoiseChannel::Surface, x, y };
    let mut points: Vec<SamplePoint> = Vec::new();
    match shader {
        Shader::Earth => {
            points.push(here);
            points.push(
                SamplePoint {
                    channel: NoiseChannel::Cloud,
                    x: x * 100 + 100 * UNIT as i64 + time as i64 * 1_000,
                    y: y * 100 + 100 * UNIT as i64,
                },
            );
        },
        Shader::Mars => {
            points.push(here);
        },
        Shader::Mercury => {
            points.push(here);
            points.push(SamplePoint { channel: NoiseChannel::Surface, x: x * 2, y: y * 2 });
            points.push(
                SamplePoint {
                    channel: NoiseChannel::Surface,
                    x: div_floor(x as i128, 2) as i64,
                    y: div_floor(y as i128, 2) as i64,
                },
            );
        },
        Shader::Moon => {
            points.push(here);
        },
        Shader::Flat => {},
    }
    assert(points@ =~= sample_points_of(shader, *fragment, time));
    points
}

} // verus!
