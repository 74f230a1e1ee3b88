use shaders::color::Color;
use shaders::fixed::Vector3;
use shaders::fragment::Fragment;
use shaders::noise::{create_cloud_noise, create_jupiter_band_noise, create_noise};
use shaders::shaders::{
    classify_surface, earth_shader, fragment_shader, mars_planet_shader, mercury_shader,
    moon_shader, sample_points, select_shader, terrain_color, NoiseChannel, NoiseSamples,
    SamplePoint, Shader, Surface, CLOUD_THRESHOLD, LAND_THRESHOLD,
};
use shaders::Uniforms;

fn facing_up() -> Fragment {
    Fragment {
        x: 5,
        y: 5,
        depth: 5_000,
        world_position: Vector3::new(0, 0, 0),
        normal: Vector3::new(0, 0, 10_000),
        intensity: 10_000,
        base_color: Color::new(255, 255, 255),
    }
}

fn uniforms(current_shader: u8, pulse: i32) -> Uniforms {
    Uniforms {
        time: 0,
        pulse,
        noise: create_noise(current_shader),
        cloud_noise: create_cloud_noise(),
        band_noise: create_jupiter_band_noise(),
        current_shader,
    }
}

fn samples(first: i32, second: i32, third: i32) -> NoiseSamples {
    NoiseSamples { first, second, third }
}

#[test]
fn shader_ids() {
    assert_eq!(select_shader(1), Shader::Earth);
    assert_eq!(select_shader(2), Shader::Mars);
    assert_eq!(select_shader(3), Shader::Mercury);
    assert_eq!(select_shader(8), Shader::Moon);
    for id in [0u8, 4, 5, 6, 7, 9, 10, 255] {
        assert_eq!(select_shader(id), Shader::Flat);
    }
}

#[test]
fn thresholds() {
    assert_eq!(LAND_THRESHOLD, 3_000);
    assert_eq!(CLOUD_THRESHOLD, 1_000);
}

#[test]
fn land_threshold_itself_is_water() {
    assert_eq!(classify_surface(LAND_THRESHOLD), Surface::Water);
    assert_eq!(classify_surface(LAND_THRESHOLD + 1), Surface::Land);
    assert_eq!(classify_surface(LAND_THRESHOLD - 1), Surface::Water);
    assert_eq!(classify_surface(i32::MIN), Surface::Water);
    assert_eq!(classify_surface(i32::MAX), Surface::Land);
}

#[test]
fn terrain_colors() {
    assert_eq!(terrain_color(3_000), Color::new(0, 76, 178));
    assert_eq!(terrain_color(3_001), Color::new(25, 127, 0));
    assert_eq!(terrain_color(0), Color::new(0, 25, 153));
    assert_eq!(terrain_color(-5_000), Color::new(0, 25, 153));
    assert_eq!(terrain_color(i32::MIN), Color::new(0, 25, 153));
    assert_eq!(terrain_color(1_500), Color::new(0, 50, 165));
    assert_eq!(terrain_color(6_500), Color::new(38, 165, 25));
    assert_eq!(terrain_color(10_000), Color::new(51, 204, 51));
    assert_eq!(terrain_color(i32::MAX), Color::new(51, 204, 51));
}

#[test]
fn earth_without_clouds() {
    let u = uniforms(1, 0);
    assert_eq!(earth_shader(&facing_up(), &u, &samples(6_500, 0, 0)), Color::new(34, 150, 22));
    assert_eq!(earth_shader(&facing_up(), &u, &samples(1_500, -9_000, 0)), Color::new(0, 45, 150));
}

#[test]
fn cloud_threshold_itself_is_clear() {
    let u = uniforms(1, 10_000);
    assert_eq!(earth_shader(&facing_up(), &u, &samples(1_500, 1_000, 0)), Color::new(0, 45, 150));
    assert_eq!(earth_shader(&facing_up(), &u, &samples(1_500, 1_001, 0)), Color::new(0, 45, 150));
    assert_eq!(earth_shader(&facing_up(), &u, &samples(1_500, 1_100, 0)), Color::new(1, 46, 151));
}

#[test]
fn earth_with_clouds_follows_the_pulse() {
    let f = facing_up();
    assert_eq!(earth_shader(&f, &uniforms(1, 0), &samples(6_500, 5_500, 0)), Color::new(68, 184, 56));
    assert_eq!(
        earth_shader(&f, &uniforms(1, 10_000), &samples(6_500, 5_500, 0)),
        Color::new(91, 207, 79)
    );
    assert_eq!(
        earth_shader(&f, &uniforms(1, 70_000), &samples(6_500, 5_500, 0)),
        Color::new(91, 207, 79)
    );
    assert_eq!(earth_shader(&f, &uniforms(1, -4), &samples(6_500, 5_500, 0)), Color::new(68, 184, 56));
    assert_eq!(
        earth_shader(&f, &uniforms(1, 5_000), &samples(1_500, 10_000, 0)),
        Color::new(91, 136, 241)
    );
}

#[test]
fn mars_colors() {
    let f = facing_up();
    assert_eq!(mars_planet_shader(&f, &samples(0, 0, 0)), Color::new(91, 21, 21));
    assert_eq!(mars_planet_shader(&f, &samples(-3_000, 0, 0)), Color::new(91, 21, 21));
    assert_eq!(mars_planet_shader(&f, &samples(2_500, 0, 0)), Color::new(113, 44, 21));
    assert_eq!(mars_planet_shader(&f, &samples(5_000, 0, 0)), Color::new(136, 67, 21));
    assert_eq!(mars_planet_shader(&f, &samples(7_500, 0, 0)), Color::new(159, 79, 21));
    assert_eq!(mars_planet_shader(&f, &samples(10_000, 0, 0)), Color::new(182, 91, 21));
    assert_eq!(mars_planet_shader(&f, &samples(i32::MAX, 0, 0)), Color::new(182, 91, 21));
}

#[test]
fn moon_colors() {
    let f = facing_up();
    assert_eq!(moon_shader(&f, &samples(0, 0, 0)), Color::new(98, 98, 98));
    assert_eq!(moon_shader(&f, &samples(-10_000, 0, 0)), Color::new(143, 143, 143));
    assert_eq!(moon_shader(&f, &samples(-20_000, 0, 0)), Color::new(143, 143, 143));
    assert_eq!(moon_shader(&f, &samples(i32::MIN, 0, 0)), Color::new(143, 143, 143));
    assert_eq!(moon_shader(&f, &samples(10_000, 0, 0)), Color::new(53, 53, 53));
    assert_eq!(moon_shader(&f, &samples(i32::MAX, 0, 0)), Color::new(53, 53, 53));
}

#[test]
fn moon_in_the_dark_keeps_the_ambient_share() {
    let mut f = facing_up();
    f.normal = Vector3::new(0, 0, -10_000);
    assert_eq!(moon_shader(&f, &samples(0, 0, 0)), Color::new(42, 42, 42));
    f.normal = Vector3::new(0, 0, 0);
    assert_eq!(moon_shader(&f, &samples(0, 0, 0)), Color::new(42, 42, 42));
}

#[test]
fn mercury_colors() {
    let f = facing_up();
    assert_eq!(mercury_shader(&f, &samples(0, 0, 0)), Color::new(130, 116, 113));
    assert_eq!(mercury_shader(&f, &samples(-10_000, -10_000, -10_000)), Color::new(159, 159, 159));
    assert_eq!(mercury_shader(&f, &samples(10_000, 10_000, 10_000)), Color::new(182, 159, 91));
    assert_eq!(mercury_shader(&f, &samples(2_000, -4_000, 6_000)), Color::new(164, 144, 95));
    assert_eq!(
        mercury_shader(&f, &samples(i32::MIN, i32::MIN, i32::MIN)),
        Color::new(159, 159, 159)
    );
    assert_eq!(mercury_shader(&f, &samples(i32::MAX, i32::MAX, i32::MAX)), Color::new(182, 159, 91));
}

#[test]
fn dispatch_by_shader_id() {
    let f = facing_up();
    let s = samples(6_500, 5_500, 2_000);
    assert_eq!(fragment_shader(&f, &uniforms(1, 10_000), &s), earth_shader(&f, &uniforms(1, 10_000), &s));
    assert_eq!(fragment_shader(&f, &uniforms(2, 0), &s), mars_planet_shader(&f, &s));
    assert_eq!(fragment_shader(&f, &uniforms(3, 0), &s), mercury_shader(&f, &s));
    assert_eq!(fragment_shader(&f, &uniforms(8, 0), &s), moon_shader(&f, &s));
    assert_eq!(fragment_shader(&f, &uniforms(1, 10_000), &s), Color::new(91, 207, 79));
    assert_eq!(fragment_shader(&f, &uniforms(8, 0), &s), Color::new(69, 69, 69));
}

#[test]
fn unknown_shader_is_black() {
    let f = facing_up();
    let s = samples(6_500, 5_500, 2_000);
    for id in [0u8, 4, 5, 6, 7, 9, 200] {
        assert_eq!(fragment_shader(&f, &uniforms(id, 0), &s), Color::new(0, 0, 0));
    }
}

#[test]
fn shading_twice_gives_the_same_color() {
    let f = facing_up();
    let s = samples(123, -456, 789);
    for id in 0u8..=10 {
        let u = uniforms(id, 3_333);
        assert_eq!(fragment_shader(&f, &u, &s), fragment_shader(&f, &u, &s));
    }
}

#[test]
fn sample_points_of_each_shader() {
    let mut f = facing_up();
    f.world_position = Vector3::new(1_234, -5_679, 42);
    let here = SamplePoint { channel: NoiseChannel::Surface, x: 1_234, y: -5_679 };
    assert_eq!(
        sample_points(Shader::Earth, &f, 250),
        vec![here, SamplePoint { channel: NoiseChannel::Cloud, x: 1_373_400, y: 432_100 }]
    );
    assert_eq!(sample_points(Shader::Mars, &f, 250), vec![here]);
    assert_eq!(sample_points(Shader::Moon, &f, 250), vec![here]);
    assert_eq!(
        sample_points(Shader::Mercury, &f, 250),
        vec![
            here,
            SamplePoint { channel: NoiseChannel::Surface, x: 2_468, y: -11_358 },
            SamplePoint { channel: NoiseChannel::Surface, x: 617, y: -2_840 },
        ]
    );
    assert_eq!(sample_points(Shader::Flat, &f, 250), vec![]);
}

#[test]
fn sample_points_at_the_limits() {
    let mut f = facing_up();
    f.world_position = Vector3::new(i32::MAX, i32::MIN, 0);
    let points = sample_points(Shader::Earth, &f, u32::MAX);
    assert_eq!(
        points[1],
        SamplePoint {
            channel: NoiseChannel::Cloud,
            x: 2_147_483_647 * 100 + 1_000_000 + 4_294_967_295 * 1_000,
            y: -2_147_483_648 * 100 + 1_000_000,
        }
    );
    let points = sample_points(Shader::Mercury, &f, 0);
    assert_eq!(points[1], SamplePoint { channel: NoiseChannel::Surface, x: 4_294_967_294, y: -4_294_967_296 });
    assert_eq!(points[2], SamplePoint { channel: NoiseChannel::Surface, x: 1_073_741_823, y: -1_073_741_824 });
}

#[test]
fn samples_from_values() {
    assert_eq!(NoiseSamples::from_values(&vec![]), samples(0, 0, 0));
    assert_eq!(NoiseSamples::from_values(&vec![7]), samples(7, 0, 0));
    assert_eq!(NoiseSamples::from_values(&vec![7, -8]), samples(7, -8, 0));
    assert_eq!(NoiseSamples::from_values(&vec![7, -8, 9]), samples(7, -8, 9));
    assert_eq!(NoiseSamples::from_values(&vec![7, -8, 9, 10]), samples(7, -8, 9));
}
