use shaders::color::Color;
use shaders::fixed::Vector3;
use shaders::fragment::Fragment;
use shaders::framebuffer::{Framebuffer, FAR};
use shaders::noise::{create_cloud_noise, create_jupiter_band_noise, create_noise};
use shaders::render::{
    assemble, draw_fragment, draw_fragments, gather_samples, rasterize, render, NoiseField,
    Triangle,
};
use shaders::shaders::{NoiseChannel, NoiseSamples};
use shaders::vertex::{TransformedVertex, Vertex};
use shaders::Uniforms;

struct Constant(i32);

impl NoiseField for Constant {
    fn sample(&self, _channel: NoiseChannel, _x: i64, _y: i64) -> i32 {
        self.0
    }
}

struct Echo;

impl NoiseField for Echo {
    fn sample(&self, channel: NoiseChannel, x: i64, y: i64) -> i32 {
        let base = match channel {
            NoiseChannel::Surface => 0,
            NoiseChannel::Cloud => 1_000_000_000,
        };
        (base + x * 7 + y) as i32
    }
}

fn white(x: i32, y: i32, z: i32) -> TransformedVertex {
    let mut vertex = Vertex::new(Vector3::new(0, 0, 0), Vector3::new(0, 0, 10_000), 0, 0);
    vertex.color = Color::new(255, 255, 255);
    TransformedVertex {
        vertex,
        screen_position: Vector3::new(x, y, z),
        world_normal: Vector3::new(0, 0, 10_000),
        intensity: 10_000,
        defined: true,
    }
}

fn uniforms(current_shader: u8) -> Uniforms {
    Uniforms {
        time: 0,
        pulse: 0,
        noise: create_noise(current_shader),
        cloud_noise: create_cloud_noise(),
        band_noise: create_jupiter_band_noise(),
        current_shader,
    }
}

fn fragment(x: usize, y: usize, depth: i32) -> Fragment {
    Fragment {
        x,
        y,
        depth,
        world_position: Vector3::new(0, 0, 0),
        normal: Vector3::new(0, 0, 10_000),
        intensity: 10_000,
        base_color: Color::new(255, 255, 255),
    }
}

fn depths(fb: &Framebuffer) -> Vec<i32> {
    let mut all = Vec::new();
    for y in 0..fb.height() {
        for x in 0..fb.width() {
            all.push(fb.depth_at(x, y));
        }
    }
    all
}

#[test]
fn assembly_takes_windows_of_three() {
    let vs: Vec<TransformedVertex> = (0..7).map(|i| white(i, 10 * i, 100 * i)).collect();
    let triangles = assemble(&vs);
    assert_eq!(
        triangles,
        vec![
            Triangle { v0: vs[0], v1: vs[1], v2: vs[2] },
            Triangle { v0: vs[3], v1: vs[4], v2: vs[5] },
        ]
    );
}

#[test]
fn assembly_drops_a_trailing_partial_triangle() {
    let vs: Vec<TransformedVertex> = (0..5).map(|i| white(i, i, i)).collect();
    assert_eq!(assemble(&vs[..0].to_vec()).len(), 0);
    assert_eq!(assemble(&vs[..1].to_vec()).len(), 0);
    assert_eq!(assemble(&vs[..2].to_vec()).len(), 0);
    assert_eq!(assemble(&vs[..3].to_vec()).len(), 1);
    assert_eq!(assemble(&vs[..4].to_vec()).len(), 1);
    assert_eq!(assemble(&vs).len(), 1);
}

#[test]
fn rasterize_keeps_the_order_of_the_triangles() {
    let near = Triangle { v0: white(0, 0, 1), v1: white(20_000, 0, 1), v2: white(0, 20_000, 1) };
    let far = Triangle { v0: white(0, 0, 2), v1: white(20_000, 0, 2), v2: white(0, 20_000, 2) };
    let fragments = rasterize(&vec![far, near], 4, 4);
    let seen: Vec<(usize, usize, i32)> = fragments.iter().map(|f| (f.x, f.y, f.depth)).collect();
    assert_eq!(seen, vec![(0, 0, 2), (1, 0, 2), (0, 1, 2), (0, 0, 1), (1, 0, 1), (0, 1, 1)]);
    assert!(rasterize(&vec![], 4, 4).is_empty());
}

#[test]
fn fragment_outside_the_framebuffer_is_ignored() {
    let mut fb = Framebuffer::new(2, 2);
    let before = fb.buffer().clone();
    let s = NoiseSamples { first: 0, second: 0, third: 0 };
    draw_fragment(&mut fb, &uniforms(8), &fragment(2, 0, 1), &s);
    draw_fragment(&mut fb, &uniforms(8), &fragment(0, 2, 1), &s);
    draw_fragment(&mut fb, &uniforms(8), &fragment(usize::MAX, usize::MAX, 1), &s);
    assert_eq!(fb.buffer(), &before);
    assert_eq!(depths(&fb), vec![FAR; 4]);
}

#[test]
fn draw_fragment_shades_and_writes() {
    let mut fb = Framebuffer::new(2, 2);
    let s = NoiseSamples { first: 0, second: 0, third: 0 };
    draw_fragment(&mut fb, &uniforms(8), &fragment(1, 0, 77), &s);
    assert_eq!(fb.color_at(1, 0), 0x626262);
    assert_eq!(fb.depth_at(1, 0), 77);
    draw_fragment(&mut fb, &uniforms(2), &fragment(1, 0, 77), &s);
    assert_eq!(fb.color_at(1, 0), 0x626262);
    draw_fragment(&mut fb, &uniforms(2), &fragment(1, 0, 76), &s);
    assert_eq!(fb.color_at(1, 0), 0x5B1515);
    assert_eq!(fb.depth_at(1, 0), 76);
}

#[test]
fn draw_fragments_stops_where_the_samples_end() {
    let mut fb = Framebuffer::new(3, 1);
    let fs = vec![fragment(0, 0, 1), fragment(1, 0, 1), fragment(2, 0, 1)];
    let s = NoiseSamples { first: 0, second: 0, third: 0 };
    draw_fragments(&mut fb, &uniforms(8), &fs, &vec![s, s]);
    assert_eq!(fb.buffer(), &vec![0x626262, 0x626262, 0]);
    draw_fragments(&mut fb, &uniforms(8), &fs[..1].to_vec(), &vec![s, s, s, s]);
    assert_eq!(depths(&fb), vec![1, 1, FAR]);
}

#[test]
fn gather_samples_asks_at_the_sample_points() {
    let mut f = fragment(0, 0, 0);
    f.world_position = Vector3::new(100, 20, 3);
    let mut u = uniforms(1);
    u.time = 5;
    assert_eq!(
        gather_samples(&u, &vec![f], &Echo),
        vec![NoiseSamples {
            first: 720,
            second: 1_000_000_000 + (10_000 + 1_000_000 + 5_000) * 7 + 2_000 + 1_000_000,
            third: 0
        }]
    );
    assert_eq!(
        gather_samples(&uniforms(3), &vec![f], &Echo),
        vec![NoiseSamples { first: 720, second: 1_440, third: 360 }]
    );
    assert_eq!(
        gather_samples(&uniforms(8), &vec![f, f], &Constant(-9)),
        vec![NoiseSamples { first: -9, second: 0, third: 0 }; 2]
    );
    assert_eq!(
        gather_samples(&uniforms(4), &vec![f], &Constant(-9)),
        vec![NoiseSamples { first: 0, second: 0, third: 0 }]
    );
}

#[test]
fn white_triangle_under_the_moon_shader() {
    let mut fb = Framebuffer::new(16, 16);
    fb.set_background_color(0x333355);
    fb.clear();
    let mesh = vec![white(20_000, 20_000, 5_000), white(120_000, 20_000, 5_000), white(20_000, 120_000, 5_000)];
    render(&mut fb, &uniforms(8), &mesh, &Constant(0));
    assert_eq!(fb.color_at(5, 5), 0x626262);
    assert_eq!(fb.depth_at(5, 5), 5_000);
    assert_eq!(fb.color_at(2, 2), 0x626262);
    assert_eq!(fb.color_at(15, 15), 0x333355);
    assert_eq!(fb.depth_at(15, 15), FAR);
    assert_eq!(fb.color_at(1, 5), 0x333355);
    let covered = fb.buffer().iter().filter(|&&c| c == 0x626262).count();
    assert_eq!(covered, 55);
    assert_eq!(fb.buffer().iter().filter(|&&c| c == 0x333355).count(), 256 - 55);
}

#[test]
fn nearer_mesh_hides_the_farther_whatever_the_order() {
    let near = vec![white(0, 0, 10), white(40_000, 0, 10), white(0, 40_000, 10)];
    let far = vec![white(0, 0, 20), white(80_000, 0, 20), white(0, 80_000, 20)];
    let mut first = Framebuffer::new(8, 8);
    render(&mut first, &uniforms(8), &near, &Constant(0));
    render(&mut first, &uniforms(2), &far, &Constant(0));
    let mut second = Framebuffer::new(8, 8);
    render(&mut second, &uniforms(2), &far, &Constant(0));
    render(&mut second, &uniforms(8), &near, &Constant(0));
    assert_eq!(first.buffer(), second.buffer());
    assert_eq!(depths(&first), depths(&second));
    assert_eq!(first.color_at(0, 0), 0x626262);
    assert_eq!(first.depth_at(0, 0), 10);
    assert_eq!(first.color_at(6, 0), 0x5B1515);
    assert_eq!(first.depth_at(6, 0), 20);
}

#[test]
fn same_frame_twice_gives_the_same_buffers() {
    let mesh: Vec<TransformedVertex> = vec![
        white(3_000, 2_000, 10),
        white(71_000, 9_000, 20),
        white(12_000, 66_000, 30),
        white(0, 0, 25),
        white(80_000, 0, 5),
        white(0, 80_000, 25),
        white(1, 2, 3),
    ];
    let mut a = Framebuffer::new(8, 8);
    a.set_background_color(0x333355);
    a.set_current_color(0x010203);
    a.point(3, 3, -100);
    let mut b = Framebuffer::new(8, 8);
    b.set_background_color(0x333355);
    for fb in [&mut a, &mut b] {
        fb.clear();
        render(fb, &uniforms(1), &mesh, &Echo);
    }
    assert_eq!(a.buffer(), b.buffer());
    assert_eq!(depths(&a), depths(&b));
    assert!(a.buffer().iter().any(|&c| c != 0x333355));
}
