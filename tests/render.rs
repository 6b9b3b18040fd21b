use plasma::color::{band_color, intensity};
use plasma::fade::{fade, ONE};
use plasma::scene::{now, pixel_point_of, rows_per_band, Gradient, Scene};

fn ones_scene(width: u32, height: u32) -> Scene {
    let gradients: Vec<Gradient> = vec![(1, 1, 1); (width * height) as usize];
    Scene::with_gradients(width, height, gradients, 0)
}

#[test]
fn band_color_boundaries() {
    assert_eq!(band_color(0), (0, 0, 0, 255));
    assert_eq!(band_color(63), (0, 0, 252, 255));
    assert_eq!(band_color(64), (0, 0, 252, 255));
    assert_eq!(band_color(127), (0, 252, 0, 255));
    assert_eq!(band_color(128), (0, 252, 0, 255));
    assert_eq!(band_color(191), (252, 0, 0, 255));
    assert_eq!(band_color(192), (252, 0, 0, 255));
    assert_eq!(band_color(255), (0, 0, 0, 255));
}

#[test]
fn band_color_midpoints() {
    assert_eq!(band_color(32), (0, 0, 128, 255));
    assert_eq!(band_color(96), (0, 128, 124, 255));
    assert_eq!(band_color(160), (128, 124, 0, 255));
    assert_eq!(band_color(224), (124, 0, 0, 255));
}

#[test]
fn fade_fixed_points() {
    assert_eq!(fade(0), 0);
    assert_eq!(fade(ONE), ONE);
    assert_eq!(fade(ONE / 2), ONE / 2);
}

#[test]
fn fade_quarter() {
    // 0.25^3 * (0.25 * (1.5 - 15) + 10) = 0.103515625
    assert_eq!(fade(ONE / 4), 6784);
}

#[test]
fn fade_never_decreases() {
    let mut last = fade(0);
    let mut t: i128 = 0;
    while t <= ONE {
        let f = fade(t);
        assert!(f >= last);
        assert!(f <= ONE);
        last = f;
        t += 97;
    }
}

#[test]
fn intensity_scale() {
    let unit: i128 = 4 * ONE * ONE * ONE * ONE;
    assert_eq!(intensity(0), 127);
    assert_eq!(intensity(unit), 255);
    assert_eq!(intensity(-unit), 0);
    assert_eq!(intensity(2 * unit), 255);
    assert_eq!(intensity(-2 * unit), 0);
    assert_eq!(intensity(unit / 2), 191);
}

#[test]
fn gradients_have_unit_signs() {
    let scene = Scene::new(16, 8);
    assert_eq!(scene.gradients.len(), 128);
    for x in 0..4u64 {
        for y in 0..4u64 {
            for z in 0..12u64 {
                let g = scene.grad((x, y, z));
                for c in [g.0, g.1, g.2] {
                    assert!(c == 1 || c == -1);
                }
            }
        }
    }
}

#[test]
fn grad_index_layout() {
    let mut gradients: Vec<Gradient> = vec![(1, 1, 1); 64];
    gradients[8 + 10 + 3] = (-1, 1, -1);
    let scene = Scene::with_gradients(8, 8, gradients, 0);
    assert_eq!(scene.grad((1, 1, 3)), (-1, 1, -1));
    assert_eq!(scene.grad((1, 1, 13)), (-1, 1, -1));
    assert_eq!(scene.grad((0, 0, 0)), (1, 1, 1));
}

#[test]
fn noise_vanishes_at_lattice_points() {
    let scene = ones_scene(8, 8);
    assert_eq!(scene.noise((0, 0, 0)), 0);
    assert_eq!(scene.noise((ONE as u64, 2 * ONE as u64, 0)), 0);
}

#[test]
fn noise_at_cell_centre() {
    // All gradients (1, 1, 1): at the centre every corner weight is 1/8 and the
    // displacements cancel, so the blend is zero.
    let scene = ones_scene(8, 8);
    let h = (ONE / 2) as u64;
    assert_eq!(scene.noise((h, h, h)), 0);
}

#[test]
fn noise_on_x_axis() {
    // On the x axis at t, with unit gradients: (1 - f) t + f (t - 1) = t - f.
    let scene = ones_scene(8, 8);
    let t = ONE / 4;
    let expected = (t - fade(t)) * ONE * ONE * ONE;
    assert_eq!(scene.noise((t as u64, 0, 0)), expected);
}

#[test]
fn pixel_points() {
    assert_eq!(pixel_point_of(3, 5, 0), (768, 1280, 0));
    assert_eq!(pixel_point_of(0, 0, 10240), (0, 0, 65536));
    assert_eq!(pixel_point_of(0, 0, 102400 + 5120), (0, 0, 32768));
}

#[test]
fn rows_per_band_layout() {
    assert_eq!(rows_per_band(600, 40), 16);
    assert_eq!(rows_per_band(8, 40), 1);
}

#[test]
fn clock_reads_wall_time() {
    assert!(now() > 1_500_000_000_000);
}

#[test]
fn update_sets_elapsed_time() {
    let mut scene = ones_scene(4, 4);
    scene.start = 1000;
    scene.update_at(1500);
    assert_eq!(scene.clock, 500);
    scene.update_at(900);
    assert_eq!(scene.clock, 0);
}

#[test]
fn update_twice_same_frame() {
    let mut scene = Scene::new(16, 16);
    let mut a = vec![0u8; 16 * 16 * 4];
    let mut b = vec![0u8; 16 * 16 * 4];
    let t = scene.start + 123_456;
    scene.update_at(t);
    scene.draw(&mut a);
    scene.update_at(t);
    scene.draw(&mut b);
    assert_eq!(a, b);
}

#[test]
fn bands_match_sequential_render() {
    let mut scene = Scene::new(24, 20);
    scene.update_at(scene.start + 7_777);
    let width = 24usize;
    let mut full = vec![0u8; 24 * 20 * 4];
    scene.draw(&mut full);
    for workers in [1u32, 3, 7, 40] {
        let rows = rows_per_band(20, workers) as usize;
        let mut banded = vec![7u8; 24 * 20 * 4];
        let scene_ref = &scene;
        crossbeam::scope(|spawner| {
            for (i, band) in banded.chunks_mut(rows * width * 4).enumerate() {
                spawner.spawn(move |_| {
                    scene_ref.render_band(band, i * rows * width);
                });
            }
        })
        .unwrap();
        assert_eq!(full, banded);
    }
}

fn reference_noise(p: (f64, f64, f64)) -> f64 {
    let fade = |t: f64| t * t * t * (t * (t * 6.0 - 15.0) + 10.0);
    let (x0, y0, z0) = (p.0.floor(), p.1.floor(), p.2.floor());
    let (tx, ty, tz) = (p.0 - x0, p.1 - y0, p.2 - z0);
    let corner = |ox: f64, oy: f64, oz: f64| (tx - ox) + (ty - oy) + (tz - oz);
    let (fx, fy, fz) = (fade(tx), fade(ty), fade(tz));
    let lerp = |a: f64, b: f64, f: f64| (1.0 - f) * a + f * b;
    let x00 = lerp(corner(0.0, 0.0, 0.0), corner(1.0, 0.0, 0.0), fx);
    let x10 = lerp(corner(0.0, 1.0, 0.0), corner(1.0, 1.0, 0.0), fx);
    let x01 = lerp(corner(0.0, 0.0, 1.0), corner(1.0, 0.0, 1.0), fx);
    let x11 = lerp(corner(0.0, 1.0, 1.0), corner(1.0, 1.0, 1.0), fx);
    lerp(lerp(x00, x10, fy), lerp(x01, x11, fy), fz)
}

#[test]
fn all_ones_scene_end_to_end() {
    let scene = ones_scene(8, 8);
    let mut frame = vec![0u8; 8 * 8 * 4];
    scene.draw(&mut frame);
    for y in 0..8usize {
        for x in 0..8usize {
            let p = (x as f64, y as f64, 0.0);
            let n = reference_noise((p.0 / 256.0, p.1 / 256.0, 0.0))
                + reference_noise((p.0 / 128.0, p.1 / 128.0, 0.0)) * 0.5
                + reference_noise((p.0 / 64.0, p.1 / 64.0, 0.0)) * 0.25;
            let c = ((n * 0.5 + 0.5) * 255.0) as u8;
            let i = 4 * (y * 8 + x);
            let got = (frame[i], frame[i + 1], frame[i + 2], frame[i + 3]);
            let near = [c.saturating_sub(1), c, c.saturating_add(1)];
            assert!(
                near.iter().any(|&k| band_color(k) == got),
                "pixel ({}, {}): {:?} against intensity {}",
                x,
                y,
                got,
                c
            );
            assert_eq!(got.3, 255);
        }
    }
}
