use matrix_rain::gpu::atlas::{
    atlas_size, build_atlas, cell_width_for, chars_with_ink, dilate, glyph_origin, next_power_of_two, plot, Coverage,
};
use matrix_rain::gpu::camera::Camera;
use matrix_rain::gpu::rain::{char_set, layer_density_ppm, roll, RainSimulation, Stream};
use matrix_rain::gpu::viewer::{Viewer, ViewerAction, ViewerKey};
use matrix_rain::palette::Tier;

#[test]
fn rolls_at_the_edges() {
    assert!(!roll(0));
    assert!(roll(1_000_000));
    assert!(roll(2_000_000));
}

#[test]
fn rolls_in_between_come_out_both_ways() {
    let hits = (0..2000).filter(|_| roll(500_000)).count();
    assert!(hits > 0 && hits < 2000);
}

#[test]
fn drawn_lengths_vary() {
    let lengths: Vec<usize> = (0..300).map(|_| Stream::new(0, 0, 60, 52).length).collect();
    assert!(lengths.iter().all(|l| (5..=42).contains(l)));
    assert!(lengths.iter().any(|l| *l != 5));
    assert!(lengths.iter().any(|l| *l != lengths[0]));
}

#[test]
fn powers_of_two() {
    assert_eq!(next_power_of_two(0), 1);
    assert_eq!(next_power_of_two(1), 1);
    assert_eq!(next_power_of_two(3), 4);
    assert_eq!(next_power_of_two(256), 256);
    assert_eq!(next_power_of_two(257), 512);
    assert_eq!(next_power_of_two(0x8000_0000), 0x8000_0000);
}

#[test]
fn atlas_dimensions() {
    assert_eq!(cell_width_for(60), 36);
    assert_eq!(cell_width_for(58), 34);
    // 52 glyphs of 36 x 60: 16 columns, 4 rows
    assert_eq!(atlas_size(52, 36, 60), (1024, 256));
    assert_eq!(atlas_size(52, 10, 10), (256, 256));
    assert_eq!(atlas_size(200, 40, 70), (1024, 1024));
    assert_eq!(glyph_origin(0, 36, 60), (0, 0));
    assert_eq!(glyph_origin(17, 36, 60), (36, 60));
    assert_eq!(glyph_origin(15, 36, 60), (540, 0));
}

#[test]
fn plotting_pixels() {
    let mut px = vec![0u8; 4 * 4 * 4];
    plot(&mut px, 4, 4, 1, 2, 77);
    let i = (2 * 4 + 1) * 4;
    assert_eq!(&px[i..i + 4], &[255, 255, 255, 77]);
    assert_eq!(px.iter().filter(|b| **b != 0).count(), 4);
    let before = px.clone();
    plot(&mut px, 4, 4, -1, 0, 9);
    plot(&mut px, 4, 4, 4, 0, 9);
    plot(&mut px, 4, 4, 0, 4, 9);
    assert_eq!(px, before);
}

#[test]
fn dilation_spreads_alpha() {
    // a 4 x 4 atlas with one opaque pixel at (1, 1)
    let mut px = vec![0u8; 4 * 4 * 4];
    plot(&mut px, 4, 4, 1, 1, 200);
    let out = dilate(&px, 4, 4);
    let a = |x: usize, y: usize| out[(y * 4 + x) * 4 + 3];
    // the pixel itself: (200 * 6 + 200 * 4) / 10
    assert_eq!(a(1, 1), 200);
    // its inner neighbour (2, 2): (200 * 6 + 0) / 10, and it turns white
    assert_eq!(a(2, 2), 120);
    assert_eq!(&out[(2 * 4 + 2) * 4..(2 * 4 + 2) * 4 + 3], &[255, 255, 255]);
    // border pixels keep what they had
    assert_eq!(a(0, 0), 0);
    assert_eq!(a(3, 3), 0);
    assert_eq!(out[0], 0);
}

#[test]
fn dilation_keeps_clear_pixels_clear() {
    let px = vec![7u8; 3 * 3 * 4];
    let out = dilate(&px, 3, 3);
    assert_eq!(out[(4 * 4) + 3], 7);
    let zero = vec![0u8; 5 * 5 * 4];
    assert_eq!(dilate(&zero, 5, 5), zero);
}

#[test]
fn gpu_char_set_size() {
    assert_eq!(char_set().len(), 52);
}

#[test]
fn gpu_stream_spawn() {
    for layer in [0usize, 3, 12, 20] {
        let s = Stream::new(4, layer, 60, 52);
        let factor = if layer <= 12 { 100 - 5 * layer as u64 } else { 40 };
        assert_eq!(s.col, 4);
        assert_eq!(s.layer, layer);
        assert!(s.is_active());
        assert!(5 <= s.length && s.length <= 42);
        assert_eq!(s.chars.len(), s.length);
        assert!(s.chars.iter().all(|c| *c < 52));
        assert!(s.speed >= 500 * factor && s.speed <= 4000 * factor && s.speed % factor == 0);
        assert!(s.y >= -((s.length as i64) + 20) * 1_000_000 && s.y < -5_000_000);
        assert!(1500 <= s.glitch_rate && s.glitch_rate < 6000);
    }
    let short = Stream::new(0, 0, 3, 1);
    assert_eq!(short.length, 3);
}

#[test]
fn gpu_stream_falls_and_finishes() {
    let mut s = Stream::new(0, 0, 10, 52);
    let y0 = s.y;
    s.update(10, 52);
    assert_eq!(s.y, y0 + s.speed as i64);
    assert!(s.is_active());
    let mut frames = 0;
    while s.is_active() {
        s.update(10, 52);
        frames += 1;
        assert!(frames < 1_000_000);
    }
    assert!(s.y > (10 + s.length as i64 + 20) * 1_000_000);
}

#[test]
fn gpu_glitch_counts_down_in_window() {
    let mut s = Stream::new(0, 0, 60, 52);
    let n = s.length;
    for k in 0..n {
        s.glitch_ttl[k] = 10;
    }
    let chars = s.chars.clone();
    s.y = -40_000_000;
    s.update(60, 52);
    let w = (n / 4).max(3).min(n);
    for k in 0..n {
        if k < w {
            assert_eq!(s.glitch_ttl[k], 9);
        } else {
            assert_eq!(s.glitch_ttl[k], 10);
        }
    }
    assert_eq!(s.chars, chars);
}

#[test]
fn glyph_plan_tiers() {
    let s = Stream::new(0, 0, 60, 52);
    let plan = s.glyph_plan(7);
    assert_eq!(plan.len(), s.chars.len());
    assert_eq!(plan[0].tier, Tier::Head);
    for (k, g) in plan.iter().enumerate() {
        assert_eq!(g.char_idx, s.chars[k] % 7);
    }
}

#[test]
fn layer_densities() {
    assert_eq!(layer_density_ppm(550_000, 0), 550_000);
    assert_eq!(layer_density_ppm(550_000, 5), 385_000);
    assert_eq!(layer_density_ppm(550_000, 16), 22_000);
    assert_eq!(layer_density_ppm(550_000, 17), 0);
}

#[test]
fn simulation_fills_and_keeps_slots_distinct() {
    let mut sim = RainSimulation::new(20, 30, 3, 1_000_000, 52);
    // full density: every slot of the first layer spawns
    let first = sim.streams.iter().filter(|s| s.layer == 0).count();
    assert_eq!(first, 20);
    for _ in 0..400 {
        sim.update();
        assert!(sim.streams.iter().all(|s| s.is_active()));
        let mut slots: Vec<(usize, usize)> = sim.streams.iter().map(|s| (s.col, s.layer)).collect();
        let n = slots.len();
        slots.sort();
        slots.dedup();
        assert_eq!(slots.len(), n);
        assert!(sim.streams.iter().all(|s| s.col < 20 && s.layer < 3));
    }
}

#[test]
fn empty_simulation() {
    let mut sim = RainSimulation::new(20, 30, 5, 0, 52);
    assert!(sim.streams.is_empty());
    sim.update();
    assert!(sim.streams.is_empty());
}

#[test]
fn camera_zoom_clamps() {
    let mut c = Camera::new(1280, 720);
    assert_eq!(c.fov_deg, 60);
    c.zoom_in();
    assert_eq!(c.fov_deg, 58);
    c.zoom_out();
    assert_eq!(c.fov_deg, 60);
    for _ in 0..100 {
        c.zoom_in();
    }
    assert_eq!(c.fov_deg, 20);
    for _ in 0..100 {
        c.zoom_out();
    }
    assert_eq!(c.fov_deg, 120);
    c.set_aspect(800, 600);
    assert_eq!((c.aspect_w, c.aspect_h, c.fov_deg), (800, 600, 120));
}

#[test]
fn viewer_keys() {
    let mut v = Viewer::new(1280, 720);
    assert_eq!(v.on_key(ViewerKey::Escape, true), ViewerAction::Exit);
    assert_eq!(v.on_key(ViewerKey::Char('q'), true), ViewerAction::Exit);
    assert_eq!(v.on_key(ViewerKey::Char('+'), true), ViewerAction::Nothing);
    assert_eq!(v.camera.fov_deg, 58);
    assert_eq!(v.on_key(ViewerKey::Char('-'), true), ViewerAction::Nothing);
    assert_eq!(v.on_key(ViewerKey::Char(','), true), ViewerAction::Nothing);
    assert_eq!(v.camera.fov_deg, 62);
    assert_eq!(v.on_key(ViewerKey::Char('.'), true), ViewerAction::Nothing);
    assert_eq!(v.camera.fov_deg, 60);
    assert_eq!(v.on_key(ViewerKey::Char('f'), true), ViewerAction::SetFullscreen(true));
    assert_eq!(v.on_key(ViewerKey::Char('F'), true), ViewerAction::SetFullscreen(false));
    assert_eq!(v.on_key(ViewerKey::Char('f'), false), ViewerAction::Nothing);
    assert!(!v.fullscreen);
    assert_eq!(v.on_key(ViewerKey::Char('x'), true), ViewerAction::Nothing);
    assert_eq!(v.on_key(ViewerKey::Other, true), ViewerAction::Nothing);
}

#[test]
fn viewer_resize_and_frames() {
    let mut v = Viewer::new(100, 100);
    assert!(!v.on_resize(0, 50));
    assert_eq!((v.camera.aspect_w, v.camera.aspect_h), (0, 50));
    assert!(!v.on_resize(50, 0));
    assert_eq!((v.camera.aspect_w, v.camera.aspect_h), (0, 50));
    assert!(v.on_resize(640, 480));
    assert!(v.next_frame());
    assert!(!v.next_frame());
    for _ in 0..119 {
        v.next_frame();
    }
    assert_eq!(v.frame_count, 121);
}

#[test]
fn plot_reports_whether_it_wrote() {
    let mut px = vec![0u8; 4 * 4 * 4];
    assert!(plot(&mut px, 4, 4, 3, 3, 1));
    assert!(!plot(&mut px, 4, 4, -1, 3, 1));
    assert!(!plot(&mut px, 4, 4, 3, 4, 1));
}

#[test]
fn opaque_pixels_are_white_after_plot_and_dilate() {
    let mut px = vec![0u8; 6 * 6 * 4];
    plot(&mut px, 6, 6, 2, 2, 90);
    plot(&mut px, 6, 6, 0, 5, 40);
    plot(&mut px, 6, 6, 3, 3, 0);
    let out = dilate(&px, 6, 6);
    for p in 0..36 {
        if out[p * 4 + 3] > 0 {
            assert_eq!(&out[p * 4..p * 4 + 3], &[255, 255, 255]);
        }
    }
}

#[test]
fn only_inked_chars_are_kept() {
    let chars = vec!['a', 'b', 'c', 'd'];
    assert_eq!(chars_with_ink(&chars, &vec![true, false, true, false]), vec!['a', 'c']);
    assert!(chars_with_ink(&chars, &vec![false; 4]).is_empty());
    assert!(chars_with_ink(&Vec::new(), &Vec::new()).is_empty());
}

#[test]
fn finished_stream_stays_finished() {
    let mut s = Stream::new(0, 0, 10, 52);
    while s.is_active() {
        s.update(10, 52);
    }
    let chars = s.chars.clone();
    let ttl = s.glitch_ttl.clone();
    let y = s.y;
    s.update(10, 52);
    assert!(!s.is_active());
    assert_eq!(s.y, y + s.speed as i64);
    assert_eq!(s.chars, chars);
    assert_eq!(s.glitch_ttl, ttl);
}

#[test]
fn simulation_without_spawns_needs_no_rows() {
    let mut sim = RainSimulation::new(20, 1, 5, 0, 0);
    assert!(sim.streams.is_empty());
    sim.update();
    assert!(sim.streams.is_empty());
    assert!(RainSimulation::new(0, 0, 3, 550_000, 0).streams.is_empty());
}

#[test]
fn simulation_streams_come_in_slot_order() {
    let sim = RainSimulation::new(30, 40, 6, 400_000, 52);
    let slots: Vec<(usize, usize)> = sim.streams.iter().map(|s| (s.layer, s.col)).collect();
    let mut sorted = slots.clone();
    sorted.sort();
    sorted.dedup();
    assert_eq!(slots, sorted);
}

#[test]
fn atlas_build_writes_thickens_and_reports_ink() {
    let cov = vec![
        Coverage { glyph: 0, x: 2, y: 2, alpha: 100 },
        Coverage { glyph: 1, x: 9, y: 0, alpha: 200 },
        Coverage { glyph: 1, x: 0, y: 0, alpha: 0 },
        Coverage { glyph: 2, x: 4, y: 4, alpha: 50 },
        Coverage { glyph: 2, x: 4, y: 4, alpha: 80 },
    ];
    let (px, inked) = build_atlas(6, 6, 4, &cov);
    assert_eq!(px.len(), 6 * 6 * 4);
    assert_eq!(inked, vec![true, false, true, false]);
    let at = |x: usize, y: usize| &px[(y * 6 + x) * 4..(y * 6 + x) * 4 + 4];
    // A neighbour of the written pixel gets six tenths of it.
    assert_eq!(at(3, 3), &[255, 255, 255, 60]);
    // The written pixel: 0.6 * 100 + 0.4 * 100.
    assert_eq!(at(2, 2), &[255, 255, 255, 100]);
    // The later write of the same pixel wins.
    assert_eq!(at(4, 4), &[255, 255, 255, 80]);
    // A border pixel written with alpha 0 stays white but transparent.
    assert_eq!(at(0, 0), &[255, 255, 255, 0]);
    for p in px.chunks(4) {
        if p[3] > 0 {
            assert_eq!(&p[..3], &[255, 255, 255]);
        }
    }
}
