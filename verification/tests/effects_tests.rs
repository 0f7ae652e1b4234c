use cloudy_af::anim::assembler::{bw_pair, AnimError, Asm, AsmError};
use cloudy_af::anim::effects::{
    build_center_pulse_patch, build_diagonal_sweep_patch, check_animation_doc, check_status_base, build_gradient_fade_patch,
    center_pulse_apply, diagonal_sweep_apply, emit_center_pulse, emit_diagonal_sweep,
    emit_gradient_fade, gradient_fade_apply, image_supports_animation, AnimationDesc, AnimationDoc,
    CodeCave, EffectIds, CONFIG_CENTER_PULSE, CONFIG_DIAGONAL_SWEEP, CONFIG_GRADIENT_FADE,
    HOOK_SITE_STOCK_BYTES,
};
use cloudy_af::emu::bus::{Bus, RAM_BASE};
use cloudy_af::emu::cpu::Cpu;
use cloudy_af::firmware::patch::Patch;

type EmitFn = fn(&mut Asm, &AnimationDesc, u32, u32) -> Result<(), AsmError>;

/// The `animation` block of the test descriptor: hook 0x100, resume 0x104,
/// cave 0x8000 (512 bytes), config byte 0x1F100, phase global 0x20000000,
/// status word 0x20000008 with its base 4 bytes below.
fn anim() -> AnimationDesc {
    AnimationDesc {
        hook_site: 0x100,
        hook_resume: 0x104,
        code_cave: CodeCave { start: 0x8000, size: 512 },
        config_byte_addr: 0x1F100,
        phase_global: 0x2000_0000,
        status_word_addr: 0x2000_0008,
        status_base_addr: 0x2000_0004,
    }
}

/// The test descriptor: its animation block, effect ids 2/3/4 and the
/// 64x128 display buffer at 0x20001000..0x20001400.
fn desc() -> AnimationDoc {
    AnimationDoc {
        animation: anim(),
        effects: EffectIds { gradient_fade: Some(2), center_pulse: Some(3), diagonal_sweep: Some(4) },
        display_start: 0x2000_1000,
        display_end: 0x2000_1400,
    }
}

/// Reference apply per effect, uniform signature for the shared tests.
fn apply(effect: &str, buf: &mut [u8], phase: u32) {
    match effect {
        "gradient" => gradient_fade_apply(buf, 64, 128, phase),
        "center" => center_pulse_apply(buf, 64, phase),
        "diagonal" => diagonal_sweep_apply(buf, 64, phase),
        _ => panic!("unknown effect {effect}"),
    }
}

/// LUT-index period per effect.
fn period(effect: &str) -> u32 {
    match effect {
        "gradient" => 64,
        _ => 16,
    }
}

const PANEL_GEOMETRIES: [(usize, usize, usize); 5] = [
    (64, 128, 1024),
    (96, 16, 192),
    (128, 32, 512),
    (64, 48, 384),
    (64, 32, 256),
];

#[test]
fn test_geometry_sweep_no_panic_and_size_invariant() {
    for &(w, h, bytes) in &PANEL_GEOMETRIES {
        for phase in 0..64 {
            let mut g = vec![0xFFu8; bytes];
            gradient_fade_apply(&mut g, w, h, phase);
            assert_eq!(g.len(), bytes, "gradient {w}x{h} phase {phase}: length changed");

            let mut c = vec![0xFFu8; bytes];
            center_pulse_apply(&mut c, w, phase);
            assert_eq!(c.len(), bytes, "center {w}x{h} phase {phase}: length changed");

            let mut d = vec![0xFFu8; bytes];
            diagonal_sweep_apply(&mut d, w, phase);
            assert_eq!(d.len(), bytes, "diagonal {w}x{h} phase {phase}: length changed");
        }
    }
}

#[test]
fn test_effects_only_clear_bytes() {
    for &(w, h, bytes) in &PANEL_GEOMETRIES {
        for phase in 0..64 {
            for effect in ["gradient", "center", "diagonal"] {
                let mut buf = vec![0xFFu8; bytes];
                apply(effect, &mut buf, phase);
                assert!(
                    buf.iter().all(|b| *b == 0x00 || *b == 0xFF),
                    "{effect} {w}x{h} phase {phase}: fade family only clears whole bytes in place"
                );
            }
        }
    }
}

#[test]
fn test_gradient_fade_band_monotonic_in_phase() {
    let mut a = vec![0xFFu8; 64 * 128 / 8];
    let mut b = vec![0xFFu8; 64 * 128 / 8];
    gradient_fade_apply(&mut a, 64, 128, 0);
    gradient_fade_apply(&mut b, 64, 128, 8);
    assert_ne!(a, b, "frames at phases 0 and 8 must differ");
    for s in 0..16 {
        let base = s * 64;
        for i in 0..64 {
            assert_eq!(a[base + i], a[base], "band {s} constant across its 8 rows");
        }
    }
}

#[test]
fn test_diagonal_sweep_full_cycle_covers_bands() {
    let mut survives = vec![false; 16];
    for phase in 0..16 {
        let mut buf = vec![0xFFu8; 64 * 128 / 8];
        diagonal_sweep_apply(&mut buf, 64, phase);
        survives[phase as usize] = buf[0] == 0xFF;
    }
    assert!(survives[6..].iter().all(|s| *s), "byte 0 must survive the marching band at phases 6..=15");
    assert!(survives[..6].iter().all(|s| !*s), "byte 0 must be covered by the band at phases 0..=5");
}

#[test]
fn test_center_pulse_symmetry() {
    let mut buf = vec![0xFFu8; 64 * 128 / 8];
    center_pulse_apply(&mut buf, 64, 0);
    for s in 2..=7 {
        assert_eq!(buf[s * 64], 0, "strip {s} cleared at phase 0 (d = {} ^ 7)", s);
    }
    for s in [0usize, 1, 8, 9, 10, 11, 12, 13, 14, 15] {
        assert_eq!(buf[s * 64], 0xFF, "strip {s} kept at phase 0");
    }
}

#[test]
fn test_gradient_fade_band_moves_with_phase() {
    let mut a = vec![0xFFu8; 64 * 128 / 8];
    let mut b = a.clone();
    gradient_fade_apply(&mut a, 64, 128, 0);
    gradient_fade_apply(&mut b, 64, 128, 32);
    assert_ne!(a, b, "different phases must dim different rows");
    assert_eq!(a[0], a[1], "columns equal at same strip for phase 0");
}

#[test]
fn test_gradient_fade_period() {
    let mut a = vec![0xFFu8; 64 * 128 / 8];
    let mut b = a.clone();
    gradient_fade_apply(&mut a, 64, 128, 0);
    gradient_fade_apply(&mut b, 64, 128, 64);
    assert_eq!(a, b);
}

#[test]
fn test_center_pulse_pulses_from_centre() {
    let mut a = vec![0xFFu8; 64 * 128 / 8];
    let mut b = a.clone();
    center_pulse_apply(&mut a, 64, 0);
    center_pulse_apply(&mut b, 64, 8);
    assert_ne!(a, b);
    assert_eq!(a[7 * 64], 0, "strip 7 cleared at phase 0");
    assert_eq!(a[2 * 64], 0, "strip 2 cleared at phase 0 (d = 5)");
    assert_eq!(a[64], 0xFF, "strip 1 kept at phase 0 (d = 6, LUT[6] = 142)");
    assert_eq!(a[8 * 64], 0xFF, "strip 8 kept at phase 0 (LUT[15] = 255)");
    assert_eq!(a[0], 0xFF, "strip 0 kept at phase 0 (d = 7, LUT[7] = 162)");
}

#[test]
fn test_diagonal_sweep_marches() {
    let mut frames: Vec<Vec<u8>> = Vec::new();
    for ph in 0..16 {
        let mut f = vec![0xFFu8; 64 * 128 / 8];
        apply("diagonal", &mut f, ph);
        frames.push(f);
    }
    for i in 0..16 {
        for j in (i + 1)..16 {
            assert_ne!(frames[i], frames[j], "phases {i} and {j} identical");
        }
    }
}

#[test]
fn test_periods() {
    for effect in ["gradient", "center", "diagonal"] {
        let mut a = vec![0xFFu8; 64 * 128 / 8];
        let mut b = a.clone();
        apply(effect, &mut a, 5);
        apply(effect, &mut b, 5 + period(effect));
        assert_eq!(a, b, "{effect}: phase wraps at its period");
    }
}

#[test]
fn test_build_patch_layout() {
    let p = build_gradient_fade_patch(&desc()).unwrap();
    let [h1, h2] = bw_pair(0x100, 0x8000);
    let at = |off: usize| {
        p.modifications
            .iter()
            .find(|m| m.offset == off)
            .unwrap_or_else(|| panic!("no modification at {off:#x}"))
            .patched
    };
    assert_eq!(at(0x100), (h1 & 0xFF) as u8);
    assert_eq!(at(0x101), (h1 >> 8) as u8);
    assert_eq!(at(0x102), (h2 & 0xFF) as u8);
    assert_eq!(at(0x103), (h2 >> 8) as u8);
    let max_cave = p.modifications.iter().filter(|m| m.offset != 0x1F100).map(|m| m.offset).max().unwrap();
    assert!(max_cave < 0x8000 + 512);
    assert_eq!(at(0x1F100), 2, "config byte = gradient-fade effect id");
}

#[test]
fn test_all_builders_fit_cave() {
    for build in [
        build_gradient_fade_patch as fn(&AnimationDoc) -> Result<Patch, AnimError>,
        build_center_pulse_patch,
        build_diagonal_sweep_patch,
    ] {
        let p = build(&desc()).unwrap();
        let max_cave = p.modifications.iter().filter(|m| m.offset != 0x1F100).map(|m| m.offset).max().unwrap();
        assert!(max_cave < 0x8000 + 512, "{} overflows cave", p.id);
    }
}

/// Steps the emitted cave for `effect` in the emulator against the
/// reference: same inputs must give the same framebuffer.
fn assert_cave_matches_reference(effect: &str, emit: EmitFn, config: u8) {
    let anim = anim();
    let mut cave_asm = Asm::new(anim.code_cave.start);
    emit(&mut cave_asm, &anim, 0x20001000, 0x400).unwrap();
    let body = cave_asm.finish().unwrap();

    let mut flash = vec![0u8; 0x9000];
    flash[0x8000..0x8000 + body.len()].copy_from_slice(&body);
    let mut bus = Bus::new(flash, 0x1400);
    bus.allow_region(RAM_BASE..RAM_BASE + 0x1000);
    bus.allow_region(0x20001000..0x20001400);
    bus.set_stub(anim.config_byte_addr, config as u32);
    bus.write_u32(anim.status_word_addr, 0x20000).unwrap();
    for i in 0..0x400u32 {
        bus.write_u8(0x20001000 + i, 0xFF).unwrap();
    }

    let mut cpu = Cpu::new();
    cpu.r[2] = 0x20000;
    cpu.pc = 0x8000;
    for _ in 0..(0x400 * 20 + 100) {
        cpu.step(&mut bus).unwrap();
        if cpu.pc == 0x104 {
            break;
        }
    }
    assert_eq!(cpu.pc, 0x104, "{effect}: cave must branch back to hook_resume");
    assert_eq!(cpu.r[4], 1, "{effect}: phase global bumped once");
    assert_eq!(cpu.r[2], 0x20000, "{effect}: cave must restore r2 (status word) for the stock beq");
    assert_eq!(cpu.r[3], 0x20000004, "{effect}: cave must restore r3 to the status base");
    assert!(!cpu.z, "{effect}: restored flags must reflect the timeout bit (Z=0)");
    let mut expect = vec![0xFFu8; 0x400];
    apply(effect, &mut expect, 1);
    let got: Vec<u8> = (0..0x400).map(|i| bus.read_u8(0x20001000 + i as u32).unwrap()).collect();
    assert_eq!(got, expect, "{effect}: emitted cave must match the reference");
}

#[test]
fn test_emitted_caves_match_references_in_emu() {
    assert_cave_matches_reference("gradient", emit_gradient_fade, CONFIG_GRADIENT_FADE);
    assert_cave_matches_reference("center", emit_center_pulse, CONFIG_CENTER_PULSE);
    assert_cave_matches_reference("diagonal", emit_diagonal_sweep, CONFIG_DIAGONAL_SWEEP);
}

#[test]
fn test_image_supports_animation_gate() {
    let anim = anim();
    let mut img = vec![0u8; 0x1000];
    assert!(!image_supports_animation(&img, &anim), "all-zero hook site");

    img[0x100..0x104].copy_from_slice(&HOOK_SITE_STOCK_BYTES);
    assert!(image_supports_animation(&img, &anim));

    img[0x101] = 0x00;
    assert!(!image_supports_animation(&img, &anim), "hook site tampered");
    img[0x101] = HOOK_SITE_STOCK_BYTES[1];

    assert!(!image_supports_animation(&img[..0x100], &anim));

    let cave_anim = AnimationDesc { code_cave: CodeCave { start: 0x400, size: 256 }, ..anim };
    let mut erased = vec![0xFFu8; 0x1000];
    erased[0x100..0x104].copy_from_slice(&HOOK_SITE_STOCK_BYTES);
    assert!(image_supports_animation(&erased, &cave_anim));
    erased[0x4FF] = 0x42;
    assert!(!image_supports_animation(&erased, &cave_anim), "cave not erased");
}

#[test]
fn test_load_animation_desc_rejects_bad_status_base() {
    // A status base that is not 4 bytes below the status word is refused.
    let bad = AnimationDesc { status_base_addr: 0x2000_0000, ..anim() };
    assert!(!bad.status_base_consistent());
    assert!(anim().status_base_consistent());
}

#[test]
fn test_cave_resumes_stock_path_when_gated_off() {
    let anim = anim();
    let mut cave_asm = Asm::new(anim.code_cave.start);
    emit_gradient_fade(&mut cave_asm, &anim, 0x20001000, 0x400).unwrap();
    let body = cave_asm.finish().unwrap();

    for (r2, config, label) in [
        (0u32, CONFIG_GRADIENT_FADE as u32, "timeout bit clear"),
        (0x20000, 0, "config byte 0 = stock"),
    ] {
        let mut flash = vec![0u8; 0x9000];
        flash[0x8000..0x8000 + body.len()].copy_from_slice(&body);
        let mut bus = Bus::new(flash, 0x1400);
        bus.allow_region(RAM_BASE..RAM_BASE + 0x1000);
        bus.allow_region(0x20001000..0x20001400);
        bus.set_stub(anim.config_byte_addr, config);
        for i in 0..0x400u32 {
            bus.write_u8(0x20001000 + i, 0xFF).unwrap();
        }
        let mut cpu = Cpu::new();
        cpu.r[2] = r2;
        cpu.pc = 0x8000;
        for _ in 0..100 {
            cpu.step(&mut bus).unwrap();
            if cpu.pc == 0x104 {
                break;
            }
        }
        assert_eq!(cpu.pc, 0x104, "{label}: must resume");
        let intact = (0..0x400u32).all(|i| bus.read_u8(0x20001000 + i).unwrap() == 0xFF);
        assert!(intact, "{label}: buffer must be untouched");
    }
}

#[test]
fn test_missing_effect_id_is_refused() {
    let doc = AnimationDoc { effects: EffectIds { gradient_fade: None, ..desc().effects }, ..desc() };
    assert!(matches!(build_gradient_fade_patch(&doc), Err(AnimError::Descriptor(_))));
}

#[test]
fn test_animation_block_checks() {
    let a = anim();
    assert!(check_status_base(&a).is_ok());
    assert!(check_animation_doc(&a, 0x2000_1000, 0x2000_1400).is_ok());
    let mut bad = anim();
    bad.status_base_addr = 0x2000_0000;
    match check_status_base(&bad) {
        Err(AnimError::Descriptor(m)) => {
            assert_eq!(m, "status_base_addr 0x20000000 must be status_word_addr 0x20000008 - 4")
        }
        other => panic!("unexpected {other:?}"),
    }
    match check_animation_doc(&a, 0x2000_1400, 0x2000_1000) {
        Err(AnimError::Descriptor(m)) => assert_eq!(m, "display_buffer.end below display_buffer.start"),
        other => panic!("unexpected {other:?}"),
    }
}
