use rtic_stm32::color::{wheel, Rainbow, Rgb};
use rtic_stm32::gamma::{gamma8, GAMMA8};

fn rgb(r: u8, g: u8, b: u8) -> Rgb {
    Rgb { r, g, b }
}

#[test]
fn wheel_band_formulas() {
    assert_eq!(wheel(255), rgb(255, 0, 0));
    assert_eq!(wheel(254), rgb(252, 0, 3));
    assert_eq!(wheel(171), rgb(3, 0, 252));
    assert_eq!(wheel(170), rgb(0, 0, 255));
    assert_eq!(wheel(169), rgb(0, 3, 252));
    assert_eq!(wheel(112), rgb(0, 174, 81));
    assert_eq!(wheel(86), rgb(0, 252, 3));
    assert_eq!(wheel(85), rgb(0, 255, 0));
    assert_eq!(wheel(84), rgb(3, 252, 0));
    assert_eq!(wheel(1), rgb(252, 3, 0));
    assert_eq!(wheel(0), rgb(255, 0, 0));
}

#[test]
fn wheel_channels_sum_to_full_with_one_dark() {
    for p in 0..=255u8 {
        let c = wheel(p);
        assert_eq!(c.r as u32 + c.g as u32 + c.b as u32, 255);
        let q: u8 = 255 - p;
        if q < 85 {
            assert_eq!(c.g, 0);
        } else if q < 170 {
            assert_eq!(c.r, 0);
        } else {
            assert_eq!(c.b, 0);
        }
    }
}

#[test]
fn wheel_has_no_jumps() {
    for p in 0..255u8 {
        let a = wheel(p);
        let b = wheel(p + 1);
        assert!((a.r as i32 - b.r as i32).abs() <= 3);
        assert!((a.g as i32 - b.g as i32).abs() <= 3);
        assert!((a.b as i32 - b.b as i32).abs() <= 3);
    }
}

#[test]
fn wheel_repeats_only_at_its_ends() {
    for p in 0..=255u8 {
        for q in 0..p {
            if q == 0 && p == 255 {
                assert_eq!(wheel(p), wheel(q));
            } else {
                assert_ne!(wheel(p), wheel(q));
            }
        }
    }
}

#[test]
fn wheel_is_a_function_of_its_input() {
    for p in 0..=255u8 {
        assert_eq!(wheel(p), wheel(p));
    }
}

#[test]
fn named_colors() {
    assert_eq!(Rgb::black(), rgb(0, 0, 0));
    assert_eq!(Rgb::red(), rgb(255, 0, 0));
    assert_eq!(Rgb::green(), rgb(0, 255, 0));
    assert_eq!(Rgb::blue(), rgb(0, 0, 255));
    assert_eq!(Rgb::cyan(), rgb(0, 255, 255));
    assert_eq!(Rgb::magenta(), rgb(255, 0, 255));
    assert_eq!(Rgb::yellow(), rgb(255, 255, 0));
}

#[test]
fn rainbow_kth_output_follows_closed_form() {
    let cases: [(u8, u8); 5] = [(1, 0), (3, 200), (0, 17), (128, 5), (255, 255)];
    for (step, start) in cases {
        let mut r = Rainbow::step_phase(step, start);
        for k in 0..600u32 {
            let expected = wheel(((start as u32 + k * step as u32) % 256) as u8);
            assert_eq!(r.next(), Some(expected));
        }
    }
}

#[test]
fn rainbow_step_starts_at_zero() {
    let mut r = Rainbow::step(7);
    assert_eq!(r.next(), Some(wheel(0)));
    assert_eq!(r.next(), Some(wheel(7)));
    assert_eq!(r.next(), Some(wheel(14)));
}

#[test]
fn rainbow_default_walks_every_position() {
    let mut r = Rainbow::default();
    for p in 0..=255u8 {
        assert_eq!(r.next(), Some(wheel(p)));
    }
    assert_eq!(r.next(), Some(wheel(0)));
}

fn gcd(a: u32, b: u32) -> u32 {
    if b == 0 {
        a
    } else {
        gcd(b, a % b)
    }
}

#[test]
fn rainbow_period_is_256_over_gcd() {
    for step in 0..=255u8 {
        let period: u32 = 256 / gcd(step as u32, 256);
        let mut positions: Vec<u8> = Vec::new();
        let start: u8 = 37;
        for k in 0..(2 * period) {
            positions.push(((start as u32 + k * step as u32) % 256) as u8);
        }
        let mut r = Rainbow::step_phase(step, start);
        for k in 0..(2 * period as usize) {
            assert_eq!(r.next(), Some(wheel(positions[k])));
        }
        for k in 0..period as usize {
            assert_eq!(positions[k], positions[k + period as usize]);
            for d in 1..period as usize {
                assert_ne!(positions[k], positions[k + d]);
            }
        }
    }
}

#[test]
fn rainbow_wraps_at_256() {
    let mut r = Rainbow::step_phase(200, 100);
    assert_eq!(r.next(), Some(wheel(100)));
    assert_eq!(r.next(), Some(wheel(44)));
    assert_eq!(r.next(), Some(wheel(244)));
}

#[test]
fn rainbows_of_one_step_keep_their_offset() {
    let mut a = Rainbow::step_phase(5, 112);
    let mut b = Rainbow::step_phase(5, 96);
    for k in 0..1000u32 {
        let pa = ((112 + 5 * k) % 256) as u8;
        let pb = ((96 + 5 * k) % 256) as u8;
        assert_eq!(pa.wrapping_sub(pb), 16);
        assert_eq!(a.next(), Some(wheel(pa)));
        assert_eq!(b.next(), Some(wheel(pb)));
    }
}

#[test]
fn gamma_table_never_falls() {
    for i in 0..255usize {
        assert!(GAMMA8[i] <= GAMMA8[i + 1]);
    }
    assert_eq!(GAMMA8[0], 0);
    assert_eq!(GAMMA8[255], 255);
}

#[test]
fn gamma8_reads_the_table() {
    assert_eq!(gamma8(0), 0);
    assert_eq!(gamma8(27), 0);
    assert_eq!(gamma8(28), 1);
    assert_eq!(gamma8(127), 36);
    assert_eq!(gamma8(128), 37);
    assert_eq!(gamma8(200), 129);
    assert_eq!(gamma8(254), 252);
    assert_eq!(gamma8(255), 255);
    for i in 0..=255u8 {
        assert_eq!(gamma8(i), GAMMA8[i as usize]);
    }
}
