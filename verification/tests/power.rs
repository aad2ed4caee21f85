use rtic_stm32::color::{wheel, Rainbow, Rgb};
use rtic_stm32::power::{
    estimate_current, estimate_zones, rgb8_to_power, span_current, CHANNEL_CURRENT, NUM_LEDS,
    ZONE_BASE, ZONE_COUNT,
};
use rtic_stm32::strip::{advance_all, refresh_led_strip, refresh_panel};

fn black() -> Rgb {
    Rgb { r: 0, g: 0, b: 0 }
}

fn white() -> Rgb {
    Rgb { r: 255, g: 255, b: 255 }
}

#[test]
fn pixel_power_formula() {
    assert_eq!(rgb8_to_power(&black()), 0);
    assert_eq!(rgb8_to_power(&white()), 36);
    assert_eq!(rgb8_to_power(&Rgb { r: 255, g: 0, b: 0 }), 12);
    assert_eq!(rgb8_to_power(&Rgb { r: 0, g: 174, b: 81 }), 12);
    assert_eq!(rgb8_to_power(&Rgb { r: 10, g: 10, b: 1 }), 0);
    assert_eq!(rgb8_to_power(&Rgb { r: 10, g: 10, b: 2 }), 1);
    assert_eq!(rgb8_to_power(&Rgb { r: 100, g: 50, b: 25 }), 8);
    assert_eq!(CHANNEL_CURRENT, 12);
}

#[test]
fn all_black_panel_draws_the_base_in_every_zone() {
    let data = [black(); NUM_LEDS];
    assert_eq!(estimate_current(&data), [78, 78, 78, 78]);
    assert_eq!(ZONE_BASE, 78);
    assert_eq!(ZONE_COUNT, 4);
    assert_eq!(NUM_LEDS, 291);
}

#[test]
fn all_black_draws_the_base_under_any_partition() {
    let data = vec![black(); 20];
    assert_eq!(estimate_zones(&data, &[20]), Some(vec![78]));
    assert_eq!(estimate_zones(&data, &[5, 15]), Some(vec![78, 78]));
    assert_eq!(estimate_zones(&data, &[0, 20, 0]), Some(vec![78, 78, 78]));
    assert_eq!(estimate_zones(&data, &[1; 20]), Some(vec![78; 20]));
    let none: Vec<Rgb> = Vec::new();
    assert_eq!(estimate_zones(&none, &[]), Some(vec![]));
    assert_eq!(estimate_zones(&none, &[0, 0]), Some(vec![78, 78]));
}

#[test]
fn all_white_panel_draws_36_per_pixel() {
    let data = [white(); NUM_LEDS];
    assert_eq!(
        estimate_current(&data),
        [78 + 36 * 86, 78 + 36 * 68, 78 + 36 * 68, 78 + 36 * 69]
    );
}

#[test]
fn panel_zone_boundaries() {
    let starts: [usize; 4] = [0, 86, 154, 222];
    for z in 0..4usize {
        let mut data = [black(); NUM_LEDS];
        data[starts[z]] = white();
        let mut expected: [u32; 4] = [78; 4];
        expected[z] = 78 + 36;
        assert_eq!(estimate_current(&data), expected);
        if z > 0 {
            let mut data = [black(); NUM_LEDS];
            data[starts[z] - 1] = white();
            let mut expected: [u32; 4] = [78; 4];
            expected[z - 1] = 78 + 36;
            assert_eq!(estimate_current(&data), expected);
        }
    }
    let mut data = [black(); NUM_LEDS];
    data[290] = white();
    assert_eq!(estimate_current(&data), [78, 78, 78, 78 + 36]);
}

#[test]
fn zones_that_do_not_cover_the_buffer_are_refused() {
    let data = vec![white(); 10];
    assert_eq!(estimate_zones(&data, &[4, 5]), None);
    assert_eq!(estimate_zones(&data, &[4, 7]), None);
    assert_eq!(estimate_zones(&data, &[11]), None);
    assert_eq!(estimate_zones(&data, &[]), None);
    assert_eq!(estimate_zones(&data, &[usize::MAX, 10]), None);
    assert_eq!(estimate_zones(&data, &[usize::MAX, usize::MAX]), None);
    assert_eq!(estimate_zones(&data, &[4, 6]), Some(vec![78 + 144, 78 + 216]));
}

#[test]
fn estimate_matches_the_panel_partition() {
    let mut data = [black(); NUM_LEDS];
    let mut r = Rainbow::step_phase(3, 9);
    for i in 0..NUM_LEDS {
        data[i] = r.next().unwrap();
    }
    let general = estimate_zones(&data, &[86, 68, 68, 69]).unwrap();
    assert_eq!(general, estimate_current(&data).to_vec());
}

#[test]
fn span_current_sums_pixels() {
    let data = vec![
        Rgb { r: 255, g: 0, b: 0 },
        Rgb { r: 255, g: 255, b: 0 },
        white(),
        black(),
        Rgb { r: 10, g: 10, b: 2 },
    ];
    assert_eq!(span_current(&data, 0, 5), 12 + 24 + 36 + 0 + 1);
    assert_eq!(span_current(&data, 1, 3), 24 + 36);
    assert_eq!(span_current(&data, 2, 2), 0);
    assert_eq!(span_current(&data, 5, 5), 0);
}

#[test]
fn brightening_a_pixel_never_lowers_an_estimate() {
    let mut data = vec![Rgb { r: 3, g: 7, b: 200 }; 12];
    let sizes: [usize; 3] = [4, 4, 4];
    let before = estimate_zones(&data, &sizes).unwrap();
    data[5] = Rgb { r: 4, g: 7, b: 200 };
    let barely = estimate_zones(&data, &sizes).unwrap();
    assert_eq!(barely, before);
    data[5] = Rgb { r: 25, g: 7, b: 200 };
    let after = estimate_zones(&data, &sizes).unwrap();
    assert_eq!(after[0], before[0]);
    assert_eq!(after[1], before[1] + 1);
    assert_eq!(after[2], before[2]);
}

#[test]
fn one_more_on_a_channel_may_leave_the_estimate_unchanged() {
    let mut data = vec![black(); 4];
    data[0] = Rgb { r: 1, g: 0, b: 0 };
    assert_eq!(estimate_zones(&data, &[4]), Some(vec![78]));
    data[0] = Rgb { r: 22, g: 0, b: 0 };
    assert_eq!(estimate_zones(&data, &[4]), Some(vec![79]));
}

#[test]
fn eight_phased_generators_after_one_refresh() {
    let phases: [u8; 8] = [112, 96, 80, 64, 48, 32, 16, 0];
    let mut rainbows: Vec<Rainbow> = Vec::new();
    for p in phases {
        rainbows.push(Rainbow::step_phase(1, p));
    }
    let buffer = advance_all(&mut rainbows);
    assert_eq!(buffer.len(), 8);
    assert_eq!(buffer[0], wheel(112));
    assert_eq!(buffer[0], Rgb { r: 0, g: 174, b: 81 });
    for i in 0..8usize {
        assert_eq!(buffer[i], wheel(phases[i]));
        for j in 0..i {
            assert_ne!(buffer[i], buffer[j]);
        }
    }
    let second = advance_all(&mut rainbows);
    for i in 0..8usize {
        assert_eq!(second[i], wheel(phases[i] + 1));
    }
}

#[test]
fn strip_refresh_reduces_brightness_for_the_transport() {
    let phases: [u8; 8] = [112, 96, 80, 64, 48, 32, 16, 0];
    let mut rainbows: Vec<Rainbow> = Vec::new();
    for p in phases {
        rainbows.push(Rainbow::step_phase(1, p));
    }
    let frame = refresh_led_strip(&mut rainbows, 32);
    assert_eq!(frame.buffer.len(), 8);
    assert_eq!(frame.output.len(), 8);
    assert_eq!(frame.buffer[0], Rgb { r: 0, g: 174, b: 81 });
    assert_eq!(frame.output[0], Rgb { r: 0, g: 22, b: 10 });
    assert_ne!(frame.output[0], frame.buffer[0]);
    for i in 0..8usize {
        let c = wheel(phases[i]);
        assert_eq!(frame.buffer[i], c);
        assert_eq!(frame.output[i].r as u32, c.r as u32 * 33 / 256);
        assert_eq!(frame.output[i].g as u32, c.g as u32 * 33 / 256);
        assert_eq!(frame.output[i].b as u32, c.b as u32 * 33 / 256);
    }
    let next = refresh_led_strip(&mut rainbows, 255);
    for i in 0..8usize {
        assert_eq!(next.buffer[i], wheel(phases[i] + 1));
        assert_eq!(next.output[i], next.buffer[i]);
    }
    let dark = refresh_led_strip(&mut rainbows, 0);
    for i in 0..8usize {
        assert_eq!(dark.output[i], black());
    }
}

#[test]
fn strip_refresh_of_no_generators() {
    let mut rainbows: Vec<Rainbow> = Vec::new();
    let frame = refresh_led_strip(&mut rainbows, 32);
    assert!(frame.buffer.is_empty());
    assert!(frame.output.is_empty());
}

#[test]
fn panel_refresh_fills_the_buffer_and_estimates() {
    let mut rainbow = Rainbow::step_phase(1, 1);
    let mut data = [black(); NUM_LEDS];
    let current = refresh_panel(&mut rainbow, &mut data);
    for i in 0..NUM_LEDS {
        assert_eq!(data[i], wheel(((1 + i) % 256) as u8));
    }
    assert_eq!(current, estimate_current(&data));
    let mut expected: [u32; 4] = [78; 4];
    let starts: [usize; 5] = [0, 86, 154, 222, 291];
    for z in 0..4usize {
        for i in starts[z]..starts[z + 1] {
            let c = data[i];
            expected[z] += (c.r as u32 + c.g as u32 + c.b as u32) * 12 / 255;
        }
    }
    assert_eq!(current, expected);
    assert_eq!(current, [78 + 12 * 86, 78 + 12 * 68, 78 + 12 * 68, 78 + 12 * 69]);
    assert_eq!(rainbow.next(), Some(wheel(((1 + 291) % 256) as u8)));
}
