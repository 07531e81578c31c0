use cad_import::Color;
use cad_import::IDCounter;
use cad_import::Length;
use cad_import::RGB;
use cad_import::RGBA;

#[test]
fn test_id_counter() {
    let mut id_counter = IDCounter::new();

    assert_eq!(id_counter.gen(), 0);
    assert_eq!(id_counter.gen(), 1);
    assert_eq!(id_counter.gen(), 2);
    assert_eq!(id_counter.gen(), 3);
}

#[test]
fn test_length_units() {
    assert_eq!(Length::millimeter().get_unit_in_nanometers() * 1000, Length::meter().get_unit_in_nanometers());
    assert_eq!(Length::centimeter().get_unit_in_nanometers() * 100, Length::meter().get_unit_in_nanometers());
    assert_eq!(Length::meter().get_unit_in_nanometers() * 1000, Length::kilometer().get_unit_in_nanometers());
    assert_eq!(Length::feet().get_unit_in_nanometers(), 304_800_000);
    assert_eq!(Length::inch().get_unit_in_nanometers() * 12, Length::feet().get_unit_in_nanometers() - 120);
}

#[test]
fn test_rgb() {
    let black = RGB::black();
    assert_eq!(black.red, 0f32.to_bits());
    assert_eq!(black.green, 0f32.to_bits());
    assert_eq!(black.blue, 0f32.to_bits());

    let red = RGB::new(1f32.to_bits(), 0f32.to_bits(), 0f32.to_bits());
    assert_eq!(red.red, 1f32.to_bits());
    assert_eq!(red.green, 0f32.to_bits());
    assert_eq!(red.blue, 0f32.to_bits());

    let green = RGB::new(0f32.to_bits(), 1f32.to_bits(), 0f32.to_bits());
    assert_eq!(green.red, 0f32.to_bits());
    assert_eq!(green.green, 1f32.to_bits());
    assert_eq!(green.blue, 0f32.to_bits());

    let blue = RGB::new(0f32.to_bits(), 0f32.to_bits(), 1f32.to_bits());
    assert_eq!(blue.red, 0f32.to_bits());
    assert_eq!(blue.green, 0f32.to_bits());
    assert_eq!(blue.blue, 1f32.to_bits());

    let rgb = RGB::new(0.2f32.to_bits(), 0.8f32.to_bits(), 0.5f32.to_bits());
    assert_eq!(rgb.red, 0.2f32.to_bits());
    assert_eq!(rgb.green, 0.8f32.to_bits());
    assert_eq!(rgb.blue, 0.5f32.to_bits());
}

#[test]
fn test_rgba() {
    let black = RGBA::black();
    assert_eq!(black.red, 0f32.to_bits());
    assert_eq!(black.green, 0f32.to_bits());
    assert_eq!(black.blue, 0f32.to_bits());
    assert_eq!(black.alpha, 1f32.to_bits());

    let red = RGBA::new(1f32.to_bits(), 0f32.to_bits(), 0f32.to_bits(), 1f32.to_bits());
    assert_eq!(red.red, 1f32.to_bits());
    assert_eq!(red.green, 0f32.to_bits());
    assert_eq!(red.blue, 0f32.to_bits());
    assert_eq!(red.alpha, 1f32.to_bits());

    let green = RGBA::new(0f32.to_bits(), 1f32.to_bits(), 0f32.to_bits(), 1f32.to_bits());
    assert_eq!(green.green, 1f32.to_bits());

    let blue = RGBA::new(0f32.to_bits(), 0f32.to_bits(), 1f32.to_bits(), 1f32.to_bits());
    assert_eq!(blue.blue, 1f32.to_bits());

    let transparent_color = RGBA::new(
        0.5f32.to_bits(),
        0.2f32.to_bits(),
        0.3f32.to_bits(),
        0.8f32.to_bits(),
    );
    assert_eq!(transparent_color.red, 0.5f32.to_bits());
    assert_eq!(transparent_color.green, 0.2f32.to_bits());
    assert_eq!(transparent_color.blue, 0.3f32.to_bits());
    assert_eq!(transparent_color.alpha, 0.8f32.to_bits());
}

#[test]
fn test_length_mile() {
    assert_eq!(Length::mile().get_unit_in_nanometers(), 1_609_344_000_000);
    assert_eq!(Length::feet().get_unit_in_nanometers() * 5280, Length::mile().get_unit_in_nanometers());
}
