use automata_sandbox::color::Color;
use automata_sandbox::grid::Material;
use automata_sandbox::palette::{render_rectangle, Palette, Widget};

#[test]
fn hex_values() {
    assert_eq!(Color::Black.get_hex(), 0x000000);
    assert_eq!(Color::White.get_hex(), 0xffffff);
    assert_eq!(Color::Red.get_hex(), 0xff0000);
    assert_eq!(Color::Yellow.get_hex(), 0xffff00);
    assert_eq!(Color::Green.get_hex(), 0x00ff00);
    assert_eq!(Color::Cyan.get_hex(), 0x00ffff);
    assert_eq!(Color::Purple.get_hex(), 0xff00ff);
    assert_eq!(Color::Blue.get_hex(), 0x0000ff);
    assert_eq!(Color::Desert.get_hex(), 0xccae62);
}

#[test]
fn widget_toggles_colour() {
    let mut w = Widget::new(Material::Water);
    assert!(!w.active);
    assert_eq!(w.get_color(), Color::Yellow);
    w.toggle();
    assert!(w.active);
    assert_eq!(w.get_color(), Color::Red);
}

#[test]
fn palette_selects_one_material() {
    let mut p = Palette::new();
    assert_eq!(p.selected, Material::Ground);
    assert!(p.widgets[0].active);
    assert!(!p.widgets[1].active);
    p.select_element(Material::Water);
    assert_eq!(p.selected, Material::Water);
    assert!(!p.widgets[0].active);
    assert!(p.widgets[1].active);
}

#[test]
fn rectangle_paints_only_its_square() {
    let mut buff = vec![0u32; 6 * 5];
    render_rectangle(&mut buff, 6, 1, 2, 2, Color::Blue);
    for y in 0..5 {
        for x in 0..6 {
            let inside = (1..3).contains(&x) && (2..4).contains(&y);
            let want = if inside { 0x0000ff } else { 0 };
            assert_eq!(buff[y * 6 + x], want);
        }
    }
}
