use qrcode53bytes::{to_dbg_string, Color, Matrix, Module, ParseColorError, Qr, StringRenderer, SvgDodrioRenderer, SvgRenderer};

fn tiny() -> Matrix {
    // .#
    // #-
    let mut m = Matrix::new(2);
    m.set(0, 0, Module::Function(false));
    m.set(1, 0, Module::Function(true));
    m.set(0, 1, Module::Data(true));
    m.set(1, 1, Module::Data(false));
    m
}

#[test]
fn text_default() {
    let s = StringRenderer::new().render_matrix(&tiny());
    assert_eq!(s, ".#\n#.\n");
}

#[test]
fn text_custom_characters_and_sizes() {
    let r = StringRenderer::new()
        .light_module('-')
        .dark_module('X')
        .module_dimensions(2, 2)
        .quiet_zone(false);
    assert_eq!(r.render_matrix(&tiny()), "-XX\n".replace("-XX", "--XX") + "--XX\n" + "XX--\nXX--\n");
}

#[test]
fn text_quiet_zone() {
    let r = StringRenderer::new().quiet_zone(true);
    let s = r.render_matrix(&tiny());
    let expected = String::from("\n\n\n\n") + "    .#    \n" + "    #.    \n" + "\n\n\n\n";
    assert_eq!(s, expected);
}

#[test]
fn text_of_a_code() {
    let qr = Qr::new("hi mem6").unwrap();
    let s = StringRenderer::new().quiet_zone(true).render(&qr);
    let lines: Vec<&str> = s.split('\n').collect();
    assert_eq!(lines.len(), 4 + 29 + 4 + 1);
    assert_eq!(lines[4].chars().count(), 8 + 29);
    assert!(lines[4].starts_with("    #######"));
}

#[test]
fn dbg_string_shows_module_kinds() {
    let mut m = Matrix::new(3);
    m.set(0, 0, Module::Reserved);
    m.set(1, 0, Module::Function(true));
    m.set(2, 0, Module::Function(false));
    m.set(0, 1, Module::Data(true));
    m.set(1, 1, Module::Data(false));
    assert_eq!(to_dbg_string(&m), "\n*#.\nX-?\n???\n");
}

#[test]
fn svg_without_quiet_zone() {
    let r = SvgRenderer::new().quiet_zone(false).dimensions(5, 4);
    let s = r.render_matrix(&tiny());
    let expected = String::from("<?xml version=\"1.0\" standalone=\"yes\"?>\n")
        + "        <svg xmlns=\"http://www.w3.org/2000/svg\" version=\"1.1\"\n"
        + "            viewBox=\"0 0 6 4\" shape-rendering=\"crispEdges\">\n"
        + "        <rect x=\"0\" y=\"0\" width=\"6\" height=\"4\" fill=\"#ffffff\"/>\n"
        + "        <path fill=\"#000000\" d=\""
        + "M3 0h3v2H3V0"
        + "M0 2h3v2H0V2"
        + "\"/></svg>\n";
    assert_eq!(s, expected);
}

#[test]
fn svg_with_quiet_zone_and_colors() {
    let r = SvgRenderer::new()
        .light_module(Color::new(229, 189, 227))
        .dark_module(Color::new(119, 0, 0))
        .dimensions(10, 10);
    let s = r.render_matrix(&tiny());
    assert!(s.contains("viewBox=\"0 0 10 10\""));
    assert!(s.contains("fill=\"#e5bde3\""));
    assert!(s.contains("<path fill=\"#770000\" d=\"M5 4h1v1H5V4M4 5h1v1H4V5\"/></svg>\n"));
}

#[test]
fn svg_of_a_code() {
    let qr = Qr::new("https://bestia.dev/mem6/#p04.1234").unwrap();
    let s = SvgRenderer::new().render(&qr);
    // 37 cells of 6 pixels.
    assert!(s.contains("viewBox=\"0 0 222 222\""));
    assert!(s.ends_with("\"/></svg>\n"));
    assert!(s.contains("M24 24h6v6H24V24"));
}

#[test]
fn dodrio_svg() {
    let s = SvgDodrioRenderer::new(10, 10).render_matrix(&tiny());
    let expected = String::from("<svg x=\"10%\" y=\"22%\" height=\"35%\" width=\"80%\" viewBox=\"0 0 10 10\"\n")
        + "            shape-rendering=\"crispEdges\">\n"
        + "         <rect x=\"0\" y=\"0\" width=\"100%\" height=\"100%\" fill=\"#ffffff\" />\n"
        + "         <path fill=\"#000000\" d=\" "
        + "M5 4h1v1H5V4M4 5h1v1H4V5"
        + "\"/></svg>\n";
    assert_eq!(s, expected);
    let qr = Qr::new("x").unwrap();
    assert!(SvgDodrioRenderer::new(200, 200).render(&qr).contains("viewBox=\"0 0 200 200\""));
}

#[test]
fn color_from_number() {
    assert_eq!(Color::hex(0xff3214), Color::new(0xff, 0x32, 0x14));
    assert_eq!(Color::hex(0xff7312).to_hex_str(), "#ff7312");
    assert_eq!(Color::new(1, 2, 171).to_hex_str(), "#0102ab");
}

#[test]
fn color_parsing() {
    assert_eq!(Color::from_4_hex("#700").unwrap(), Color::new(0x77, 0, 0));
    assert_eq!(Color::from_4_hex("#aBc").unwrap(), Color::new(0xaa, 0xbb, 0xcc));
    assert!(Color::from_4_hex("700a").is_err());
    assert!(Color::from_4_hex("#7g0").is_err());
    assert_eq!(Color::from_7_hex("#3477ff").unwrap(), Color::new(0x34, 0x77, 0xff));
    assert_eq!(Color::from_7_hex("#+f+f+f").unwrap(), Color::new(15, 15, 15));
    assert!(Color::from_7_hex("#3477fz").is_err());
    assert!(Color::from_7_hex("x3477ff").is_err());
    assert_eq!("#123".parse::<Color>().unwrap(), Color::new(0x11, 0x22, 0x33));
    assert_eq!("#123456".parse::<Color>().unwrap(), Color::new(0x12, 0x34, 0x56));
    let e: Result<Color, ParseColorError> = "#12345".parse();
    assert!(e.is_err());
}
