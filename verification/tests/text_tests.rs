use scene_ui::desc::Element;
use scene_ui::env::{Palette, PaletteColor};
use scene_ui::geom::{Color, Rect, Vec2i};
use scene_ui::text::{Font, Text};
use scene_ui::transform::Transform2D;

fn elem(name: &str, attrs: Vec<(&str, &str)>, text: &str, children: Vec<Element>) -> Element {
    Element {
        name: name.to_string(),
        attrs: attrs
            .into_iter()
            .map(|(k, v)| (k.to_string(), v.to_string()))
            .collect(),
        text: text.to_string(),
        children,
    }
}

fn tiny_font() -> Element {
    // two glyphs: 'a' (id 97) and 'b' (id 98), 8x8 on a 16x16 page
    elem(
        "font",
        vec![],
        "",
        vec![
            elem("info", vec![("face", "tiny")], "", vec![]),
            elem(
                "common",
                vec![("lineHeight", "10"), ("base", "8"), ("scaleW", "16"), ("scaleH", "16")],
                "",
                vec![],
            ),
            elem(
                "pages",
                vec![],
                "",
                vec![elem("page", vec![("id", "0"), ("file", "tiny.png")], "", vec![])],
            ),
            elem(
                "chars",
                vec![],
                "",
                vec![
                    elem(
                        "char",
                        vec![
                            ("id", "97"),
                            ("x", "0"),
                            ("y", "0"),
                            ("width", "8"),
                            ("height", "8"),
                            ("xoffset", "0"),
                            ("yoffset", "1"),
                            ("xadvance", "9"),
                        ],
                        "",
                        vec![],
                    ),
                    elem(
                        "char",
                        vec![
                            ("id", "98"),
                            ("x", "8"),
                            ("y", "0"),
                            ("width", "8"),
                            ("height", "8"),
                            ("xoffset", "1"),
                            ("yoffset", "0"),
                            ("xadvance", "10"),
                        ],
                        "",
                        vec![],
                    ),
                ],
            ),
        ],
    )
}

#[test]
fn font_load_reads_metrics_and_glyphs() {
    let f = Font::load(&tiny_font(), "res/fonts/tiny.fnt");
    assert_eq!(f.name, "tiny");
    assert_eq!(f.height, 10_000);
    assert_eq!(f.base, 8_000);
    assert_eq!(f.bitmapSize, Vec2i { x: 16_000, y: 16_000 });
    assert_eq!(f.page, "res/fonts/tiny.png");
    let a = f.getGlyph('a');
    assert_eq!(a.rect, Rect { x: 0, y: 0, w: 8_000, h: 8_000 });
    assert_eq!(a.advance, 9_000);
    let b = f.getGlyph('b');
    assert_eq!(b.rect, Rect { x: 8_000, y: 0, w: 8_000, h: 8_000 });
}

#[test]
fn missing_glyph_resolves_to_zero_glyph() {
    let f = Font::load(&tiny_font(), "res/fonts/tiny.fnt");
    let g = f.getGlyph('z');
    assert_eq!(g.rect, Rect { x: 0, y: 0, w: 0, h: 0 });
    assert_eq!(g.advance, 0);
}

#[test]
fn plain_string_round_trips() {
    // no markup in, the same string out
    let pal = Palette::new();
    let mut t = Text::new();
    t.setString("hello world", &pal);
    assert_eq!(t.getString(), "hello world");
}

#[test]
fn bold_directive_scopes_to_following_run() {
    // the run before the directive stays plain, the run after it is
    // bold to the end of the string
    let pal = Palette::new();
    let mut t = Text::new();
    t.setString("one^(*)two", &pal);
    assert_eq!(t.text.len(), 2);
    assert_eq!(t.text[0].text, "one");
    assert!(!t.text[0].bold);
    assert_eq!(t.text[1].text, "two");
    assert!(t.text[1].bold);
    assert_eq!(t.getString(), "onetwo");
}

#[test]
fn empty_directive_resets_style() {
    let pal = Palette::new();
    let mut t = Text::new();
    t.setString("^(* /)a^()b", &pal);
    assert_eq!(t.text.len(), 2);
    assert!(t.text[0].bold && t.text[0].italic);
    assert!(!t.text[1].bold && !t.text[1].italic);
}

#[test]
fn color_directive_resolves_against_palette() {
    let mut pal = Palette::new();
    pal.colors.push(PaletteColor {
        name: "red".to_string(),
        value: Color { r: 200, g: 10, b: 10, a: 255 },
    });
    let mut t = Text::new();
    t.setString("^(clr=red)warning", &pal);
    assert_eq!(t.text.len(), 1);
    assert_eq!(t.text[0].color, Color { r: 200, g: 10, b: 10, a: 255 });
}

#[test]
fn unknown_color_reads_as_transparent_black() {
    let pal = Palette::new();
    let mut t = Text::new();
    t.setString("^(clr=nope)x", &pal);
    assert_eq!(t.text[0].color, Color { r: 0, g: 0, b: 0, a: 0 });
}

#[test]
fn unterminated_directive_reads_to_end() {
    let pal = Palette::new();
    let mut t = Text::new();
    t.setString("ab^(*", &pal);
    assert_eq!(t.text.len(), 1);
    assert_eq!(t.text[0].text, "ab");
    assert_eq!(t.getString(), "ab");
}

#[test]
fn newline_marks_run_as_line_end() {
    let pal = Palette::new();
    let mut t = Text::new();
    t.setString("ab\ncd", &pal);
    assert_eq!(t.text.len(), 1);
    assert_eq!(t.text[0].text, "abcd");
    assert!(t.text[0].newline);
}

#[test]
fn layout_emits_four_vertices_per_glyph() {
    let pal = Palette::new();
    let mut t = Text::new();
    t.font = Font::load(&tiny_font(), "tiny.fnt");
    t.setSize(10);
    t.setString("ab", &pal);
    t.update();
    assert_eq!(t.quads.len(), 8);
    assert!(!t.reload);
}

#[test]
fn layout_pen_advances_by_scaled_advance() {
    let pal = Palette::new();
    let mut t = Text::new();
    t.font = Font::load(&tiny_font(), "tiny.fnt");
    t.setSize(10);  // scale 1:1 against the 10 px line height
    t.setString("aa", &pal);
    t.update();
    // second glyph starts one advance (9 px) to the right
    assert_eq!(t.quads[0].x, 0);
    assert_eq!(t.quads[4].x, 9_000);
    // the running extent covers the second glyph's right edge
    assert_eq!(t.dimensions.x, 9_000 + 8_000);
}

#[test]
fn empty_text_bounds_sit_at_transform_origin() {
    // empty text yields a zero-area rectangle at the transform's image
    // of the origin
    let pal = Palette::new();
    let mut t = Text::new();
    t.setString("", &pal);
    t.ts = Transform2D {
        position: Vec2i { x: 7_000, y: 3_000 },
        rotation: 0,
        scale: Vec2i { x: 1000, y: 1000 },
        origin: Vec2i { x: 2_000, y: 1_000 },
    };
    let b = t.getBounds();
    assert_eq!(b, Rect { x: 5_000, y: 2_000, w: 0, h: 0 });
}

#[test]
fn dimensions_rebuild_lazily() {
    let pal = Palette::new();
    let mut t = Text::new();
    t.font = Font::load(&tiny_font(), "tiny.fnt");
    t.setSize(10);
    t.setString("a", &pal);
    assert!(t.reload);
    let d = t.getDimensions();
    assert!(!t.reload);
    assert_eq!(d.x, 8_000);
}

#[test]
fn parse_milli_reads_plain_decimals() {
    assert_eq!(scene_ui::util::parse_milli("0.5"), Some(500));
    assert_eq!(scene_ui::util::parse_milli("12"), Some(12_000));
    assert_eq!(scene_ui::util::parse_milli("-3.25"), Some(-3_250));
    assert_eq!(scene_ui::util::parse_milli("1."), Some(1_000));
    assert_eq!(scene_ui::util::parse_milli("x1"), None);
    assert_eq!(scene_ui::util::parse_milli(""), None);
    assert_eq!(scene_ui::util::parse_milli("1.2345"), None);
}

#[test]
fn parse_uint_rejects_junk() {
    assert_eq!(scene_ui::util::parse_uint("42"), Some(42));
    assert_eq!(scene_ui::util::parse_uint("007"), Some(7));
    assert_eq!(scene_ui::util::parse_uint("4a"), None);
    assert_eq!(scene_ui::util::parse_uint(""), None);
    assert_eq!(scene_ui::util::parse_uint("-3"), None);
}
