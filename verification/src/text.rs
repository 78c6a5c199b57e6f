use vstd::prelude::*;
use crate::desc::{spec_att, Element};
use crate::geom::{Color, Rect, Vec2i};
use crate::util::{spec_parse_milli, spec_parse_uint};

verus! {

/// One glyph of a bitmap font: its sub-rectangle on the page texture, its
/// pixel offset from the pen, and its horizontal advance — all in
/// milli-pixels.
#[derive(Clone, Copy, Debug, PartialEq, Eq, Structural)]
pub struct Glyph {
    pub rect: Rect,
    pub offset: Vec2i,
    pub advance: i64,
}

/// Where text is anchored relative to its position.
#[derive(Clone, Copy, Debug, PartialEq, Eq, Structural)]
pub enum Anchor {
    Left,
    Center,
    Right,
    Bottom,
    Top,
}

/// A bitmap font: its face name, the page texture path, the line height and
/// baseline in milli-pixels, the atlas pixel size, and the glyph table.
#[derive(Debug)]
pub struct Font {
    pub name: String,
    pub page: String,
    pub height: i64,
    pub base: i64,
    pub bitmapSize: Vec2i,
    pub glyphs: Vec<(u32, Glyph)>,
}

/// The mathematical state of a [`Font`].
pub ghost struct FontV {
    pub name: Seq<char>,
    pub page: Seq<char>,
    pub height: int,
    pub base: int,
    pub bitmapSize: Vec2i,
    pub glyphs: Seq<(u32, Glyph)>,
}

impl View for Font {
    type V = FontV;

    open spec fn view(&self) -> FontV {
        FontV {
            name: self.name@,
            page: self.page@,
            height: self.height as int,
            base: self.base as int,
            bitmapSize: self.bitmapSize,
            glyphs: self.glyphs@.map_values(|g: (u32, Glyph)| g),
        }
    }
}

/// The glyph registered under code point `id`: the latest entry wins, as in
/// a table filled by replacement, and a missing code point resolves to the
/// zero glyph rather than failing.
pub open spec fn spec_glyph_of(glyphs: Seq<(u32, Glyph)>, id: int) -> Glyph
    decreases glyphs.len(),
{
    if glyphs.len() == 0 {
        Glyph { rect: Rect { x: 0, y: 0, w: 0, h: 0 }, offset: Vec2i { x: 0, y: 0 }, advance: 0 }
    } else if glyphs.last().0 == id {
        glyphs.last().1
    } else {
        spec_glyph_of(glyphs.drop_last(), id)
    }
}

/// An attribute read as a byte-ranged integer in milli-units: a missing
/// attribute, or one that is not a plain integer within `0..=bound`, reads
/// as zero.
pub open spec fn spec_att_scalar(el: Element, name: Seq<char>, bound: int) -> int {
    match spec_att(el.attrs@, name) {
        Some(s) => match spec_parse_uint(s) {
            Some(v) => if v <= bound {
                v * 1000
            } else {
                0
            },
            None => 0,
        },
        None => 0,
    }
}

/// An attribute read as a milli fixed-point number; missing or malformed
/// reads as zero.
pub open spec fn spec_att_milli(el: Element, name: Seq<char>) -> int {
    match spec_att(el.attrs@, name) {
        Some(s) => match spec_parse_milli(s) {
            Some(v) => v,
            None => 0,
        },
        None => 0,
    }
}

/// The glyph one `char` element describes, keyed by its `id` attribute.
pub open spec fn spec_parse_glyph(el: Element) -> (u32, Glyph) {
    (
        (spec_att_scalar(el, "id"@, 65535) / 1000) as u32,
        Glyph {
            rect: Rect {
                x: spec_att_milli(el, "x"@) as i64,
                y: spec_att_milli(el, "y"@) as i64,
                w: spec_att_milli(el, "width"@) as i64,
                h: spec_att_milli(el, "height"@) as i64,
            },
            offset: Vec2i {
                x: spec_att_milli(el, "xoffset"@) as i64,
                y: spec_att_milli(el, "yoffset"@) as i64,
            },
            advance: spec_att_scalar(el, "xadvance"@, 255) as i64,
        },
    )
}

/// The directory part of a path: everything through the last `/`, or
/// nothing when there is none.
pub open spec fn spec_dir_of(s: Seq<char>) -> Seq<char> {
    s.take(spec_rfind_slash(s, s.len() as int - 1) + 1)
}

/// The last position of `/` at or before `from`, or `-1`.
pub open spec fn spec_rfind_slash(s: Seq<char>, from: int) -> int
    decreases from + 1,
{
    if from < 0 || from >= s.len() {
        -1
    } else if s[from] == '/' {
        from
    } else {
        spec_rfind_slash(s, from - 1)
    }
}

/// Folds one descriptor element into a font: `info` names the face,
/// `common` sets line height, baseline and atlas size, `pages` points the
/// page texture path into the font's directory, and `chars` appends glyphs.
pub open spec fn spec_font_elem(el: Element, dir: Seq<char>, f: FontV) -> FontV {
    if el.name@ == "info"@ {
        FontV {
            name: match spec_att(el.attrs@, "face"@) {
                Some(s) => s,
                None => Seq::empty(),
            },
            ..f
        }
    } else if el.name@ == "common"@ {
        FontV {
            height: spec_att_scalar(el, "lineHeight"@, 255),
            base: spec_att_scalar(el, "base"@, 255),
            bitmapSize: Vec2i {
                x: spec_att_milli(el, "scaleW"@) as i64,
                y: spec_att_milli(el, "scaleH"@) as i64,
            },
            ..f
        }
    } else if el.name@ == "pages"@ {
        if el.children@.len() > 0 {
            FontV {
                page: dir + (match spec_att(el.children@[0].attrs@, "file"@) {
                    Some(s) => s,
                    None => Seq::empty(),
                }),
                ..f
            }
        } else {
            f
        }
    } else if el.name@ == "chars"@ {
        FontV {
            glyphs: f.glyphs + el.children@.map_values(|c: Element| spec_parse_glyph(c)),
            ..f
        }
    } else {
        f
    }
}

/// The font a descriptor document describes, folded element by element.
pub open spec fn spec_font_fold(children: Seq<Element>, dir: Seq<char>, f: FontV) -> FontV
    decreases children.len(),
{
    if children.len() == 0 {
        f
    } else {
        spec_font_fold(children.drop_first(), dir, spec_font_elem(children[0], dir, f))
    }
}

/// The empty font every [`Font`] starts from.
pub open spec fn spec_font_empty() -> FontV {
    FontV {
        name: Seq::empty(),
        page: Seq::empty(),
        height: 0,
        base: 0,
        bitmapSize: Vec2i { x: 0, y: 0 },
        glyphs: Seq::empty(),
    }
}

impl Font {
    /// A font with no glyphs: every lookup yields the zero glyph and layout
    /// degrades to nothing.
    pub fn new() -> (r: Font)
        ensures
            r@ == spec_font_empty(),
    {
        let r = Font {
            name: String::new(),
            page: String::new(),
            height: 0,
            base: 0,
            bitmapSize: Vec2i { x: 0, y: 0 },
            glyphs: Vec::new(),
        };
        proof {
            assert(r@.glyphs =~= Seq::<(u32, Glyph)>::empty());
        }
        r
    }

    /// Reads a bitmap-font descriptor document.  `path` is the descriptor's
    /// own path; the page texture file is resolved against its directory.
    pub fn load(src: &Element, path: &str) -> (r: Font)
        ensures
            r@ == spec_font_fold(src.children@, spec_dir_of(path@), spec_font_empty()),
    {
        let mut font = Font::new();
        let dir = Self::dirOf(path);
        let ghost all = src.children@;
        proof {
            assert(all.skip(0) =~= all);
        }
        let mut i: usize = 0;
        while i < src.children.len()
            invariant
                i <= src.children.len(),
                all == src.children@,
                dir@ == spec_dir_of(path@),
                spec_font_fold(all.skip(i as int), dir@, font@) == spec_font_fold(
                    all,
                    spec_dir_of(path@),
                    spec_font_empty(),
                ),
            decreases src.children.len() - i,
        {
            proof {
                assert(all.skip(i as int).drop_first() =~= all.skip(i + 1));
            }
            font.readElem(&src.children[i], dir.as_str());
            i += 1;
        }
        font
    }

    /// Folds one descriptor element into the font.
    fn readElem(&mut self, el: &Element, dir: &str)
        ensures
            final(self)@ == spec_font_elem(*el, dir@, old(self)@),
    {
        proof {
            reveal_strlit("info");
            reveal_strlit("common");
            reveal_strlit("pages");
            reveal_strlit("chars");
            reveal_strlit("");
        }
        if crate::util::str_eq(el.name.as_str(), "info") {
            self.name = el.att_or("face", "");
            proof {
                assert(""@ =~= Seq::<char>::empty());
            }
        } else if crate::util::str_eq(el.name.as_str(), "common") {
            self.height = Self::attScalar(el, "lineHeight", 255);
            self.base = Self::attScalar(el, "base", 255);
            self.bitmapSize = Vec2i { x: Self::attMilli(el, "scaleW"), y: Self::attMilli(el, "scaleH") };
        } else if crate::util::str_eq(el.name.as_str(), "pages") {
            if el.children.len() > 0 {
                let file = el.children[0].att_or("file", "");
                self.page = dir.to_owned().concat(file.as_str());
            }
        } else if crate::util::str_eq(el.name.as_str(), "chars") {
            let ghost snap = self@;
            let mut j: usize = 0;
            while j < el.children.len()
                invariant
                    j <= el.children.len(),
                    self.name@ == snap.name,
                    self.page@ == snap.page,
                    self.height as int == snap.height,
                    self.base as int == snap.base,
                    self.bitmapSize == snap.bitmapSize,
                    self@.glyphs =~= snap.glyphs + el.children@.take(j as int).map_values(
                        |c: Element| spec_parse_glyph(c),
                    ),
                decreases el.children.len() - j,
            {
                let ghost prev = self@.glyphs;
                let g = Self::parseGlyph(&el.children[j]);
                self.glyphs.push(g);
                proof {
                    assert(self@.glyphs =~= prev.push(g));
                    assert(el.children@.take(j + 1) =~= el.children@.take(j as int).push(
                        el.children@[j as int],
                    ));
                    assert(el.children@.take(j + 1).map_values(
                        |c: Element| spec_parse_glyph(c),
                    ) =~= el.children@.take(j as int).map_values(
                        |c: Element| spec_parse_glyph(c),
                    ).push(spec_parse_glyph(el.children@[j as int])));
                }
                j += 1;
            }
            proof {
                assert(el.children@.take(el.children@.len() as int) =~= el.children@);
                assert(self@ == (FontV {
                    glyphs: snap.glyphs + el.children@.map_values(
                        |c: Element| spec_parse_glyph(c),
                    ),
                    ..snap
                }));
            }
        }
    }

    /// Reads one `char` element into a keyed glyph.
    fn parseGlyph(el: &Element) -> (r: (u32, Glyph))
        ensures
            r == spec_parse_glyph(*el),
    {
        let id = Self::attScalar(el, "id", 65535) / 1000;
        (
            id as u32,
            Glyph {
                rect: Rect {
                    x: Self::attMilli(el, "x"),
                    y: Self::attMilli(el, "y"),
                    w: Self::attMilli(el, "width"),
                    h: Self::attMilli(el, "height"),
                },
                offset: Vec2i { x: Self::attMilli(el, "xoffset"), y: Self::attMilli(el, "yoffset") },
                advance: Self::attScalar(el, "xadvance", 255),
            },
        )
    }

    /// Reads an attribute as a bounded whole number in milli-units.
    pub(crate) fn attScalar(el: &Element, name: &str, bound: u64) -> (r: i64)
        requires
            bound <= 65535,
        ensures
            r as int == spec_att_scalar(*el, name@, bound as int),
            0 <= r <= bound * 1000,
    {
        match el.att_opt(name) {
            Some(s) => match crate::util::parse_uint(s.as_str()) {
                Some(v) => if v <= bound {
                    (v as i64) * 1000
                } else {
                    0
                },
                None => 0,
            },
            None => 0,
        }
    }

    /// Reads an attribute as a milli fixed-point number.
    pub(crate) fn attMilli(el: &Element, name: &str) -> (r: i64)
        ensures
            r as int == spec_att_milli(*el, name@),
    {
        match el.att_opt(name) {
            Some(s) => match crate::util::parse_milli(s.as_str()) {
                Some(v) => v,
                None => 0,
            },
            None => 0,
        }
    }

    /// The directory part of a path, through its last `/`.
    fn dirOf(path: &str) -> (r: String)
        ensures
            r@ == spec_dir_of(path@),
    {
        let n = path.unicode_len();
        let mut i: usize = n;
        while i > 0
            invariant
                0 <= i <= n,
                n == path@.len(),
                spec_rfind_slash(path@, n as int - 1) == spec_rfind_slash(path@, i as int - 1),
            decreases i,
        {
            if path.get_char(i - 1) == '/' {
                return path.substring_char(0, i).to_owned();
            }
            i -= 1;
        }
        String::new()
    }

    /// The glyph for a character; an unknown character yields the zero
    /// glyph.
    pub fn getGlyph(&self, c: char) -> (r: Glyph)
        ensures
            r == spec_glyph_of(self@.glyphs, c as int),
    {
        let code = c as u32;
        let mut i: usize = self.glyphs.len();
        proof {
            assert(self@.glyphs =~= self.glyphs@);
            assert(self@.glyphs.take(i as int) =~= self@.glyphs);
        }
        while i > 0
            invariant
                0 <= i <= self.glyphs.len(),
                code as int == c as int,
                self@.glyphs == self.glyphs@,
                spec_glyph_of(self@.glyphs, c as int) == spec_glyph_of(
                    self@.glyphs.take(i as int),
                    c as int,
                ),
            decreases i,
        {
            proof {
                assert(self@.glyphs.take(i as int).drop_last() =~= self@.glyphs.take(i - 1));
                assert(self@.glyphs.take(i as int).last() == self@.glyphs[i - 1]);
            }
            if self.glyphs[i - 1].0 == code {
                return self.glyphs[i - 1].1;
            }
            i -= 1;
        }
        Glyph { rect: Rect::zero(), offset: Vec2i::zero(), advance: 0 }
    }
}

/// One styled run of text: a maximal span sharing one style and colour,
/// optionally ending its line.
#[derive(Debug)]
pub struct StyledText {
    pub text: String,
    pub bold: bool,
    pub italic: bool,
    pub underlined: bool,
    pub strikethrough: bool,
    pub newline: bool,
    pub color: Color,
}

/// The mathematical state of a [`StyledText`] run.
pub ghost struct RunV {
    pub text: Seq<char>,
    pub bold: bool,
    pub italic: bool,
    pub underlined: bool,
    pub strikethrough: bool,
    pub newline: bool,
    pub color: Color,
}

impl View for StyledText {
    type V = RunV;

    open spec fn view(&self) -> RunV {
        RunV {
            text: self.text@,
            bold: self.bold,
            italic: self.italic,
            underlined: self.underlined,
            strikethrough: self.strikethrough,
            newline: self.newline,
            color: self.color,
        }
    }
}

/// The run every directive starts from: no text, no styling, opaque white.
pub open spec fn default_run() -> RunV {
    RunV {
        text: Seq::empty(),
        bold: false,
        italic: false,
        underlined: false,
        strikethrough: false,
        newline: false,
        color: Color { r: 255, g: 255, b: 255, a: 255 },
    }
}

/// Whether a token mentions `clr`.
pub open spec fn spec_contains_clr(tok: Seq<char>) -> bool {
    exists|i: int|
        0 <= i && i + 3 <= tok.len() && #[trigger] tok[i] == 'c' && tok[i + 1] == 'l' && tok[i
            + 2] == 'r'
}

/// One style token applied to a run: `*` bold, `/` italic, `_` underline,
/// `-` strikethrough; a token mentioning `clr` with an `=` resolves the part
/// between its first two `=` signs against the palette; anything else — an
/// unknown token, or a `clr` token without `=` — changes nothing.
pub open spec fn spec_apply_token(
    tok: Seq<char>,
    run: RunV,
    pal: Seq<crate::env::PaletteColor>,
) -> RunV {
    if tok.len() == 1 && tok[0] == '*' {
        RunV { bold: true, ..run }
    } else if tok.len() == 1 && tok[0] == '/' {
        RunV { italic: true, ..run }
    } else if tok.len() == 1 && tok[0] == '_' {
        RunV { underlined: true, ..run }
    } else if tok.len() == 1 && tok[0] == '-' {
        RunV { strikethrough: true, ..run }
    } else if spec_contains_clr(tok) {
        let e1 = crate::util::spec_find_char(tok, '=', 0);
        if e1 < tok.len() {
            let e2 = crate::util::spec_find_char(tok, '=', e1 + 1);
            RunV { color: crate::env::spec_color_of(pal, tok.subrange(e1 + 1, e2)), ..run }
        } else {
            run
        }
    } else {
        run
    }
}

/// A directive body applied token by token, tokens separated by single
/// spaces.
pub open spec fn spec_apply_tokens(
    body: Seq<char>,
    run: RunV,
    pal: Seq<crate::env::PaletteColor>,
) -> RunV
    decreases body.len(),
{
    let sp = crate::util::spec_find_char(body, ' ', 0);
    let run2 = spec_apply_token(body.take(sp), run, pal);
    if 0 <= sp < body.len() {
        spec_apply_tokens(body.skip(sp + 1), run2, pal)
    } else {
        run2
    }
}

/// The markup grammar: `^( ... )` closes the pending run (if it holds any
/// text) and starts a fresh default-styled run with the directive's tokens
/// applied; a literal newline marks the pending run as ending its line; any
/// other character joins the pending run.  An unterminated directive is
/// read to the end of the string; empty runs are never emitted.
pub open spec fn spec_markup(
    s: Seq<char>,
    pending: RunV,
    acc: Seq<RunV>,
    pal: Seq<crate::env::PaletteColor>,
) -> Seq<RunV>
    decreases s.len(),
{
    if s.len() == 0 {
        if pending.text.len() > 0 {
            acc.push(pending)
        } else {
            acc
        }
    } else if s[0] == '^' && s.len() > 1 && s[1] == '(' {
        let acc2 = if pending.text.len() > 0 {
            acc.push(pending)
        } else {
            acc
        };
        let close = crate::util::spec_find_char(s, ')', 2);
        let run2 = spec_apply_tokens(s.subrange(2, close), default_run(), pal);
        let rest = if 2 <= close < s.len() {
            s.skip(close + 1)
        } else {
            Seq::empty()
        };
        spec_markup(rest, run2, acc2, pal)
    } else if s[0] == '\n' {
        spec_markup(s.drop_first(), RunV { newline: true, ..pending }, acc, pal)
    } else {
        spec_markup(
            s.drop_first(),
            RunV { text: pending.text.push(s[0]), ..pending },
            acc,
            pal,
        )
    }
}

/// The runs a marked-up string parses into.
pub open spec fn spec_parse_markup(s: Seq<char>, pal: Seq<crate::env::PaletteColor>) -> Seq<
    RunV,
> {
    spec_markup(s, default_run(), Seq::empty(), pal)
}

/// A pending run under construction, as plain data.
pub struct PendingRun {
    pub text: String,
    pub bold: bool,
    pub italic: bool,
    pub underlined: bool,
    pub strikethrough: bool,
    pub newline: bool,
    pub color: Color,
}

impl View for PendingRun {
    type V = RunV;

    open spec fn view(&self) -> RunV {
        RunV {
            text: self.text@,
            bold: self.bold,
            italic: self.italic,
            underlined: self.underlined,
            strikethrough: self.strikethrough,
            newline: self.newline,
            color: self.color,
        }
    }
}

impl PendingRun {
    /// A fresh default run.
    fn new() -> (r: PendingRun)
        ensures
            r@ == default_run(),
    {
        PendingRun {
            text: String::new(),
            bold: false,
            italic: false,
            underlined: false,
            strikethrough: false,
            newline: false,
            color: Color::white(),
        }
    }

    /// Turns the pending run into a stored one.
    fn intoRun(self) -> (r: StyledText)
        ensures
            r@ == self@,
    {
        StyledText {
            text: self.text,
            bold: self.bold,
            italic: self.italic,
            underlined: self.underlined,
            strikethrough: self.strikethrough,
            newline: self.newline,
            color: self.color,
        }
    }

    /// Applies one style token, as [`spec_apply_token`] says.
    fn applyToken(&mut self, s: &str, from: usize, to: usize, palette: &crate::env::Palette)
        requires
            from <= to <= old(self)@.text.len() + s@.len(),
            to <= s@.len(),
        ensures
            final(self)@ == spec_apply_token(
                s@.subrange(from as int, to as int),
                old(self)@,
                palette.colors@,
            ),
    {
        let ghost tok = s@.subrange(from as int, to as int);
        let n = to - from;
        if n == 1 && s.get_char(from) == '*' {
            self.bold = true;
            return;
        }
        if n == 1 && s.get_char(from) == '/' {
            self.italic = true;
            return;
        }
        if n == 1 && s.get_char(from) == '_' {
            self.underlined = true;
            return;
        }
        if n == 1 && s.get_char(from) == '-' {
            self.strikethrough = true;
            return;
        }
        // does the token mention "clr"?
        let mut has_clr = false;
        let mut k: usize = from;
        while to - k >= 3
            invariant_except_break
                !has_clr,
                forall|x: int|
                    0 <= x < k - from && x + 3 <= tok.len() ==> !(#[trigger] tok[x] == 'c' && tok[x
                        + 1] == 'l' && tok[x + 2] == 'r'),
            invariant
                from <= k,
                k <= to <= s@.len(),
                tok == s@.subrange(from as int, to as int),
            ensures
                from <= k <= to <= s@.len(),
                tok == s@.subrange(from as int, to as int),
                has_clr == spec_contains_clr(tok),
            decreases to - k,
        {
            if s.get_char(k) == 'c' && s.get_char(k + 1) == 'l' && s.get_char(k + 2) == 'r' {
                has_clr = true;
                proof {
                    assert(tok[k - from] == 'c' && tok[k - from + 1] == 'l' && tok[k - from + 2]
                        == 'r');
                }
                break ;
            }
            k += 1;
        }
        if !has_clr {
            return;
        }
        // find the value between the first two '=' signs
        let mut e1: usize = from;
        while e1 < to
            invariant
                from <= e1 <= to <= s@.len(),
                tok == s@.subrange(from as int, to as int),
                crate::util::spec_find_char(tok, '=', 0) == crate::util::spec_find_char(
                    tok,
                    '=',
                    e1 - from,
                ),
            ensures
                from <= e1 <= to <= s@.len(),
                tok == s@.subrange(from as int, to as int),
                e1 - from == crate::util::spec_find_char(tok, '=', 0),
                e1 < to ==> s@[e1 as int] == '=',
            decreases to - e1,
        {
            proof {
                assert(tok[e1 - from] == s@[e1 as int]);
            }
            if s.get_char(e1) == '=' {
                break ;
            }
            e1 += 1;
        }
        if e1 >= to {
            return;
        }
        let mut e2: usize = e1 + 1;
        while e2 < to
            invariant
                from <= e1 < to <= s@.len(),
                e1 + 1 <= e2 <= to,
                tok == s@.subrange(from as int, to as int),
                crate::util::spec_find_char(tok, '=', e1 - from + 1) == crate::util::spec_find_char(
                    tok,
                    '=',
                    e2 - from,
                ),
            ensures
                e1 + 1 <= e2 <= to,
                tok == s@.subrange(from as int, to as int),
                e2 - from == crate::util::spec_find_char(tok, '=', e1 - from + 1),
            decreases to - e2,
        {
            proof {
                assert(tok[e2 - from] == s@[e2 as int]);
            }
            if s.get_char(e2) == '=' {
                break ;
            }
            e2 += 1;
        }
        let value = s.substring_char(e1 + 1, e2);
        proof {
            assert(value@ =~= tok.subrange(e1 - from + 1, e2 - from));
        }
        self.color = palette.getColor(value);
    }
}

/// One laid-out vertex of a glyph quad: position in milli-pixels, texture
/// coordinates in micro-units, and the run's colour.
#[derive(Clone, Copy, Debug, PartialEq, Eq, Structural)]
pub struct Vertex {
    pub x: i64,
    pub y: i64,
    pub u: i64,
    pub v: i64,
    pub color: Color,
}

/// Styled bitmap-font text: the font, the parsed runs, the cached quads and
/// bounding dimensions with their dirty flag, the pixel size the font is
/// drawn at, and the local transform.
#[derive(Debug)]
pub struct Text {
    pub font: Font,
    pub text: Vec<StyledText>,
    pub quads: Vec<Vertex>,
    pub reload: bool,
    pub fontSize: u8,
    pub dimensions: Vec2i,
    pub ts: crate::transform::Transform2D,
}

/// The views of the stored runs.
pub open spec fn spec_runs_of(runs: Seq<StyledText>) -> Seq<RunV> {
    runs.map_values(|r: StyledText| r@)
}

/// The mathematical state of a [`Text`].
pub ghost struct TextV {
    pub font: FontV,
    pub runs: Seq<RunV>,
    pub quads: Seq<Vertex>,
    pub reload: bool,
    pub fontSize: int,
    pub dimensions: Vec2i,
    pub ts: crate::transform::Transform2D,
}

impl View for Text {
    type V = TextV;

    open spec fn view(&self) -> TextV {
        TextV {
            font: self.font@,
            runs: spec_runs_of(self.text@),
            quads: self.quads@,
            reload: self.reload,
            fontSize: self.fontSize as int,
            dimensions: self.dimensions,
            ts: self.ts,
        }
    }
}

/// The state of a fresh [`Text`].
pub open spec fn spec_text_new() -> TextV {
    TextV {
        font: spec_font_empty(),
        runs: Seq::empty(),
        quads: Seq::empty(),
        reload: true,
        fontSize: 48,
        dimensions: Vec2i { x: 0, y: 0 },
        ts: crate::transform::Transform2D {
            position: Vec2i { x: 0, y: 0 },
            rotation: 0,
            scale: Vec2i { x: 1000, y: 1000 },
            origin: Vec2i { x: 0, y: 0 },
        },
    }
}

impl Text {
    /// Empty text at default size with the identity transform.
    pub fn new() -> (r: Text)
        ensures
            r.font@ == spec_font_empty(),
            r.text@.len() == 0,
            r.quads@.len() == 0,
            r.reload == true,
            r.fontSize == 48,
            r.dimensions == (Vec2i { x: 0, y: 0 }),
            r.ts == (crate::transform::Transform2D {
                position: Vec2i { x: 0, y: 0 },
                rotation: 0,
                scale: Vec2i { x: 1000, y: 1000 },
                origin: Vec2i { x: 0, y: 0 },
            }),
    {
        Text {
            font: Font::new(),
            text: Vec::new(),
            quads: Vec::new(),
            reload: true,
            fontSize: 48,
            dimensions: Vec2i { x: 0, y: 0 },
            ts: crate::transform::Transform2D::new(),
        }
    }

    /// Loads the font from its descriptor document and marks the layout
    /// dirty.
    pub fn loadFont(&mut self, src: &Element, path: &str)
        ensures
            final(self).font@ == spec_font_fold(
                src.children@,
                spec_dir_of(path@),
                spec_font_empty(),
            ),
            final(self).reload == true,
            final(self).text == old(self).text,
            final(self).quads == old(self).quads,
            final(self).fontSize == old(self).fontSize,
            final(self).dimensions == old(self).dimensions,
            final(self).ts == old(self).ts,
    {
        self.font = Font::load(src, path);
        self.reload = true;
    }

    /// Sets the drawn pixel size and marks the layout dirty.
    pub fn setSize(&mut self, size: u8)
        ensures
            *final(self) == (Text { fontSize: size, reload: true, ..*old(self) }),
    {
        self.fontSize = size;
        self.reload = true;
    }

    /// Parses a marked-up string into styled runs, as [`spec_parse_markup`]
    /// says, and marks the layout dirty.
    pub fn setString(&mut self, s: &str, palette: &crate::env::Palette)
        ensures
            spec_runs_of(final(self).text@) == spec_parse_markup(s@, palette.colors@),
            final(self).reload == true,
            final(self).font == old(self).font,
            final(self).quads == old(self).quads,
            final(self).fontSize == old(self).fontSize,
            final(self).dimensions == old(self).dimensions,
            final(self).ts == old(self).ts,
    {
        self.text = Vec::new();
        let mut pending = PendingRun::new();
        let n = s.unicode_len();
        let ghost pal = palette.colors@;
        let ghost target = spec_parse_markup(s@, pal);
        proof {
            assert(s@.skip(0) =~= s@);
            assert(spec_runs_of(self.text@) =~= Seq::<RunV>::empty());
        }
        let mut i: usize = 0;
        while i < n
            invariant
                i <= n,
                n == s@.len(),
                pal == palette.colors@,
                spec_markup(s@.skip(i as int), pending@, spec_runs_of(self.text@), pal)
                    == target,
                self.font == old(self).font,
                self.quads == old(self).quads,
                self.fontSize == old(self).fontSize,
                self.dimensions == old(self).dimensions,
                self.ts == old(self).ts,
                self.reload == old(self).reload,
            decreases n - i,
        {
            let ghost rem = s@.skip(i as int);
            proof {
                assert(rem[0] == s@[i as int]);
            }
            let c = s.get_char(i);
            let mut isdir = false;
            if c == '^' && i + 1 < n {
                proof {
                    assert(rem[1] == s@[i + 1]);
                }
                if s.get_char(i + 1) == '(' {
                    isdir = true;
                }
            }
            if isdir {
                let ghost acc_before = spec_runs_of(self.text@);
                let ghost pend_before = pending@;
                if !pending.text.as_str().is_empty() {
                    let ghost prev = self.text@;
                    self.text.push(pending.intoRun());
                    proof {
                        assert(spec_runs_of(self.text@) =~= spec_runs_of(prev).push(pend_before));
                    }
                }
                pending = PendingRun::new();
                let ghost acc2 = spec_runs_of(self.text@);
                // scan for the closing parenthesis
                let mut j = i + 2;
                while j < n
                    invariant_except_break
                        crate::util::spec_find_char(rem, ')', 2) == crate::util::spec_find_char(
                            rem,
                            ')',
                            j - i,
                        ),
                    invariant
                        i + 2 <= j <= n,
                        i + 2 <= n,
                        n == s@.len(),
                        rem == s@.skip(i as int),
                    ensures
                        i + 2 <= j <= n,
                        n == s@.len(),
                        rem == s@.skip(i as int),
                        crate::util::spec_find_char(rem, ')', 2) == if j < n {
                            j - i
                        } else {
                            rem.len() as int
                        },
                        j < n ==> s@[j as int] == ')',
                    decreases n - j,
                {
                    proof {
                        assert(rem[j - i] == s@[j as int]);
                    }
                    if s.get_char(j) == ')' {
                        break ;
                    }
                    j += 1;
                }
                let ghost close = crate::util::spec_find_char(rem, ')', 2);
                let ghost body = rem.subrange(2, close);
                proof {
                    assert(body =~= s@.subrange(i + 2, i + close));
                }
                let ghost target_run = spec_apply_tokens(body, default_run(), pal);
                // apply the directive's tokens
                let mut t = i + 2;
                proof {
                    assert(body.skip(0) =~= body);
                }
                loop
                    invariant_except_break
                        i + 2 <= t <= j,
                        j <= n,
                        n == s@.len(),
                        rem == s@.skip(i as int),
                        body == rem.subrange(2, close),
                        close == if j < n {
                            j - i
                        } else {
                            rem.len() as int
                        },
                        i + 2 <= j,
                        pal == palette.colors@,
                        spec_apply_tokens(body.skip(t - i - 2), pending@, pal) == target_run,
                    ensures
                        pending@ == target_run,
                    decreases j - t,
                {
                    let ghost sub = body.skip(t - i - 2);
                    // find the next token separator
                    let mut sp = t;
                    while sp < j
                        invariant_except_break
                            crate::util::spec_find_char(sub, ' ', 0) == crate::util::spec_find_char(
                                sub,
                                ' ',
                                sp - t,
                            ),
                        invariant
                            t <= sp <= j <= n,
                            n == s@.len(),
                            sub == body.skip(t - i - 2),
                            body == rem.subrange(2, close),
                            rem == s@.skip(i as int),
                            close == if j < n {
                                j - i
                            } else {
                                rem.len() as int
                            },
                            i + 2 <= t,
                            i + 2 <= j,
                        ensures
                            t <= sp <= j,
                            crate::util::spec_find_char(sub, ' ', 0) == if sp < j {
                                sp - t
                            } else {
                                sub.len() as int
                            },
                            sp < j ==> s@[sp as int] == ' ',
                        decreases j - sp,
                    {
                        proof {
                            assert(sub[sp - t] == s@[sp as int]);
                        }
                        if s.get_char(sp) == ' ' {
                            break ;
                        }
                        sp += 1;
                    }
                    pending.applyToken(s, t, sp, palette);
                    proof {
                        assert(s@.subrange(t as int, sp as int) =~= sub.take(
                            crate::util::spec_find_char(sub, ' ', 0),
                        ));
                        if sp < j {
                            assert(body.skip(sp + 1 - i - 2) =~= sub.skip(sp - t + 1));
                        }
                    }
                    if sp >= j {
                        break ;
                    }
                    t = sp + 1;
                }
                // step past the directive
                proof {
                    assert(rem.len() > 1 && rem[0] == '^' && rem[1] == '(');
                    if j < n {
                        assert(rem.skip(close + 1) =~= s@.skip(j + 1));
                    }
                }
                if j < n {
                    i = j + 1;
                } else {
                    i = n;
                    proof {
                        assert(s@.skip(n as int) =~= Seq::<char>::empty());
                    }
                }
            } else if c == '\n' {
                pending.newline = true;
                proof {
                    assert(rem.drop_first() =~= s@.skip(i + 1));
                }
                i += 1;
            } else {
                crate::util::push_char(&mut pending.text, c);
                proof {
                    assert(rem.drop_first() =~= s@.skip(i + 1));
                }
                i += 1;
            }
        }
        proof {
            assert(s@.skip(n as int) =~= Seq::<char>::empty());
        }
        if !pending.text.as_str().is_empty() {
            let ghost prev = self.text@;
            let ghost pend_before = pending@;
            self.text.push(pending.intoRun());
            proof {
                assert(spec_runs_of(self.text@) =~= spec_runs_of(prev).push(pend_before));
            }
        }
        self.reload = true;
    }

    /// Rebuilds the quads and bounding dimensions from the runs, the font
    /// and the drawn size, as [`spec_layout`] says, and clears the dirty
    /// flag.
    pub fn update(&mut self)
        ensures
            final(self).quads@ == spec_layout(
                spec_runs_of(old(self).text@),
                old(self).font@,
                old(self).fontSize as int,
            ).0,
            final(self).dimensions == spec_layout_dims(
                spec_runs_of(old(self).text@),
                old(self).font@,
                old(self).fontSize as int,
            ),
            final(self).reload == false,
            final(self).text == old(self).text,
            final(self).font == old(self).font,
            final(self).fontSize == old(self).fontSize,
            final(self).ts == old(self).ts,
    {
        self.quads = Vec::new();
        let mut pen = Pen { x: 0, y: 0, dimx: 0, dimy: 0 };
        let ghost target = spec_layout(
            spec_runs_of(self.text@),
            self.font@,
            self.fontSize as int,
        );
        proof {
            assert(self.quads@ =~= Seq::<Vertex>::empty());
            assert(spec_runs_of(self.text@).skip(0) =~= spec_runs_of(self.text@));
        }
        let mut i: usize = 0;
        while i < self.text.len()
            invariant
                i <= self.text.len(),
                spec_layout_runs(
                    spec_runs_of(self.text@).skip(i as int),
                    self.font@,
                    self.fontSize as int,
                    pen,
                    self.quads@,
                ) == target,
                self.text == old(self).text,
                self.font == old(self).font,
                self.fontSize == old(self).fontSize,
                self.dimensions == old(self).dimensions,
                self.ts == old(self).ts,
                self.reload == old(self).reload,
            decreases self.text.len() - i,
        {
            let ghost runs = spec_runs_of(self.text@);
            let ghost pen0 = pen;
            let ghost quads0 = self.quads@;
            let ghost chars_target = spec_layout_chars(
                runs[i as int].text,
                runs[i as int],
                self.font@,
                self.fontSize as int,
                pen,
                self.quads@,
            );
            proof {
                assert(runs[i as int] == self.text@[i as int]@);
                assert(runs[i as int].text.skip(0) =~= runs[i as int].text);
            }
            let tlen = self.text[i].text.as_str().unicode_len();
            let mut j: usize = 0;
            while j < tlen
                invariant
                    j <= tlen,
                    i < self.text.len(),
                    runs == spec_runs_of(self.text@),
                    runs[i as int] == self.text@[i as int]@,
                    tlen == runs[i as int].text.len(),
                    spec_layout_chars(
                        runs[i as int].text.skip(j as int),
                        runs[i as int],
                        self.font@,
                        self.fontSize as int,
                        pen,
                        self.quads@,
                    ) == chars_target,
                    self.text == old(self).text,
                    self.font == old(self).font,
                    self.fontSize == old(self).fontSize,
                    self.dimensions == old(self).dimensions,
                    self.ts == old(self).ts,
                    self.reload == old(self).reload,
                decreases tlen - j,
            {
                let ch = self.text[i].text.as_str().get_char(j);
                let r = layout_glyph(ch, &self.text[i], &self.font, self.fontSize, pen);
                let ghost prevq = self.quads@;
                self.quads.push(r.0);
                self.quads.push(r.1);
                self.quads.push(r.2);
                self.quads.push(r.3);
                pen = r.4;
                proof {
                    let tv = runs[i as int].text;
                    assert(tv.skip(j as int)[0] == tv[j as int]);
                    assert(tv.skip(j as int).drop_first() =~= tv.skip(j + 1));
                    assert(self.quads@ =~= prevq + seq![r.0, r.1, r.2, r.3]);
                }
                j += 1;
            }
            proof {
                assert(runs[i as int].text.skip(tlen as int) =~= Seq::<char>::empty());
            }
            if self.text[i].newline {
                pen = Pen { x: 0, y: crate::util::sat_add_i64(pen.y, self.font.height), ..pen };
            }
            proof {
                assert(runs.skip(i as int)[0] == runs[i as int]);
                assert(runs.skip(i as int).drop_first() =~= runs.skip(i + 1));
            }
            i += 1;
        }
        proof {
            assert(spec_runs_of(self.text@).skip(self.text@.len() as int) =~= Seq::<RunV>::empty());
        }
        self.dimensions = Vec2i { x: pen.dimx, y: pen.dimy };
        self.reload = false;
    }

    /// The laid-out bounding dimensions, rebuilding the layout first if it
    /// is dirty.
    pub fn getDimensions(&mut self) -> (r: Vec2i)
        ensures
            r == spec_dims_of(*old(self)),
            final(self).dimensions == r,
            final(self).quads@ == spec_quads_of(*old(self)),
            final(self).reload == false,
            final(self).text == old(self).text,
            final(self).font == old(self).font,
            final(self).fontSize == old(self).fontSize,
            final(self).ts == old(self).ts,
    {
        if self.reload {
            self.update();
        }
        self.dimensions
    }

    /// The bounding rectangle of the text taken through its transform,
    /// rebuilding the layout first if it is dirty.  With nothing laid out
    /// this is the zero-area rectangle at the transform's image of the
    /// origin.
    pub fn getBounds(&mut self) -> (r: Rect)
        ensures
            r == spec_bounds(old(self).ts, spec_dims_of(*old(self))),
            final(self).dimensions == spec_dims_of(*old(self)),
            final(self).quads@ == spec_quads_of(*old(self)),
            final(self).reload == false,
            final(self).text == old(self).text,
            final(self).font == old(self).font,
            final(self).fontSize == old(self).fontSize,
            final(self).ts == old(self).ts,
    {
        let dims = self.getDimensions();
        let p1 = self.ts.mapPoint(Vec2i { x: 0, y: 0 });
        let p2 = self.ts.mapPoint(Vec2i { x: dims.x, y: 0 });
        let p3 = self.ts.mapPoint(Vec2i { x: dims.x, y: dims.y });
        let p4 = self.ts.mapPoint(Vec2i { x: 0, y: dims.y });
        let minx = crate::util::min_i64(crate::util::min_i64(p1.x, p2.x), crate::util::min_i64(p3.x, p4.x));
        let miny = crate::util::min_i64(crate::util::min_i64(p1.y, p2.y), crate::util::min_i64(p3.y, p4.y));
        let maxx = crate::util::max_i64(crate::util::max_i64(p1.x, p2.x), crate::util::max_i64(p3.x, p4.x));
        let maxy = crate::util::max_i64(crate::util::max_i64(p1.y, p2.y), crate::util::max_i64(p3.y, p4.y));
        Rect {
            x: minx,
            y: miny,
            w: crate::util::sat_sub_i64(maxx, minx),
            h: crate::util::sat_sub_i64(maxy, miny),
        }
    }

    /// The plain text of all runs, markup and newlines stripped.
    pub fn getString(&self) -> (r: String)
        ensures
            r@ == spec_runs_text(spec_runs_of(self.text@)),
    {
        let mut out = String::new();
        let ghost runs = spec_runs_of(self.text@);
        let mut i: usize = 0;
        proof {
            assert(runs.take(0) =~= Seq::<RunV>::empty());
        }
        while i < self.text.len()
            invariant
                i <= self.text.len(),
                runs == spec_runs_of(self.text@),
                out@ == spec_runs_text(runs.take(i as int)),
            decreases self.text.len() - i,
        {
            out.append(self.text[i].text.as_str());
            proof {
                assert(runs.take(i + 1).drop_last() =~= runs.take(i as int));
                assert(runs.take(i + 1).last() == runs[i as int]);
            }
            i += 1;
        }
        proof {
            assert(runs.take(runs.len() as int) =~= runs);
        }
        out
    }
}

/// The concatenated text of a run sequence.
pub open spec fn spec_runs_text(runs: Seq<RunV>) -> Seq<char>
    decreases runs.len(),
{
    if runs.len() == 0 {
        Seq::empty()
    } else {
        spec_runs_text(runs.drop_last()) + runs.last().text
    }
}

/// A character sequence free of markup: no caret and no newline.
pub open spec fn spec_plain(s: Seq<char>) -> bool {
    forall|i: int| 0 <= i < s.len() ==> #[trigger] s[i] != '^' && s[i] != '\n'
}

/// Consuming a markup-free prefix appends it, character by character, to
/// the pending run and touches nothing else.
proof fn lemma_markup_plain_prefix(
    a: Seq<char>,
    rest: Seq<char>,
    pending: RunV,
    acc: Seq<RunV>,
    pal: Seq<crate::env::PaletteColor>,
)
    requires
        spec_plain(a),
    ensures
        spec_markup(a + rest, pending, acc, pal) == spec_markup(
            rest,
            RunV { text: pending.text + a, ..pending },
            acc,
            pal,
        ),
    decreases a.len(),
{
    if a.len() == 0 {
        assert(a + rest =~= rest);
        assert(pending.text + a =~= pending.text);
        assert(RunV { text: pending.text + a, ..pending } == pending);
    } else {
        let s = a + rest;
        assert(s[0] == a[0]);
        assert(a[0] != '^' && a[0] != '\n');
        assert(s.drop_first() =~= a.drop_first() + rest);
        assert(spec_plain(a.drop_first())) by {
            assert(forall|i: int|
                0 <= i < a.len() - 1 ==> a.drop_first()[i] == #[trigger] a[i + 1]);
        }
        lemma_markup_plain_prefix(
            a.drop_first(),
            rest,
            RunV { text: pending.text.push(a[0]), ..pending },
            acc,
            pal,
        );
        assert(pending.text.push(a[0]) + a.drop_first() =~= pending.text + a);
    }
}

/// Round trip: a string with no markup — no caret and no newline — parses
/// into runs whose concatenated text is exactly the original string.
pub proof fn lemma_plain_round_trip(s: Seq<char>, pal: Seq<crate::env::PaletteColor>)
    requires
        spec_plain(s),
    ensures
        spec_runs_text(spec_parse_markup(s, pal)) == s,
{
    lemma_markup_plain_prefix(s, Seq::empty(), default_run(), Seq::empty(), pal);
    assert(s + Seq::<char>::empty() =~= s);
    let p = RunV { text: default_run().text + s, ..default_run() };
    assert(p.text =~= s);
    if s.len() > 0 {
        let res = Seq::<RunV>::empty().push(p);
        assert(spec_parse_markup(s, pal) == res);
        assert(res.drop_last() =~= Seq::<RunV>::empty());
        assert(res.last() == p);
        assert(spec_runs_text(Seq::<RunV>::empty()) == Seq::<char>::empty());
        assert(spec_runs_text(res) == Seq::<char>::empty() + p.text);
        assert(Seq::<char>::empty() + p.text =~= s);
    } else {
        assert(spec_parse_markup(s, pal) == Seq::<RunV>::empty());
        assert(spec_runs_text(Seq::<RunV>::empty()) =~= s);
    }
}

/// A bold directive in the middle of a string scopes to the following run
/// alone: the text before it comes out as one default-styled run, untouched
/// by the directive, and the text after it as one bold run reaching to the
/// end of the string.
pub proof fn lemma_bold_directive_scopes(
    a: Seq<char>,
    b: Seq<char>,
    pal: Seq<crate::env::PaletteColor>,
)
    requires
        spec_plain(a),
        spec_plain(b),
        a.len() > 0,
        b.len() > 0,
    ensures
        ({
            let s = a + seq!['^', '(', '*', ')'] + b;
            let runs = spec_parse_markup(s, pal);
            &&& runs.len() == 2
            &&& runs[0] == (RunV { text: a, ..default_run() })
            &&& runs[1] == (RunV { text: b, bold: true, ..default_run() })
        }),
{
    let d = seq!['^', '(', '*', ')'];
    let s = a + d + b;
    lemma_markup_plain_prefix(a, d + b, default_run(), Seq::empty(), pal);
    assert(a + (d + b) =~= s);
    let pend1 = RunV { text: default_run().text + a, ..default_run() };
    assert(pend1.text =~= a);
    let rem = d + b;
    assert(rem[0] == '^' && rem[1] == '(' && rem[2] == '*' && rem[3] == ')');
    assert(rem.len() == 4 + b.len());
    let close = crate::util::spec_find_char(rem, ')', 2);
    assert(crate::util::spec_find_char(rem, ')', 3) == 3);
    assert(close == 3);
    let body = rem.subrange(2, 3);
    assert(body =~= seq!['*']);
    assert(body[0] == '*');
    assert(crate::util::spec_find_char(body, ' ', 0) == 1) by {
        assert(crate::util::spec_find_char(body, ' ', 1) == 1);
    }
    assert(body.take(1) =~= body);
    let bold = RunV { bold: true, ..default_run() };
    assert(spec_apply_token(body, default_run(), pal) == bold);
    assert(spec_apply_tokens(body, default_run(), pal) == bold);
    let acc2 = Seq::<RunV>::empty().push(pend1);
    assert(rem.skip(4) =~= b);
    assert(spec_markup(rem, pend1, Seq::empty(), pal) == spec_markup(b, bold, acc2, pal));
    lemma_markup_plain_prefix(b, Seq::empty(), bold, acc2, pal);
    assert(b + Seq::<char>::empty() =~= b);
    let pend2 = RunV { text: bold.text + b, ..bold };
    assert(pend2.text =~= b);
    assert(pend2 == (RunV { text: b, bold: true, ..default_run() }));
    let runs = acc2.push(pend2);
    assert(spec_markup(Seq::<char>::empty(), pend2, acc2, pal) == runs);
    assert(runs.len() == 2);
    assert(runs[0] == (RunV { text: pend1.text, ..default_run() }));
    assert(pend1 == (RunV { text: a, ..default_run() }));
}

/// The layout pen: its position and the running maximum extents, all in
/// milli-pixels.
#[derive(Clone, Copy, Debug, PartialEq, Eq, Structural)]
pub struct Pen {
    pub x: i64,
    pub y: i64,
    pub dimx: i64,
    pub dimy: i64,
}

/// `v * num / den` with truncating division, clamped to the `i64` range.
pub open spec fn spec_muldiv(v: int, num: int, den: int) -> int {
    if den <= 0 {
        0
    } else {
        let m = (if v >= 0 {
            v
        } else {
            -v
        }) * num / den;
        if v < 0 {
            crate::util::sat_i64(-m)
        } else {
            crate::util::sat_i64(m)
        }
    }
}

/// A font-space value scaled to the drawn size: `v * size / height` in
/// milli-pixels, zero for a degenerate font height.
pub open spec fn spec_scale_val(v: int, size: int, height: int) -> int {
    if height <= 0 {
        0
    } else {
        spec_muldiv(v, size * 1000, height)
    }
}

/// A texture coordinate in micro-units: `p / b` of the whole page, zero for
/// a degenerate page size.
pub open spec fn spec_uv(p: int, b: int) -> int {
    if b <= 0 {
        0
    } else {
        spec_muldiv(p, 1000000, b)
    }
}

/// The italic shear in milli-pixels, proportional to the line height.
pub open spec fn spec_italic_shear(height: int) -> int {
    spec_muldiv(height, 17365, 100000)
}

/// Shorthand for the saturating sum of two milli-pixel values.
pub open spec fn sadd(a: int, b: int) -> int {
    crate::util::sat_i64(a + b)
}

/// The quad of one glyph and the pen after it: the four corners carry the
/// run's colour and the glyph's texture rectangle; the pen advances by the
/// scaled advance; the extents grow to cover the quad's right edge and
/// bottom edge.
pub open spec fn spec_layout_glyph(c: char, run: RunV, f: FontV, size: int, st: Pen) -> (
    Seq<Vertex>,
    Pen,
) {
    let g = spec_glyph_of(f.glyphs, c as int);
    let it = if run.italic {
        spec_italic_shear(f.height)
    } else {
        0
    };
    let x0 = sadd(st.x as int, spec_scale_val(sadd(g.offset.x as int, it), size, f.height));
    let y0 = sadd(st.y as int, spec_scale_val(sadd(g.offset.y as int, -f.base), size, f.height));
    let x1 = sadd(
        st.x as int,
        spec_scale_val(sadd(sadd(g.offset.x as int, g.rect.w as int), it), size, f.height),
    );
    let inner = sadd(
        sadd(g.offset.y as int, -spec_scale_val(f.base, size, f.height)),
        g.rect.h as int,
    );
    let y2 = sadd(st.y as int, spec_scale_val(inner, size, f.height));
    let x2 = sadd(
        st.x as int,
        spec_scale_val(sadd(g.offset.x as int, g.rect.w as int), size, f.height),
    );
    let x3 = sadd(st.x as int, spec_scale_val(g.offset.x as int, size, f.height));
    let ul = spec_uv(g.rect.x as int, f.bitmapSize.x as int);
    let ur = spec_uv(sadd(g.rect.x as int, g.rect.w as int), f.bitmapSize.x as int);
    let vt = spec_uv(g.rect.y as int, f.bitmapSize.y as int);
    let vb = spec_uv(sadd(g.rect.y as int, g.rect.h as int), f.bitmapSize.y as int);
    let quad = seq![
        Vertex { x: x0 as i64, y: y0 as i64, u: ul as i64, v: vt as i64, color: run.color },
        Vertex { x: x1 as i64, y: y0 as i64, u: ur as i64, v: vt as i64, color: run.color },
        Vertex { x: x2 as i64, y: y2 as i64, u: ur as i64, v: vb as i64, color: run.color },
        Vertex { x: x3 as i64, y: y2 as i64, u: ul as i64, v: vb as i64, color: run.color },
    ];
    let pen = Pen {
        x: sadd(st.x as int, spec_scale_val(g.advance as int, size, f.height)) as i64,
        y: st.y,
        dimx: (if st.dimx as int >= x1 {
            st.dimx as int
        } else {
            x1
        }) as i64,
        dimy: (if st.dimy as int >= y2 {
            st.dimy as int
        } else {
            y2
        }) as i64,
    };
    (quad, pen)
}

/// A run's characters laid out left to right.
pub open spec fn spec_layout_chars(
    text: Seq<char>,
    run: RunV,
    f: FontV,
    size: int,
    st: Pen,
    quads: Seq<Vertex>,
) -> (Seq<Vertex>, Pen)
    decreases text.len(),
{
    if text.len() == 0 {
        (quads, st)
    } else {
        let r = spec_layout_glyph(text[0], run, f, size, st);
        spec_layout_chars(text.drop_first(), run, f, size, r.1, quads + r.0)
    }
}

/// Runs laid out in order; a run that ends its line returns the pen to the
/// left edge and moves it down one line height.
pub open spec fn spec_layout_runs(
    runs: Seq<RunV>,
    f: FontV,
    size: int,
    st: Pen,
    quads: Seq<Vertex>,
) -> (Seq<Vertex>, Pen)
    decreases runs.len(),
{
    if runs.len() == 0 {
        (quads, st)
    } else {
        let r = spec_layout_chars(runs[0].text, runs[0], f, size, st, quads);
        let st2 = if runs[0].newline {
            Pen { x: 0, y: sadd(r.1.y as int, f.height) as i64, ..r.1 }
        } else {
            r.1
        };
        spec_layout_runs(runs.drop_first(), f, size, st2, r.0)
    }
}

/// The whole layout of a run sequence, from a pen at the origin.
pub open spec fn spec_layout(runs: Seq<RunV>, f: FontV, size: int) -> (Seq<Vertex>, Pen) {
    spec_layout_runs(runs, f, size, Pen { x: 0, y: 0, dimx: 0, dimy: 0 }, Seq::empty())
}

/// The bounding dimensions a layout yields.
pub open spec fn spec_layout_dims(runs: Seq<RunV>, f: FontV, size: int) -> Vec2i {
    let p = spec_layout(runs, f, size).1;
    Vec2i { x: p.dimx, y: p.dimy }
}

/// The dimensions a bounds or dimensions query reports: the cache when the
/// layout is clean, the fresh layout's extents when it is dirty.
pub open spec fn spec_dims_of_v(t: TextV) -> Vec2i {
    if t.reload {
        spec_layout_dims(t.runs, t.font, t.fontSize)
    } else {
        t.dimensions
    }
}

/// The dimensions of a text value, as [`spec_dims_of_v`] says of its view.
pub open spec fn spec_dims_of(t: Text) -> Vec2i {
    spec_dims_of_v(t@)
}

/// The quads a query leaves cached.
pub open spec fn spec_quads_of_v(t: TextV) -> Seq<Vertex> {
    if t.reload {
        spec_layout(t.runs, t.font, t.fontSize).0
    } else {
        t.quads
    }
}

/// The quads of a text value, as [`spec_quads_of_v`] says of its view.
pub open spec fn spec_quads_of(t: Text) -> Seq<Vertex> {
    spec_quads_of_v(t@)
}

/// The text after a lazy rebuild: laid out and clean.
pub open spec fn spec_text_laid(t: TextV) -> TextV {
    TextV {
        quads: spec_quads_of_v(t),
        dimensions: spec_dims_of_v(t),
        reload: false,
        ..t
    }
}

/// The smaller of two mathematical integers.
pub open spec fn smin(a: int, b: int) -> int {
    if a <= b {
        a
    } else {
        b
    }
}

/// The larger of two mathematical integers.
pub open spec fn smax(a: int, b: int) -> int {
    if a >= b {
        a
    } else {
        b
    }
}

/// The axis-aligned rectangle spanned by the transform's images of the four
/// corners of a `dims`-sized box at the origin.  The transform's rotation is
/// not part of the mapping; the renderer applies it in the model matrix.
pub open spec fn spec_bounds(ts: crate::transform::Transform2D, dims: Vec2i) -> Rect {
    let p1 = crate::transform::spec_map_point(ts, Vec2i { x: 0, y: 0 });
    let p2 = crate::transform::spec_map_point(ts, Vec2i { x: dims.x, y: 0 });
    let p3 = crate::transform::spec_map_point(ts, Vec2i { x: dims.x, y: dims.y });
    let p4 = crate::transform::spec_map_point(ts, Vec2i { x: 0, y: dims.y });
    let minx = smin(smin(p1.x as int, p2.x as int), smin(p3.x as int, p4.x as int));
    let miny = smin(smin(p1.y as int, p2.y as int), smin(p3.y as int, p4.y as int));
    let maxx = smax(smax(p1.x as int, p2.x as int), smax(p3.x as int, p4.x as int));
    let maxy = smax(smax(p1.y as int, p2.y as int), smax(p3.y as int, p4.y as int));
    Rect {
        x: minx as i64,
        y: miny as i64,
        w: crate::util::sat_i64(maxx - minx) as i64,
        h: crate::util::sat_i64(maxy - miny) as i64,
    }
}

/// Empty text yields a zero-area bounding rectangle positioned exactly at
/// the transform's image of the origin: the empty string parses to no runs,
/// no runs lay out to zero extents, and the bounds of a zero-sized box
/// collapse to that one point.
pub proof fn lemma_empty_text_bounds(
    ts: crate::transform::Transform2D,
    pal: Seq<crate::env::PaletteColor>,
    f: FontV,
    size: int,
)
    ensures
        spec_parse_markup(Seq::empty(), pal) == Seq::<RunV>::empty(),
        spec_layout_dims(Seq::<RunV>::empty(), f, size) == (Vec2i { x: 0, y: 0 }),
        spec_bounds(ts, Vec2i { x: 0, y: 0 }) == (Rect {
            x: crate::transform::spec_map_point(ts, Vec2i { x: 0, y: 0 }).x,
            y: crate::transform::spec_map_point(ts, Vec2i { x: 0, y: 0 }).y,
            w: 0,
            h: 0,
        }),
{
    assert(spec_parse_markup(Seq::empty(), pal) =~= Seq::<RunV>::empty());
}

/// `v * num / den` with truncating division, clamped to the `i64` range.
fn muldiv(v: i64, num: u64, den: i64) -> (r: i64)
    requires
        num <= 2000000,
    ensures
        r as int == spec_muldiv(v as int, num as int, den as int),
{
    if den <= 0 {
        return 0;
    }
    let va: u128 = if v >= 0 {
        v as u128
    } else {
        (-(v as i128)) as u128
    };
    proof {
        assert(va * (num as u128) <= 0x8000000000000000u128 * 2000000u128) by (nonlinear_arith)
            requires
                va <= 0x8000000000000000u128,
                num <= 2000000u64,
        ;
    }
    let m: u128 = (va * (num as u128)) / (den as u128);
    if v < 0 {
        if m > 9223372036854775808u128 {
            i64::MIN
        } else {
            (-(m as i128)) as i64
        }
    } else {
        if m > i64::MAX as u128 {
            i64::MAX
        } else {
            m as i64
        }
    }
}

/// A font-space value scaled to the drawn size.
fn scale_val(v: i64, size: u8, height: i64) -> (r: i64)
    ensures
        r as int == spec_scale_val(v as int, size as int, height as int),
{
    if height <= 0 {
        0
    } else {
        muldiv(v, (size as u64) * 1000, height)
    }
}

/// A texture coordinate in micro-units.
fn uv_val(p: i64, b: i64) -> (r: i64)
    ensures
        r as int == spec_uv(p as int, b as int),
{
    if b <= 0 {
        0
    } else {
        muldiv(p, 1000000, b)
    }
}

/// Lays out one glyph: its quad and the pen after it.
#[verifier::rlimit(60)]
fn layout_glyph(c: char, run: &StyledText, f: &Font, size: u8, st: Pen) -> (r: (
    Vertex,
    Vertex,
    Vertex,
    Vertex,
    Pen,
))
    ensures
        ({
            let s = spec_layout_glyph(c, run@, f@, size as int, st);
            s.0 =~= seq![r.0, r.1, r.2, r.3] && s.1 == r.4
        }),
{
    let g = f.getGlyph(c);
    let it: i64 = if run.italic {
        muldiv(f.height, 17365, 100000)
    } else {
        0
    };
    let x0 = crate::util::sat_add_i64(st.x, scale_val(crate::util::sat_add_i64(g.offset.x, it), size, f.height));
    let y0 = crate::util::sat_add_i64(
        st.y,
        scale_val(crate::util::sat_sub_i64(g.offset.y, f.base), size, f.height),
    );
    let x1 = crate::util::sat_add_i64(
        st.x,
        scale_val(
            crate::util::sat_add_i64(crate::util::sat_add_i64(g.offset.x, g.rect.w), it),
            size,
            f.height,
        ),
    );
    let inner = crate::util::sat_add_i64(
        crate::util::sat_sub_i64(g.offset.y, scale_val(f.base, size, f.height)),
        g.rect.h,
    );
    let y2 = crate::util::sat_add_i64(st.y, scale_val(inner, size, f.height));
    let x2 = crate::util::sat_add_i64(
        st.x,
        scale_val(crate::util::sat_add_i64(g.offset.x, g.rect.w), size, f.height),
    );
    let x3 = crate::util::sat_add_i64(st.x, scale_val(g.offset.x, size, f.height));
    let ul = uv_val(g.rect.x, f.bitmapSize.x);
    let ur = uv_val(crate::util::sat_add_i64(g.rect.x, g.rect.w), f.bitmapSize.x);
    let vt = uv_val(g.rect.y, f.bitmapSize.y);
    let vb = uv_val(crate::util::sat_add_i64(g.rect.y, g.rect.h), f.bitmapSize.y);
    let pen = Pen {
        x: crate::util::sat_add_i64(st.x, scale_val(g.advance, size, f.height)),
        y: st.y,
        dimx: crate::util::max_i64(st.dimx, x1),
        dimy: crate::util::max_i64(st.dimy, y2),
    };
    (
        Vertex { x: x0, y: y0, u: ul, v: vt, color: run.color },
        Vertex { x: x1, y: y0, u: ur, v: vt, color: run.color },
        Vertex { x: x2, y: y2, u: ur, v: vb, color: run.color },
        Vertex { x: x3, y: y2, u: ul, v: vb, color: run.color },
        pen,
    )
}

} // verus!
