use vstd::prelude::*;
use crate::anim::{animator_inv, spec_animator_empty, spec_animator_load, Animator, AnimatorV};
use crate::desc::{spec_att, DataValue, Element};
use crate::env::{spec_varv_set, Palette, PaletteColor, Programmable, Variable, VariableV};
use crate::geom::{Color, Rect, Vec2i};
use crate::text::{
    spec_bounds, spec_dims_of, spec_font_empty, spec_font_fold, spec_dir_of, spec_parse_markup,
    spec_text_new, RunV, Text, TextV,
};
use crate::transform::Transform2D;

verus! {

/// The resource files a scene declaration refers to, read off disk and
/// decoded before parsing begins: animator descriptors by path and
/// font descriptor documents by path.
#[derive(Debug)]
pub struct Assets {
    pub jsons: Vec<(String, DataValue)>,
    pub xmls: Vec<(String, Element)>,
}

/// The first descriptor registered under a path, if any.
pub open spec fn spec_json_of(jsons: Seq<(String, DataValue)>, path: Seq<char>) -> Option<
    DataValue,
>
    decreases jsons.len(),
{
    if jsons.len() == 0 {
        None
    } else if jsons[0].0@ == path {
        Some(jsons[0].1)
    } else {
        spec_json_of(jsons.drop_first(), path)
    }
}

/// The first document registered under a path, if any.
pub open spec fn spec_xml_of(xmls: Seq<(String, Element)>, path: Seq<char>) -> Option<Element>
    decreases xmls.len(),
{
    if xmls.len() == 0 {
        None
    } else if xmls[0].0@ == path {
        Some(xmls[0].1)
    } else {
        spec_xml_of(xmls.drop_first(), path)
    }
}

impl Assets {
    /// An empty set: every path is missing and everything degrades safely.
    pub fn new() -> (r: Assets)
        ensures
            r.jsons@ == Seq::<(String, DataValue)>::empty(),
            r.xmls@ == Seq::<(String, Element)>::empty(),
    {
        Assets { jsons: Vec::new(), xmls: Vec::new() }
    }

    /// The decoded descriptor registered under `path`.
    pub fn getJSON(&self, path: &str) -> (r: Option<&DataValue>)
        ensures
            match r {
                Some(j) => spec_json_of(self.jsons@, path@) == Some(*j),
                None => spec_json_of(self.jsons@, path@) is None,
            },
    {
        let mut i: usize = 0;
        proof {
            assert(self.jsons@.skip(0) =~= self.jsons@);
        }
        while i < self.jsons.len()
            invariant
                i <= self.jsons.len(),
                spec_json_of(self.jsons@, path@) == spec_json_of(
                    self.jsons@.skip(i as int),
                    path@,
                ),
            decreases self.jsons.len() - i,
        {
            proof {
                assert(self.jsons@.skip(i as int).drop_first() =~= self.jsons@.skip(i + 1));
            }
            if crate::util::str_eq(self.jsons[i].0.as_str(), path) {
                return Some(&self.jsons[i].1);
            }
            i += 1;
        }
        None
    }

    /// The decoded document registered under `path`.
    pub fn getXML(&self, path: &str) -> (r: Option<&Element>)
        ensures
            match r {
                Some(d) => spec_xml_of(self.xmls@, path@) == Some(*d),
                None => spec_xml_of(self.xmls@, path@) is None,
            },
    {
        let mut i: usize = 0;
        proof {
            assert(self.xmls@.skip(0) =~= self.xmls@);
        }
        while i < self.xmls.len()
            invariant
                i <= self.xmls.len(),
                spec_xml_of(self.xmls@, path@) == spec_xml_of(self.xmls@.skip(i as int), path@),
            decreases self.xmls.len() - i,
        {
            proof {
                assert(self.xmls@.skip(i as int).drop_first() =~= self.xmls@.skip(i + 1));
            }
            if crate::util::str_eq(self.xmls[i].0.as_str(), path) {
                return Some(&self.xmls[i].1);
            }
            i += 1;
        }
        None
    }
}

/// A sprite in the scene: its animator, its local transform and its tint.
#[derive(Debug)]
pub struct Image {
    pub animation: Animator,
    pub ts: Transform2D,
    pub color: Color,
}

/// The mathematical state of an [`Image`].
pub ghost struct ImageV {
    pub animation: AnimatorV,
    pub ts: Transform2D,
    pub color: Color,
}

impl View for Image {
    type V = ImageV;

    open spec fn view(&self) -> ImageV {
        ImageV { animation: self.animation@, ts: self.ts, color: self.color }
    }
}

/// The state of a fresh [`Image`].
pub open spec fn spec_image_new() -> ImageV {
    ImageV {
        animation: spec_animator_empty(),
        ts: Transform2D {
            position: Vec2i { x: 0, y: 0 },
            rotation: 0,
            scale: Vec2i { x: 1000, y: 1000 },
            origin: Vec2i { x: 0, y: 0 },
        },
        color: Color { r: 255, g: 255, b: 255, a: 255 },
    }
}

/// An attribute's value, or a default.
pub open spec fn spec_att_or(el: Element, name: Seq<char>, def: Seq<char>) -> Seq<char> {
    match spec_att(el.attrs@, name) {
        Some(s) => s,
        None => def,
    }
}

/// The image an `image` element describes: a fresh image whose animator is
/// loaded from the descriptor its `anim` attribute names.  An element of
/// another name, or a missing descriptor, leaves the image inert.
pub open spec fn spec_parse_image(el: Element, jsons: Seq<(String, DataValue)>) -> ImageV {
    if el.name@ != "image"@ {
        spec_image_new()
    } else {
        match spec_json_of(jsons, spec_att_or(el, "anim"@, Seq::empty())) {
            Some(j) => ImageV {
                animation: spec_animator_load(spec_animator_empty(), j),
                ..spec_image_new()
            },
            None => spec_image_new(),
        }
    }
}

impl Image {
    /// An inert image: empty animator, identity transform, white tint.
    pub fn new() -> (r: Image)
        ensures
            r@ == spec_image_new(),
            animator_inv(r@.animation),
    {
        Image { animation: Animator::new(), ts: Transform2D::new(), color: Color::white() }
    }

    /// Builds an image from its scene element, loading the animator
    /// descriptor named by the `anim` attribute from the asset set.
    pub fn parse(node: &Element, assets: &Assets) -> (r: Image)
        ensures
            r@ == spec_parse_image(*node, assets.jsons@),
            animator_inv(r@.animation),
    {
        let mut img = Image::new();
        proof {
            reveal_strlit("image");
            reveal_strlit("");
        }
        if !crate::util::str_eq(node.name.as_str(), "image") {
            return img;
        }
        let path = node.att_or("anim", "");
        proof {
            assert(""@ =~= Seq::<char>::empty());
        }
        match assets.getJSON(path.as_str()) {
            Some(j) => {
                img.animation.load(j);
            },
            None => {
            },
        }
        img
    }

    /// The bounding rectangle of one atlas cell taken through the
    /// transform.
    pub fn getBounds(&self) -> (r: Rect)
        requires
            animator_inv(self@.animation),
        ensures
            r == spec_bounds(
                self.ts,
                Vec2i {
                    x: (self@.animation.frame.x * 1000) as i64,
                    y: (self@.animation.frame.y * 1000) as i64,
                },
            ),
    {
        let size = self.animation.getFrameSize();
        let dims = Vec2i { x: size.x * 1000, y: size.y * 1000 };
        let p1 = self.ts.mapPoint(Vec2i { x: 0, y: 0 });
        let p2 = self.ts.mapPoint(Vec2i { x: dims.x, y: 0 });
        let p3 = self.ts.mapPoint(Vec2i { x: dims.x, y: dims.y });
        let p4 = self.ts.mapPoint(Vec2i { x: 0, y: dims.y });
        let minx = crate::util::min_i64(crate::util::min_i64(p1.x, p2.x), crate::util::min_i64(p3.x, p4.x));
        let miny = crate::util::min_i64(crate::util::min_i64(p1.y, p2.y), crate::util::min_i64(p3.y, p4.y));
        let maxx = crate::util::max_i64(crate::util::max_i64(p1.x, p2.x), crate::util::max_i64(p3.x, p4.x));
        let maxy = crate::util::max_i64(crate::util::max_i64(p1.y, p2.y), crate::util::max_i64(p3.y, p4.y));
        Rect {
            x: minx,
            y: miny,
            w: crate::util::sat_sub_i64(maxx, minx),
            h: crate::util::sat_sub_i64(maxy, miny),
        }
    }
}

/// One scene element: its name, its sprite and text, its children in
/// declaration order, its declared draw order, its script hook with the
/// once-only initialisation flag, and its variable store.
#[derive(Debug)]
pub struct Object {
    pub name: String,
    pub image: Image,
    pub text: Text,
    pub children: Vec<Object>,
    pub script: Option<String>,
    pub init: bool,
    pub order: [char; 3],
    pub vars: Programmable,
}

/// The mathematical state of an [`Object`].
pub ghost struct ObjectV {
    pub name: Seq<char>,
    pub image: ImageV,
    pub text: TextV,
    pub children: Seq<ObjectV>,
    pub script: Option<Seq<char>>,
    pub init: bool,
    pub order: Seq<char>,
    pub vars: Seq<(Seq<char>, VariableV)>,
}

/// The view of one node.
pub open spec fn obj_view(o: Object) -> ObjectV
    decreases o, 1int,
{
    ObjectV {
        name: o.name@,
        image: o.image@,
        text: o.text@,
        children: objs_view(o.children@),
        script: match o.script {
            Some(s) => Some(s@),
            None => None,
        },
        init: o.init,
        order: o.order@,
        vars: o.vars@,
    }
}

/// The views of a node sequence, in order.
pub open spec fn objs_view(s: Seq<Object>) -> Seq<ObjectV>
    decreases s, 0int,
{
    if s.len() == 0 {
        Seq::empty()
    } else {
        seq![obj_view(s[0])] + objs_view(s.drop_first())
    }
}

impl View for Object {
    type V = ObjectV;

    open spec fn view(&self) -> ObjectV {
        obj_view(*self)
    }
}

/// Indexing into a sequence view: the view of element `i`.
pub proof fn lemma_objs_view_index(s: Seq<Object>, i: int)
    requires
        0 <= i < s.len(),
    ensures
        objs_view(s).len() == s.len(),
        objs_view(s)[i] == obj_view(s[i]),
    decreases s.len(),
{
    if i > 0 {
        lemma_objs_view_index(s.drop_first(), i - 1);
    } else {
        lemma_objs_view_len(s.drop_first());
    }
}

/// A sequence view keeps the length.
pub proof fn lemma_objs_view_len(s: Seq<Object>)
    ensures
        objs_view(s).len() == s.len(),
    decreases s.len(),
{
    if s.len() > 0 {
        lemma_objs_view_len(s.drop_first());
    }
}

/// The state of a fresh [`Object`]: no name, inert image and text, no
/// children, no script, the default `itc` draw order, no variables.
pub open spec fn spec_object_new() -> ObjectV {
    ObjectV {
        name: Seq::empty(),
        image: spec_image_new(),
        text: spec_text_new(),
        children: Seq::empty(),
        script: None,
        init: false,
        order: seq!['i', 't', 'c'],
        vars: Seq::empty(),
    }
}

/// The draw order an order string yields: its first three characters, with
/// `i`, `t`, `c` filling in for the missing ones.
pub open spec fn spec_order_of(o: Seq<char>) -> Seq<char> {
    seq![
        if o.len() > 0 {
            o[0]
        } else {
            'i'
        },
        if o.len() > 1 {
            o[1]
        } else {
            't'
        },
        if o.len() > 2 {
            o[2]
        } else {
            'c'
        },
    ]
}

/// Folds one child element into the node being parsed: `image` replaces the
/// sprite, `text` loads the font named by the `font` attribute, sets the
/// size and parses the element's body as markup, `object` appends a child
/// node, `var` binds a variable; anything else is skipped.
pub open spec fn spec_object_child(
    c: Element,
    acc: ObjectV,
    jsons: Seq<(String, DataValue)>,
    xmls: Seq<(String, Element)>,
    pal: Seq<PaletteColor>,
) -> ObjectV
    decreases c, 3int, 1int,
{
    if c.name@ == "image"@ {
        ObjectV { image: spec_parse_image(c, jsons), ..acc }
    } else if c.name@ == "text"@ {
        let font_path = spec_att_or(c, "font"@, Seq::empty());
        let font = match spec_xml_of(xmls, font_path) {
            Some(d) => spec_font_fold(d.children@, spec_dir_of(font_path), spec_font_empty()),
            None => spec_font_empty(),
        };
        let size = crate::text::spec_att_scalar(c, "size"@, 255) / 1000;
        ObjectV {
            text: TextV {
                font,
                fontSize: size,
                runs: spec_parse_markup(c.text@, pal),
                reload: true,
                ..acc.text
            },
            ..acc
        }
    } else if c.name@ == "object"@ {
        ObjectV { children: acc.children.push(spec_parse_object(c, jsons, xmls, pal)), ..acc }
    } else if c.name@ == "var"@ {
        let v = VariableV {
            num: match spec_att(c.attrs@, "num"@) {
                Some(s) => match crate::util::spec_parse_milli(s) {
                    Some(n) => n,
                    None => 0,
                },
                None => 0,
            },
            string: spec_att_or(c, "str"@, Seq::empty()),
        };
        ObjectV { vars: spec_varv_set(acc.vars, spec_att_or(c, "name"@, Seq::empty()), v), ..acc }
    } else {
        acc
    }
}

/// The children of `el` from position `i` on, folded in declaration order.
pub open spec fn spec_object_fold(
    el: Element,
    i: int,
    acc: ObjectV,
    jsons: Seq<(String, DataValue)>,
    xmls: Seq<(String, Element)>,
    pal: Seq<PaletteColor>,
) -> ObjectV
    decreases el, 2int, el.children@.len() - i,
{
    if i < 0 || i >= el.children@.len() {
        acc
    } else {
        spec_object_fold(
            el,
            i + 1,
            spec_object_child(el.children@[i], acc, jsons, xmls, pal),
            jsons,
            xmls,
            pal,
        )
    }
}

/// The node an `object` element describes: name, script hook and draw order
/// from its attributes, then its child elements folded in order.  An
/// element of another name yields a fresh node.
pub open spec fn spec_parse_object(
    el: Element,
    jsons: Seq<(String, DataValue)>,
    xmls: Seq<(String, Element)>,
    pal: Seq<PaletteColor>,
) -> ObjectV
    decreases el, 3int, 0int,
{
    if el.name@ != "object"@ {
        spec_object_new()
    } else {
        let script = spec_att_or(el, "script"@, Seq::empty());
        let start = ObjectV {
            name: spec_att_or(el, "name"@, Seq::empty()),
            script: if script.len() > 0 {
                Some(script)
            } else {
                None
            },
            order: spec_order_of(spec_att_or(el, "order"@, "itc"@)),
            ..spec_object_new()
        };
        spec_object_fold(el, 0, start, jsons, xmls, pal)
    }
}

/// Structural well-formedness of a node: its animator is well formed, its
/// draw order has exactly three slots, and the same holds of every child.
pub open spec fn obj_inv(o: ObjectV) -> bool
    decreases o, 1int,
{
    &&& animator_inv(o.image.animation)
    &&& o.order.len() == 3
    &&& objs_inv(o.children)
}

/// Well-formedness of every node of a sequence.
pub open spec fn objs_inv(s: Seq<ObjectV>) -> bool
    decreases s, 0int,
{
    if s.len() == 0 {
        true
    } else {
        obj_inv(s[0]) && objs_inv(s.drop_first())
    }
}

/// Appending to a node sequence appends its view.
pub proof fn lemma_objs_view_push(s: Seq<Object>, x: Object)
    ensures
        objs_view(s.push(x)) == objs_view(s).push(obj_view(x)),
    decreases s.len(),
{
    if s.len() == 0 {
        assert(s.push(x)[0] == x);
        assert(s.push(x).drop_first() =~= Seq::<Object>::empty());
        assert(objs_view(Seq::<Object>::empty()) == Seq::<ObjectV>::empty());
        assert(objs_view(s.push(x)) == seq![obj_view(x)] + Seq::<ObjectV>::empty());
        assert(seq![obj_view(x)] + Seq::<ObjectV>::empty() =~= Seq::<ObjectV>::empty().push(
            obj_view(x),
        ));
        assert(objs_view(s) == Seq::<ObjectV>::empty());
    } else {
        assert(s.push(x)[0] == s[0]);
        assert(s.push(x).drop_first() =~= s.drop_first().push(x));
        lemma_objs_view_push(s.drop_first(), x);
        assert(objs_view(s.push(x)) == seq![obj_view(s[0])] + objs_view(
            s.drop_first().push(x),
        ));
        assert(objs_view(s) == seq![obj_view(s[0])] + objs_view(s.drop_first()));
        assert((seq![obj_view(s[0])] + objs_view(s.drop_first())).push(obj_view(x)) =~= seq![
            obj_view(s[0]),
        ] + objs_view(s.drop_first()).push(obj_view(x)));
    }
}

/// Appending a well-formed node keeps a sequence well formed.
pub proof fn lemma_objs_inv_push(s: Seq<ObjectV>, x: ObjectV)
    requires
        objs_inv(s),
        obj_inv(x),
    ensures
        objs_inv(s.push(x)),
    decreases s.len(),
{
    if s.len() == 0 {
        assert(s.push(x)[0] == x);
        assert(s.push(x).drop_first() =~= Seq::<ObjectV>::empty());
        assert(objs_inv(Seq::<ObjectV>::empty()));
    } else {
        assert(s.push(x)[0] == s[0]);
        assert(s.push(x).drop_first() =~= s.drop_first().push(x));
        lemma_objs_inv_push(s.drop_first(), x);
    }
}

/// Every well-formed sequence member is a well-formed node.
pub proof fn lemma_objs_inv_index(s: Seq<ObjectV>, i: int)
    requires
        objs_inv(s),
        0 <= i < s.len(),
    ensures
        obj_inv(s[i]),
    decreases s.len(),
{
    if i > 0 {
        lemma_objs_inv_index(s.drop_first(), i - 1);
    }
}

impl Object {
    /// A fresh, empty node.
    pub fn new() -> (r: Object)
        ensures
            r@ == spec_object_new(),
            obj_inv(r@),
    {
        let r = Object {
            name: String::new(),
            image: Image::new(),
            text: Text::new(),
            children: Vec::new(),
            script: None,
            init: false,
            order: ['i', 't', 'c'],
            vars: Programmable::new(),
        };
        proof {
            assert(objs_view(r.children@) =~= Seq::<ObjectV>::empty());
            assert(r.order@ =~= seq!['i', 't', 'c']);
            assert(r.text@.runs =~= Seq::<RunV>::empty());
            assert(r.text@.quads =~= Seq::<crate::text::Vertex>::empty());
            assert(r.vars@ =~= Seq::<(Seq<char>, VariableV)>::empty());
        }
        r
    }

    /// Builds a node tree from one declarative `object` element: name,
    /// script hook and draw order from its attributes, then its `image`,
    /// `text`, nested `object` and `var` children folded in declaration
    /// order.  Any other element yields a fresh empty node.
    pub fn parse(base: &Element, assets: &Assets, palette: &Palette) -> (r: Object)
        ensures
            r@ == spec_parse_object(*base, assets.jsons@, assets.xmls@, palette.colors@),
            obj_inv(r@),
        decreases *base,
    {
        let ghost target = spec_parse_object(
            *base,
            assets.jsons@,
            assets.xmls@,
            palette.colors@,
        );
        let mut obj = Object::new();
        proof {
            reveal_strlit("object");
            reveal_strlit("");
            reveal_strlit("itc");
        }
        if !crate::util::str_eq(base.name.as_str(), "object") {
            return obj;
        }
        obj.name = base.att_or("name", "");
        let script = base.att_or("script", "");
        if !script.as_str().is_empty() {
            obj.script = Some(script);
        }
        let order = base.att_or("order", "itc");
        let ol = order.as_str().unicode_len();
        let o0 = if ol > 0 {
            order.as_str().get_char(0)
        } else {
            'i'
        };
        let o1 = if ol > 1 {
            order.as_str().get_char(1)
        } else {
            't'
        };
        let o2 = if ol > 2 {
            order.as_str().get_char(2)
        } else {
            'c'
        };
        obj.order = [o0, o1, o2];
        proof {
            assert(""@ =~= Seq::<char>::empty());
            assert(obj.order@ =~= spec_order_of(spec_att_or(*base, "order"@, "itc"@)));
            assert(objs_view(obj.children@) =~= Seq::<ObjectV>::empty());
        }
        let mut i: usize = 0;
        while i < base.children.len()
            invariant
                i <= base.children.len(),
                target == spec_parse_object(
                    *base,
                    assets.jsons@,
                    assets.xmls@,
                    palette.colors@,
                ),
                spec_object_fold(
                    *base,
                    i as int,
                    obj@,
                    assets.jsons@,
                    assets.xmls@,
                    palette.colors@,
                ) == target,
                obj_inv(obj@),
            decreases base.children.len() - i,
        {
            let ghost acc0 = obj@;
            proof {
                reveal_strlit("image");
                reveal_strlit("text");
                reveal_strlit("object");
                reveal_strlit("var");
                reveal_strlit("");
            }
            if crate::util::str_eq(base.children[i].name.as_str(), "image") {
                obj.image = Image::parse(&base.children[i], assets);
            } else if crate::util::str_eq(base.children[i].name.as_str(), "text") {
                let font_path = base.children[i].att_or("font", "");
                proof {
                    assert(""@ =~= Seq::<char>::empty());
                }
                match assets.getXML(font_path.as_str()) {
                    Some(d) => {
                        obj.text.loadFont(d, font_path.as_str());
                    },
                    None => {
                        let empty = Element::empty();
                        obj.text.loadFont(&empty, font_path.as_str());
                        proof {
                            assert(spec_font_fold(
                                empty.children@,
                                spec_dir_of(font_path@),
                                spec_font_empty(),
                            ) == spec_font_empty());
                        }
                    },
                }
                let sz = crate::text::Font::attScalar(&base.children[i], "size", 255) / 1000;
                obj.text.setSize(sz as u8);
                obj.text.setString(base.children[i].text.as_str(), palette);
            } else if crate::util::str_eq(base.children[i].name.as_str(), "object") {
                let child = Object::parse(&base.children[i], assets, palette);
                let ghost prev = obj.children@;
                let ghost childv = child@;
                obj.children.push(child);
                proof {
                    lemma_objs_view_push(prev, obj.children@[prev.len() as int]);
                    assert(objs_view(obj.children@) == objs_view(prev).push(childv));
                    lemma_objs_inv_push(objs_view(prev), childv);
                }
            } else if crate::util::str_eq(base.children[i].name.as_str(), "var") {
                let vname = base.children[i].att_or("name", "");
                let num = crate::text::Font::attMilli(&base.children[i], "num");
                let string = base.children[i].att_or("str", "");
                proof {
                    assert(""@ =~= Seq::<char>::empty());
                }
                obj.vars.set(vname.as_str(), Variable { num, string });
            }
            proof {
                assert(obj@ == spec_object_child(
                    base.children@[i as int],
                    acc0,
                    assets.jsons@,
                    assets.xmls@,
                    palette.colors@,
                ));
            }
            i += 1;
        }
        obj
    }
}


} // verus!
