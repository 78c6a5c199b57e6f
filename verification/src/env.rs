use vstd::prelude::*;
use crate::desc::{spec_int, DataValue};
use crate::geom::{Color, Vec2i};

verus! {

/// What happened to a key or button in the event just polled.
#[derive(Clone, Copy, Debug, PartialEq, Eq, Structural)]
pub enum KeyAction {
    Pressed,
    Released,
    PressedRepeat,
    ReleasedRepeat,
}

/// The key event of the current frame: the key's scancode name and what
/// happened to it.
#[derive(Clone, Debug)]
pub struct KeyEvent {
    pub key: String,
    pub action: KeyAction,
}

/// The mouse event of the current frame.
#[derive(Clone, Debug)]
pub struct MouseEvent {
    pub btn: String,
    pub clicks: u8,
}

/// A named colour of the engine palette.
#[derive(Clone, Debug)]
pub struct PaletteColor {
    pub name: String,
    pub value: Color,
}

/// The named palette that markup colour directives resolve against.
#[derive(Debug)]
pub struct Palette {
    pub colors: Vec<PaletteColor>,
}

/// The colour a name resolves to: the first palette entry with that name,
/// or transparent black for an unknown name.
pub open spec fn spec_color_of(colors: Seq<PaletteColor>, name: Seq<char>) -> Color
    decreases colors.len(),
{
    if colors.len() == 0 {
        Color { r: 0, g: 0, b: 0, a: 0 }
    } else if colors[0].name@ == name {
        colors[0].value
    } else {
        spec_color_of(colors.drop_first(), name)
    }
}

/// Folds one colour object: `r`, `g`, `b`, `a` channels, each clamped to a
/// byte, starting from opaque black.
pub open spec fn spec_color_fold(entries: Seq<(String, DataValue)>, c: Color) -> Color
    decreases entries.len(),
{
    if entries.len() == 0 {
        c
    } else {
        let e = entries[0];
        let c1 = if e.0@ == "r"@ {
            Color { r: crate::anim::clamp_u8(spec_int(e.1)) as u8, ..c }
        } else if e.0@ == "g"@ {
            Color { g: crate::anim::clamp_u8(spec_int(e.1)) as u8, ..c }
        } else if e.0@ == "b"@ {
            Color { b: crate::anim::clamp_u8(spec_int(e.1)) as u8, ..c }
        } else if e.0@ == "a"@ {
            Color { a: crate::anim::clamp_u8(spec_int(e.1)) as u8, ..c }
        } else {
            c
        };
        spec_color_fold(entries.drop_first(), c1)
    }
}

/// The colour a palette descriptor entry describes.  An absent alpha stays
/// opaque.
pub open spec fn spec_parse_color(v: DataValue) -> Color {
    match v {
        DataValue::Obj(e) => spec_color_fold(e@, Color { r: 0, g: 0, b: 0, a: 255 }),
        _ => Color { r: 0, g: 0, b: 0, a: 255 },
    }
}

/// The palette entries a descriptor object describes, in order.
pub open spec fn spec_parse_palette(v: DataValue) -> Seq<(Seq<char>, Color)> {
    match v {
        DataValue::Obj(e) => e@.map_values(|p: (String, DataValue)| (p.0@, spec_parse_color(p.1))),
        _ => Seq::empty(),
    }
}

impl Palette {
    /// An empty palette: every name resolves to transparent black.
    pub fn new() -> (r: Palette)
        ensures
            r.colors@ == Seq::<PaletteColor>::empty(),
    {
        Palette { colors: Vec::new() }
    }

    /// Reads named colours from a palette descriptor and appends them in
    /// order.
    pub fn loadColors(&mut self, src: &DataValue)
        ensures
            final(self).colors@.map_values(|p: PaletteColor| (p.name@, p.value)) =~= old(
                self,
            ).colors@.map_values(|p: PaletteColor| (p.name@, p.value)) + spec_parse_palette(*src),
    {
        match src {
            DataValue::Obj(entries) => {
                let ghost start = self.colors@.map_values(|p: PaletteColor| (p.name@, p.value));
                let mut i: usize = 0;
                while i < entries.len()
                    invariant
                        i <= entries.len(),
                        self.colors@.map_values(|p: PaletteColor| (p.name@, p.value)) =~= start
                            + entries@.take(i as int).map_values(
                            |p: (String, DataValue)| (p.0@, spec_parse_color(p.1)),
                        ),
                    decreases entries.len() - i,
                {
                    let name = entries[i].0.clone();
                    let value = Self::parseColor(&entries[i].1);
                    let ghost prev = self.colors@;
                    self.colors.push(PaletteColor { name, value });
                    proof {
                        let f = |p: PaletteColor| (p.name@, p.value);
                        assert(self.colors@.map_values(f) =~= prev.map_values(f).push(
                            (entries@[i as int].0@, spec_parse_color(entries@[i as int].1)),
                        ));
                        assert(entries@.take(i + 1).map_values(
                            |p: (String, DataValue)| (p.0@, spec_parse_color(p.1)),
                        ) =~= entries@.take(i as int).map_values(
                            |p: (String, DataValue)| (p.0@, spec_parse_color(p.1)),
                        ).push((entries@[i as int].0@, spec_parse_color(entries@[i as int].1))));
                    }
                    i += 1;
                }
                proof {
                    assert(entries@.take(entries@.len() as int) =~= entries@);
                }
            },
            _ => {
            },
        }
    }

    /// Reads one colour object.
    fn parseColor(v: &DataValue) -> (r: Color)
        ensures
            r == spec_parse_color(*v),
    {
        let mut c = Color { r: 0, g: 0, b: 0, a: 255 };
        match v {
            DataValue::Obj(entries) => {
                let ghost all = entries@;
                proof {
                    assert(all.skip(0) =~= all);
                }
                let mut i: usize = 0;
                while i < entries.len()
                    invariant
                        i <= entries.len(),
                        all == entries@,
                        spec_color_fold(all.skip(i as int), c) == spec_parse_color(*v),
                    decreases entries.len() - i,
                {
                    proof {
                        reveal_strlit("r");
                        reveal_strlit("g");
                        reveal_strlit("b");
                        reveal_strlit("a");
                        assert(all.skip(i as int).drop_first() =~= all.skip(i + 1));
                    }
                    let n = entries[i].1.as_int();
                    let byte: u8 = if 0 <= n && n <= 255 {
                        n as u8
                    } else {
                        0
                    };
                    if crate::util::str_eq(entries[i].0.as_str(), "r") {
                        c.r = byte;
                    } else if crate::util::str_eq(entries[i].0.as_str(), "g") {
                        c.g = byte;
                    } else if crate::util::str_eq(entries[i].0.as_str(), "b") {
                        c.b = byte;
                    } else if crate::util::str_eq(entries[i].0.as_str(), "a") {
                        c.a = byte;
                    }
                    i += 1;
                }
                c
            },
            _ => c,
        }
    }

    /// The colour registered under `name`, or transparent black.
    pub fn getColor(&self, name: &str) -> (r: Color)
        ensures
            r == spec_color_of(self.colors@, name@),
    {
        let mut i: usize = 0;
        proof {
            assert(self.colors@.skip(0) =~= self.colors@);
        }
        while i < self.colors.len()
            invariant
                i <= self.colors.len(),
                spec_color_of(self.colors@, name@) == spec_color_of(
                    self.colors@.skip(i as int),
                    name@,
                ),
            decreases self.colors.len() - i,
        {
            proof {
                assert(self.colors@.skip(i as int).drop_first() =~= self.colors@.skip(i + 1));
            }
            if crate::util::str_eq(self.colors[i].name.as_str(), name) {
                return self.colors[i].value;
            }
            i += 1;
        }
        Color { r: 0, g: 0, b: 0, a: 0 }
    }
}

/// A per-node variable: always both a number (milli fixed point) and a
/// string, defaulting to zero and empty.
#[derive(Clone, Debug)]
pub struct Variable {
    pub num: i64,
    pub string: String,
}

/// The mathematical value of a [`Variable`].
pub ghost struct VariableV {
    pub num: int,
    pub string: Seq<char>,
}

impl View for Variable {
    type V = VariableV;

    open spec fn view(&self) -> VariableV {
        VariableV { num: self.num as int, string: self.string@ }
    }
}

impl Variable {
    /// The default variable: zero and the empty string.
    pub fn new() -> (r: Variable)
        ensures
            r@ == (VariableV { num: 0, string: Seq::<char>::empty() }),
    {
        Variable { num: 0, string: String::new() }
    }
}

/// The default variable an absent name resolves to.
pub open spec fn default_var() -> VariableV {
    VariableV { num: 0, string: Seq::empty() }
}

/// A name-keyed variable store with unique keys.
#[derive(Debug)]
pub struct Programmable {
    pub vars: Vec<(String, Variable)>,
}

impl View for Programmable {
    type V = Seq<(Seq<char>, VariableV)>;

    open spec fn view(&self) -> Seq<(Seq<char>, VariableV)> {
        self.vars@.map_values(|p: (String, Variable)| (p.0@, p.1@))
    }
}

/// The position of the first binding of `name` at or after `from`, or the
/// store's length.
pub open spec fn spec_varv_find(
    vars: Seq<(Seq<char>, VariableV)>,
    name: Seq<char>,
    from: int,
) -> int
    decreases vars.len() - from,
{
    if from < 0 || from >= vars.len() {
        vars.len() as int
    } else if vars[from].0 == name {
        from
    } else {
        spec_varv_find(vars, name, from + 1)
    }
}

/// The first binding of `name`, if any.
pub open spec fn spec_varv_of(vars: Seq<(Seq<char>, VariableV)>, name: Seq<char>) -> Option<
    VariableV,
> {
    let i = spec_varv_find(vars, name, 0);
    if 0 <= i < vars.len() {
        Some(vars[i].1)
    } else {
        None
    }
}

/// Binding a name: the first existing binding is replaced in place, a new
/// name is appended.
pub open spec fn spec_varv_set(
    vars: Seq<(Seq<char>, VariableV)>,
    name: Seq<char>,
    v: VariableV,
) -> Seq<(Seq<char>, VariableV)> {
    let i = spec_varv_find(vars, name, 0);
    if 0 <= i < vars.len() {
        vars.update(i, (name, v))
    } else {
        vars.push((name, v))
    }
}

/// With the keys before `i` all different from `name` and the key at `i`
/// equal to it, the find stops at `i`; with no key equal to it, the find
/// runs to the length.
proof fn lemma_varv_find_at(
    vars: Seq<(Seq<char>, VariableV)>,
    name: Seq<char>,
    from: int,
    i: int,
)
    requires
        0 <= from <= i <= vars.len(),
        forall|k: int| from <= k < i ==> (#[trigger] vars[k].0) != name,
        i < vars.len() ==> vars[i].0 == name,
        i == vars.len() ==> forall|k: int| from <= k < vars.len() ==> (#[trigger] vars[k].0)
            != name,
    ensures
        spec_varv_find(vars, name, from) == i,
    decreases i - from,
{
    if from < i {
        lemma_varv_find_at(vars, name, from + 1, i)
    }
}

impl Programmable {
    /// An empty store.
    pub fn new() -> (r: Programmable)
        ensures
            r@ == Seq::<(Seq<char>, VariableV)>::empty(),
    {
        let r = Programmable { vars: Vec::new() };
        proof {
            assert(r@ =~= Seq::<(Seq<char>, VariableV)>::empty());
        }
        r
    }

    /// The variable bound to `name`, or the default zero/empty variable.
    pub fn get(&self, name: &str) -> (r: Variable)
        ensures
            r@ == match spec_varv_of(self@, name@) {
                Some(v) => v,
                None => default_var(),
            },
    {
        let mut i: usize = 0;
        while i < self.vars.len()
            invariant
                i <= self.vars.len(),
                forall|k: int| 0 <= k < i ==> (#[trigger] self@[k].0) != name@,
            decreases self.vars.len() - i,
        {
            proof {
                assert(self@[i as int] == (self.vars@[i as int].0@, self.vars@[i as int].1@));
            }
            if crate::util::str_eq(self.vars[i].0.as_str(), name) {
                proof {
                    lemma_varv_find_at(self@, name@, 0, i as int);
                }
                return Variable {
                    num: self.vars[i].1.num,
                    string: self.vars[i].1.string.clone(),
                };
            }
            i += 1;
        }
        proof {
            lemma_varv_find_at(self@, name@, 0, self@.len() as int);
        }
        Variable::new()
    }

    /// Binds `name` to `value`, replacing an existing binding in place or
    /// appending a new one.
    pub fn set(&mut self, name: &str, value: Variable)
        ensures
            final(self)@ == spec_varv_set(old(self)@, name@, value@),
    {
        let ghost before = self@;
        let mut i: usize = 0;
        while i < self.vars.len()
            invariant
                i <= self.vars.len(),
                self@ == before,
                before == old(self)@,
                forall|k: int| 0 <= k < i ==> (#[trigger] self@[k].0) != name@,
            decreases self.vars.len() - i,
        {
            proof {
                assert(self@[i as int] == (self.vars@[i as int].0@, self.vars@[i as int].1@));
            }
            if crate::util::str_eq(self.vars[i].0.as_str(), name) {
                proof {
                    lemma_varv_find_at(self@, name@, 0, i as int);
                }
                self.vars[i] = (name.to_owned(), value);
                proof {
                    assert(self@ =~= before.update(i as int, (name@, value@)));
                }
                return;
            }
            i += 1;
        }
        proof {
            lemma_varv_find_at(self@, name@, 0, self@.len() as int);
        }
        self.vars.push((name.to_owned(), value));
        proof {
            assert(self@ =~= before.push((name@, value@)));
        }
    }
}

/// Looking a name up right after binding it yields the bound value, and
/// binding one name leaves every other name's binding as it was.
pub proof fn lemma_var_set_get(
    vars: Seq<(Seq<char>, VariableV)>,
    name: Seq<char>,
    v: VariableV,
)
    ensures
        spec_varv_of(spec_varv_set(vars, name, v), name) == Some(v),
        forall|other: Seq<char>|
            other != name ==> #[trigger] spec_varv_of(spec_varv_set(vars, name, v), other)
                == spec_varv_of(vars, other),
{
    let i = spec_varv_find(vars, name, 0);
    lemma_varv_find_bounds(vars, name, 0);
    lemma_varv_find_props(vars, name, 0);
    let after = spec_varv_set(vars, name, v);
    if 0 <= i < vars.len() {
        lemma_varv_find_at(after, name, 0, i);
    } else {
        lemma_varv_find_at(after, name, 0, vars.len() as int);
    }
    assert(spec_varv_of(after, name) == Some(v));
    assert forall|other: Seq<char>| other != name implies #[trigger] spec_varv_of(after, other)
        == spec_varv_of(vars, other) by {
        lemma_varv_find_other(vars, after, other, 0);
        let j = spec_varv_find(vars, other, 0);
        let j2 = spec_varv_find(after, other, 0);
        lemma_varv_find_bounds(vars, other, 0);
        lemma_varv_find_bounds(after, other, 0);
        lemma_varv_find_props(vars, other, 0);
        lemma_varv_find_props(after, other, 0);
        if j2 == j && 0 <= j < vars.len() {
            assert(after[j] == vars[j]);
            assert(spec_varv_of(after, other) == Some(after[j].1));
            assert(spec_varv_of(vars, other) == Some(vars[j].1));
        } else {
            assert(j >= vars.len() && j2 >= after.len());
            assert(spec_varv_of(after, other) is None);
            assert(spec_varv_of(vars, other) is None);
        }
    }
}

/// A find lands between `from` and the length.
proof fn lemma_varv_find_bounds(vars: Seq<(Seq<char>, VariableV)>, name: Seq<char>, from: int)
    requires
        0 <= from <= vars.len(),
    ensures
        from <= spec_varv_find(vars, name, from) <= vars.len(),
    decreases vars.len() - from,
{
    if from < vars.len() && vars[from].0 != name {
        lemma_varv_find_bounds(vars, name, from + 1);
    }
}

/// What a find means: no hit before the landing point, a hit at it when it
/// is inside the store.
proof fn lemma_varv_find_props(vars: Seq<(Seq<char>, VariableV)>, name: Seq<char>, from: int)
    requires
        0 <= from <= vars.len(),
    ensures
        forall|k: int|
            from <= k < spec_varv_find(vars, name, from) ==> (#[trigger] vars[k].0) != name,
        spec_varv_find(vars, name, from) < vars.len() ==> vars[spec_varv_find(
            vars,
            name,
            from,
        )].0 == name,
    decreases vars.len() - from,
{
    if from < vars.len() && vars[from].0 != name {
        lemma_varv_find_props(vars, name, from + 1);
    }
}

/// The window-and-input snapshot the engine hands the scene graph each
/// frame: everything scripts can ask the window for, as plain values.
#[derive(Debug)]
pub struct Env {
    pub size: Vec2i,
    pub dt: u64,
    pub mousePos: Vec2i,
    pub mouseLeft: bool,
    pub mouseRight: bool,
    pub mouseMiddle: bool,
    pub mouseX1: bool,
    pub mouseX2: bool,
    pub mouseEvent: Option<MouseEvent>,
    pub keysDown: Vec<String>,
    pub keyEvent: Option<KeyEvent>,
    pub vars: Programmable,
    pub palette: Palette,
    pub running: bool,
}

/// Whether a mouse button name is held down in a snapshot; an unknown name
/// is never down.
pub open spec fn spec_mouse_pressed(e: Env, name: Seq<char>) -> bool {
    if name == "Left"@ {
        e.mouseLeft
    } else if name == "Right"@ {
        e.mouseRight
    } else if name == "Middle"@ {
        e.mouseMiddle
    } else if name == "X1"@ {
        e.mouseX1
    } else if name == "X2"@ {
        e.mouseX2
    } else {
        false
    }
}

/// Whether a key name occurs in the held-down list.
pub open spec fn spec_key_down(keys: Seq<String>, name: Seq<char>) -> bool
    decreases keys.len(),
{
    if keys.len() == 0 {
        false
    } else if keys[0]@ == name {
        true
    } else {
        spec_key_down(keys.drop_first(), name)
    }
}

impl Env {
    /// A blank snapshot: zero size, no time passed, nothing pressed, no
    /// variables, an empty palette, and the window open.
    pub fn new() -> (r: Env)
        ensures
            r.size == (Vec2i { x: 0, y: 0 }),
            r.dt == 0,
            r.mousePos == (Vec2i { x: 0, y: 0 }),
            !r.mouseLeft && !r.mouseRight && !r.mouseMiddle && !r.mouseX1 && !r.mouseX2,
            r.mouseEvent is None,
            r.keysDown@.len() == 0,
            r.keyEvent is None,
            r.vars@ == Seq::<(Seq<char>, VariableV)>::empty(),
            r.palette.colors@.len() == 0,
            r.running == true,
    {
        let r = Env {
            size: Vec2i { x: 0, y: 0 },
            dt: 0,
            mousePos: Vec2i { x: 0, y: 0 },
            mouseLeft: false,
            mouseRight: false,
            mouseMiddle: false,
            mouseX1: false,
            mouseX2: false,
            mouseEvent: None,
            keysDown: Vec::new(),
            keyEvent: None,
            vars: Programmable::new(),
            palette: Palette::new(),
            running: false,
        };
        let mut r = r;
        r.running = true;
        r
    }

    /// Whether the named mouse button is down.
    pub fn mousePressed(&self, name: &str) -> (r: bool)
        ensures
            r == spec_mouse_pressed(*self, name@),
    {
        proof {
            reveal_strlit("Left");
            reveal_strlit("Right");
            reveal_strlit("Middle");
            reveal_strlit("X1");
            reveal_strlit("X2");
        }
        if crate::util::str_eq(name, "Left") {
            self.mouseLeft
        } else if crate::util::str_eq(name, "Right") {
            self.mouseRight
        } else if crate::util::str_eq(name, "Middle") {
            self.mouseMiddle
        } else if crate::util::str_eq(name, "X1") {
            self.mouseX1
        } else if crate::util::str_eq(name, "X2") {
            self.mouseX2
        } else {
            false
        }
    }

    /// Whether the named button went down with this frame's mouse event.
    pub fn mouseJustPressed(&self, name: &str) -> (r: bool)
        ensures
            r == match self.mouseEvent {
                Some(e) => e.btn@ == name@ && e.clicks > 0,
                None => false,
            },
    {
        match &self.mouseEvent {
            Some(e) => crate::util::str_eq(e.btn.as_str(), name) && e.clicks > 0,
            None => false,
        }
    }

    /// Whether the named key is held down.
    pub fn keyPressed(&self, name: &str) -> (r: bool)
        ensures
            r == spec_key_down(self.keysDown@, name@),
    {
        let mut i: usize = 0;
        proof {
            assert(self.keysDown@.skip(0) =~= self.keysDown@);
        }
        while i < self.keysDown.len()
            invariant
                i <= self.keysDown.len(),
                spec_key_down(self.keysDown@, name@) == spec_key_down(
                    self.keysDown@.skip(i as int),
                    name@,
                ),
            decreases self.keysDown.len() - i,
        {
            proof {
                assert(self.keysDown@.skip(i as int).drop_first() =~= self.keysDown@.skip(i + 1));
            }
            if crate::util::str_eq(self.keysDown[i].as_str(), name) {
                return true;
            }
            i += 1;
        }
        false
    }

    /// Whether the named key went down with this frame's key event,
    /// freshly or as a repeat.
    pub fn keyJustPressed(&self, name: &str) -> (r: bool)
        ensures
            r == match self.keyEvent {
                Some(e) => e.key@ == name@ && (e.action == KeyAction::Pressed || e.action
                    == KeyAction::PressedRepeat),
                None => false,
            },
    {
        match &self.keyEvent {
            Some(e) => crate::util::str_eq(e.key.as_str(), name) && (e.action
                == KeyAction::Pressed || e.action == KeyAction::PressedRepeat),
            None => false,
        }
    }
}

/// Rebinding one name moves no other name's first binding: the find for any
/// other key lands at the same place, or runs off the end of both stores.
proof fn lemma_varv_find_other(
    vars: Seq<(Seq<char>, VariableV)>,
    after: Seq<(Seq<char>, VariableV)>,
    other: Seq<char>,
    from: int,
)
    requires
        0 <= from <= vars.len(),
        vars.len() <= after.len() <= vars.len() + 1,
        forall|k: int|
            0 <= k < vars.len() ==> (#[trigger] after[k]) == vars[k] || (after[k].0 != other
                && vars[k].0 != other),
        after.len() == vars.len() + 1 ==> after.last().0 != other,
    ensures
        spec_varv_find(after, other, from) == spec_varv_find(vars, other, from) || (
        spec_varv_find(vars, other, from) >= vars.len() && spec_varv_find(after, other, from)
            >= after.len()),
    decreases vars.len() - from,
{
    if from < vars.len() {
        if after[from] == vars[from] {
            if vars[from].0 != other {
                lemma_varv_find_other(vars, after, other, from + 1);
            }
        } else {
            lemma_varv_find_other(vars, after, other, from + 1);
        }
    } else {
        if from < after.len() {
            assert(after[from] == after.last());
            assert(spec_varv_find(after, other, from + 1) == after.len());
        }
    }
}

} // verus!
