use vstd::prelude::*;
use crate::anim::{spec_animator_update, spec_animator_set_anim, spec_current_cell};
use crate::env::{Env, Palette, PaletteColor, Variable, VariableV};
use crate::geom::{Color, Rect, Vec2i};
use crate::node::{
    lemma_objs_inv_index, lemma_objs_view_index, lemma_objs_view_len, obj_inv, obj_view,
    objs_inv, objs_view, Assets, Object, ObjectV,
};
use crate::shader::Shader;
use crate::text::{
    spec_bounds, spec_dims_of_v, spec_parse_markup, spec_quads_of_v, spec_text_laid, TextV,
    Vertex,
};
use crate::transform::Transform2D;

verus! {

/// The node a path leads to: each path component picks a child, starting
/// from `depth`.
pub open spec fn spec_node_at(o: ObjectV, path: Seq<usize>, depth: int) -> Option<ObjectV>
    decreases path.len() - depth,
{
    if depth < 0 || depth > path.len() {
        None
    } else if depth == path.len() {
        Some(o)
    } else if (path[depth] as int) < o.children.len() {
        spec_node_at(o.children[path[depth] as int], path, depth + 1)
    } else {
        None
    }
}

/// The tree with the node at a path replaced by the operation's image of
/// it; an invalid path changes nothing.
pub open spec fn spec_apply_at(
    o: ObjectV,
    path: Seq<usize>,
    depth: int,
    op: NodeOpV,
    pal: Seq<PaletteColor>,
) -> ObjectV
    decreases path.len() - depth,
{
    if depth < 0 || depth > path.len() {
        o
    } else if depth == path.len() {
        spec_node_op(op, pal, o)
    } else if (path[depth] as int) < o.children.len() {
        ObjectV {
            children: o.children.update(
                path[depth] as int,
                spec_apply_at(o.children[path[depth] as int], path, depth + 1, op, pal),
            ),
            ..o
        }
    } else {
        o
    }
}

/// Replacing one node of a sequence replaces its view.
pub proof fn lemma_objs_view_update(s: Seq<Object>, i: int, x: Object)
    requires
        0 <= i < s.len(),
    ensures
        objs_view(s.update(i, x)) == objs_view(s).update(i, obj_view(x)),
    decreases s.len(),
{
    lemma_objs_view_len(s);
    lemma_objs_view_len(s.update(i, x));
    if i == 0 {
        assert(s.update(0, x)[0] == x);
        assert(s.update(0, x).drop_first() =~= s.drop_first());
        assert(objs_view(s.update(0, x)) == seq![obj_view(x)] + objs_view(s.drop_first()));
        assert(objs_view(s) == seq![obj_view(s[0])] + objs_view(s.drop_first()));
        assert((seq![obj_view(s[0])] + objs_view(s.drop_first())).update(0, obj_view(x)) =~= seq![
            obj_view(x),
        ] + objs_view(s.drop_first()));
    } else {
        assert(s.update(i, x)[0] == s[0]);
        assert(s.update(i, x).drop_first() =~= s.drop_first().update(i - 1, x));
        lemma_objs_view_update(s.drop_first(), i - 1, x);
        assert(objs_view(s.update(i, x)) == seq![obj_view(s[0])] + objs_view(
            s.drop_first(),
        ).update(i - 1, obj_view(x)));
        assert(objs_view(s) == seq![obj_view(s[0])] + objs_view(s.drop_first()));
        assert((seq![obj_view(s[0])] + objs_view(s.drop_first())).update(i, obj_view(x)) =~= seq![
            obj_view(s[0]),
        ] + objs_view(s.drop_first()).update(i - 1, obj_view(x)));
    }
}

/// Replacing one node of a well-formed sequence by a well-formed node keeps
/// the sequence well formed.
pub proof fn lemma_objs_inv_update(s: Seq<ObjectV>, i: int, x: ObjectV)
    requires
        objs_inv(s),
        obj_inv(x),
        0 <= i < s.len(),
    ensures
        objs_inv(s.update(i, x)),
    decreases s.len(),
{
    if i == 0 {
        assert(s.update(0, x)[0] == x);
        assert(s.update(0, x).drop_first() =~= s.drop_first());
    } else {
        assert(s.update(i, x)[0] == s[0]);
        assert(s.update(i, x).drop_first() =~= s.drop_first().update(i - 1, x));
        lemma_objs_inv_update(s.drop_first(), i - 1, x);
    }
}

/// An operation performed on the node a path leads to.
#[derive(Debug)]
pub enum NodeOp {
    /// Marks a script-bearing node initialised, reporting whether it has a
    /// script and whether it was initialised before.
    EnterScript,
    /// Advances the sprite's animator by the frame time and reports what to
    /// draw for it.
    ImageDraw(u64),
    /// Lays the text out if dirty and reports what to draw for it.
    TextDraw,
    /// A transform change on the sprite.
    ImageTransform(TransformOp),
    /// A transform change on the text.
    TextTransform(TransformOp),
    /// Switches the sprite's active animation.
    ImageSetAnimation(String),
    /// Replaces the text's content with parsed markup.
    TextSetString(String),
    /// Lays the text out if dirty and reports its bounds and dimensions.
    TextQuery,
    /// Binds a node variable.
    VarSet(String, Variable),
}

/// The mathematical value of a [`NodeOp`].
pub ghost enum NodeOpV {
    EnterScript,
    ImageDraw(int),
    TextDraw,
    ImageTransform(TransformOp),
    TextTransform(TransformOp),
    ImageSetAnimation(Seq<char>),
    TextSetString(Seq<char>),
    TextQuery,
    VarSet(Seq<char>, VariableV),
}

impl View for NodeOp {
    type V = NodeOpV;

    open spec fn view(&self) -> NodeOpV {
        match self {
            NodeOp::EnterScript => NodeOpV::EnterScript,
            NodeOp::ImageDraw(dt) => NodeOpV::ImageDraw(*dt as int),
            NodeOp::TextDraw => NodeOpV::TextDraw,
            NodeOp::ImageTransform(op) => NodeOpV::ImageTransform(*op),
            NodeOp::TextTransform(op) => NodeOpV::TextTransform(*op),
            NodeOp::ImageSetAnimation(name) => NodeOpV::ImageSetAnimation(name@),
            NodeOp::TextSetString(t) => NodeOpV::TextSetString(t@),
            NodeOp::TextQuery => NodeOpV::TextQuery,
            NodeOp::VarSet(name, v) => NodeOpV::VarSet(name@, v@),
        }
    }
}

/// A change to a local transform.
#[derive(Clone, Copy, Debug)]
pub enum TransformOp {
    SetPosition(Vec2i),
    Translate(Vec2i),
    SetRotation(i64),
    Rotate(i64),
    SetScale(Vec2i),
    Scale(Vec2i),
    SetOrigin(Vec2i),
}

/// What a transform change does.
pub open spec fn spec_transform_op(op: TransformOp, t: Transform2D) -> Transform2D {
    match op {
        TransformOp::SetPosition(p) => Transform2D { position: p, ..t },
        TransformOp::Translate(d) => Transform2D {
            position: Vec2i {
                x: crate::util::sat_i64(t.position.x + d.x) as i64,
                y: crate::util::sat_i64(t.position.y + d.y) as i64,
            },
            ..t
        },
        TransformOp::SetRotation(a) => Transform2D { rotation: a, ..t },
        TransformOp::Rotate(a) => Transform2D {
            rotation: crate::util::sat_i64(t.rotation + a) as i64,
            ..t
        },
        TransformOp::SetScale(s) => Transform2D { scale: s, ..t },
        TransformOp::Scale(s) => Transform2D {
            scale: Vec2i {
                x: crate::util::sat_i64(t.scale.x + s.x) as i64,
                y: crate::util::sat_i64(t.scale.y + s.y) as i64,
            },
            ..t
        },
        TransformOp::SetOrigin(p) => Transform2D { origin: p, ..t },
    }
}

/// What each operation does to the node it reaches.
pub open spec fn spec_node_op(op: NodeOpV, pal: Seq<PaletteColor>, n: ObjectV) -> ObjectV {
    match op {
        NodeOpV::EnterScript => ObjectV {
            init: if n.script is Some {
                true
            } else {
                n.init
            },
            ..n
        },
        NodeOpV::ImageDraw(dt) => ObjectV {
            image: crate::node::ImageV {
                animation: spec_animator_update(n.image.animation, dt),
                ..n.image
            },
            ..n
        },
        NodeOpV::TextDraw => ObjectV { text: spec_text_laid(n.text), ..n },
        NodeOpV::ImageTransform(op) => ObjectV {
            image: crate::node::ImageV { ts: spec_transform_op(op, n.image.ts), ..n.image },
            ..n
        },
        NodeOpV::TextTransform(op) => ObjectV {
            text: TextV { ts: spec_transform_op(op, n.text.ts), ..n.text },
            ..n
        },
        NodeOpV::ImageSetAnimation(name) => ObjectV {
            image: crate::node::ImageV {
                animation: spec_animator_set_anim(n.image.animation, name),
                ..n.image
            },
            ..n
        },
        NodeOpV::TextSetString(s) => ObjectV {
            text: TextV { runs: spec_parse_markup(s, pal), reload: true, ..n.text },
            ..n
        },
        NodeOpV::TextQuery => ObjectV { text: spec_text_laid(n.text), ..n },
        NodeOpV::VarSet(name, v) => ObjectV {
            vars: crate::env::spec_varv_set(n.vars, name, v),
            ..n
        },
    }
}

/// What an operation reports back.
#[derive(Debug)]
pub enum OpResult {
    /// Whether the node has a script and whether it was initialised before.
    Entered(bool, bool),
    /// The sprite draw: texture path, cell pixel size, UV cell, tint and
    /// transform.
    ImageCmd(String, Vec2i, Rect, Color, Transform2D),
    /// The text draw: page texture path, laid-out vertices and transform.
    TextCmd(String, Vec<Vertex>, Transform2D),
    /// The text's bounding rectangle and dimensions.
    TextInfo(Rect, Vec2i),
    /// Nothing to report.
    Done,
}

/// What result an operation on node `n` must report.
pub open spec fn spec_op_result(op: NodeOpV, n: ObjectV, r: OpResult) -> bool {
    match op {
        NodeOpV::EnterScript => r matches OpResult::Entered(has, was) && has == (
        n.script is Some) && was == n.init,
        NodeOpV::ImageDraw(dt) => r matches OpResult::ImageCmd(tex, size, uv, color, ts)
            && tex@ == n.image.animation.texture && size == n.image.animation.frame && uv
            == spec_current_cell(spec_animator_update(n.image.animation, dt)) && color
            == n.image.color && ts == n.image.ts,
        NodeOpV::TextDraw => r matches OpResult::TextCmd(page, verts, ts) && page@
            == n.text.font.page && verts@ == spec_quads_of_v(n.text) && ts == n.text.ts,
        NodeOpV::TextQuery => r matches OpResult::TextInfo(b, d) && b == spec_bounds(
            n.text.ts,
            spec_dims_of_v(n.text),
        ) && d == spec_dims_of_v(n.text),
        _ => r is Done,
    }
}

/// Performs one operation on the node a path leads to, replacing that node
/// by [`spec_node_op`] of it.  An invalid path changes nothing and reports
/// nothing.
fn apply_at(o: &mut Object, path: &Vec<usize>, depth: usize, op: &NodeOp, pal: &Palette) -> (r:
    Option<OpResult>)
    requires
        obj_inv(old(o)@),
        depth <= path@.len(),
    ensures
        obj_inv(final(o)@),
        match spec_node_at(old(o)@, path@, depth as int) {
            None => r is None && final(o)@ == old(o)@,
            Some(n) => {
                &&& final(o)@ == spec_apply_at(old(o)@, path@, depth as int, op@, pal.colors@)
                &&& (r matches Some(res) && spec_op_result(op@, n, res))
            },
        },
    decreases path@.len() - depth,
{
    if depth == path.len() {
        let r = apply_here(o, op, pal);
        Some(r)
    } else {
        let idx = path[depth];
        if idx < o.children.len() {
            let ghost before = o@;
            let ghost childv = objs_view(o.children@)[idx as int];
            proof {
                lemma_objs_view_index(o.children@, idx as int);
                lemma_objs_inv_index(objs_view(o.children@), idx as int);
            }
            let r = apply_at(&mut o.children[idx], path, depth + 1, op, pal);
            proof {
                lemma_objs_view_update(
                    old(o).children@,
                    idx as int,
                    o.children@[idx as int],
                );
                lemma_objs_view_index(old(o).children@, idx as int);
                if spec_node_at(before, path@, depth as int) is Some {
                    lemma_objs_inv_update(
                        objs_view(old(o).children@),
                        idx as int,
                        obj_view(o.children@[idx as int]),
                    );
                } else {
                    assert(obj_view(o.children@[idx as int]) == childv);
                    assert(objs_view(o.children@) =~= objs_view(old(o).children@));
                    assert(o@ == old(o)@);
                }
            }
            r
        } else {
            proof {
                lemma_objs_view_len(o.children@);
            }
            None
        }
    }
}

/// Performs one operation on this node itself.
fn apply_here(o: &mut Object, op: &NodeOp, pal: &Palette) -> (r: OpResult)
    requires
        obj_inv(old(o)@),
    ensures
        obj_inv(final(o)@),
        final(o)@ == spec_node_op(op@, pal.colors@, old(o)@),
        spec_op_result(op@, old(o)@, r),
{
    match op {
        NodeOp::EnterScript => {
            let has = o.script.is_some();
            let was = o.init;
            if has {
                o.init = true;
            }
            OpResult::Entered(has, was)
        },
        NodeOp::ImageDraw(dt) => {
            let tex = o.image.animation.texture.clone();
            let size = o.image.animation.getFrameSize();
            o.image.animation.update(*dt);
            let uv = o.image.animation.getCurrentFrame();
            OpResult::ImageCmd(tex, size, uv, o.image.color, o.image.ts)
        },
        NodeOp::TextDraw => {
            if o.text.reload {
                o.text.update();
            }
            let page = o.text.font.page.clone();
            let verts = clone_vertices(&o.text.quads);
            OpResult::TextCmd(page, verts, o.text.ts)
        },
        NodeOp::ImageTransform(top) => {
            apply_transform_op(&mut o.image.ts, top);
            OpResult::Done
        },
        NodeOp::TextTransform(top) => {
            apply_transform_op(&mut o.text.ts, top);
            OpResult::Done
        },
        NodeOp::ImageSetAnimation(name) => {
            o.image.animation.setCurrentAnimation(name.as_str());
            OpResult::Done
        },
        NodeOp::TextSetString(s) => {
            o.text.setString(s.as_str(), pal);
            OpResult::Done
        },
        NodeOp::TextQuery => {
            let b = o.text.getBounds();
            let d = o.text.dimensions;
            OpResult::TextInfo(b, d)
        },
        NodeOp::VarSet(name, v) => {
            o.vars.set(name.as_str(), Variable { num: v.num, string: v.string.clone() });
            OpResult::Done
        },
    }
}

/// Applies a transform change in place.
fn apply_transform_op(t: &mut Transform2D, op: &TransformOp)
    ensures
        *final(t) == spec_transform_op(*op, *old(t)),
{
    match op {
        TransformOp::SetPosition(p) => t.setPosition(*p),
        TransformOp::Translate(d) => t.translate(*d),
        TransformOp::SetRotation(a) => t.setRotation(*a),
        TransformOp::Rotate(a) => t.rotate(*a),
        TransformOp::SetScale(s) => t.setScale(*s),
        TransformOp::Scale(s) => t.scale(*s),
        TransformOp::SetOrigin(p) => t.setOrigin(*p),
    }
}

/// Copies a vertex list.
fn clone_vertices(v: &Vec<Vertex>) -> (r: Vec<Vertex>)
    ensures
        r@ == v@,
{
    let mut out: Vec<Vertex> = Vec::new();
    let mut i: usize = 0;
    proof {
        assert(out@ =~= v@.take(0));
    }
    while i < v.len()
        invariant
            i <= v.len(),
            out@ == v@.take(i as int),
        decreases v.len() - i,
    {
        out.push(v[i]);
        proof {
            assert(v@.take(i + 1) =~= v@.take(i as int).push(v@[i as int]));
        }
        i += 1;
    }
    proof {
        assert(v@.take(v@.len() as int) =~= v@);
    }
    out
}

/// One pending unit of the frame traversal: entering a node (context,
/// script, then its three slots), or drawing one slot of a node.
#[derive(Debug)]
pub enum Task {
    Enter(Vec<usize>),
    Slot(Vec<usize>, usize),
}

/// The mathematical value of a [`Task`].
pub ghost enum TaskV {
    Enter(Seq<usize>),
    Slot(Seq<usize>, int),
}

impl View for Task {
    type V = TaskV;

    open spec fn view(&self) -> TaskV {
        match self {
            Task::Enter(p) => TaskV::Enter(p@),
            Task::Slot(p, k) => TaskV::Slot(p@, *k as int),
        }
    }
}

/// The views of a task stack.
pub open spec fn tasks_view(ts: Seq<Task>) -> Seq<TaskV> {
    ts.map_values(|t: Task| t@)
}

/// A slot task points at one of the three order slots.
pub open spec fn task_wf(t: TaskV) -> bool {
    match t {
        TaskV::Enter(_) => true,
        TaskV::Slot(_, k) => 0 <= k < 3,
    }
}

/// One drawing command of a frame, in submission order.  The renderer
/// resolves texture paths to its own handles and builds model matrices
/// from the transforms.
#[derive(Debug)]
pub enum DrawCmd {
    ActivateShader(Shader),
    SetView(Transform2D),
    SetProjection(Vec2i),
    ImageQuad { texture: String, size: Vec2i, uv: Rect, color: Color, transform: Transform2D },
    TextQuads { page: String, vertices: Vec<Vertex>, transform: Transform2D },
}

/// What one machine step reports: a script to run on a node before its
/// slots are drawn, a unit of drawing done, or the end of the frame.
#[derive(Debug)]
pub enum StepEvent {
    Script(Vec<usize>, ScriptCall),
    Drawn,
    Finished,
}

/// Which script entry point to call: `Init` exactly once, `Update` on
/// every later call.
#[derive(Clone, Copy, Debug, PartialEq, Eq, Structural)]
pub enum ScriptCall {
    Init,
    Update,
}

/// The scene graph: the root node, the shared shader and view/projection
/// state, the deferred-reload request, the script context slot, the frame
/// traversal stack with its command list, and the window snapshot.
#[derive(Debug)]
pub struct Ui {
    pub root: Object,
    pub shader: Shader,
    pub projection: Vec2i,
    pub view: Transform2D,
    pub loadPath: String,
    pub ctx: Option<Vec<usize>>,
    pub tasks: Vec<Task>,
    pub frameActive: bool,
    pub frame: Vec<DrawCmd>,
    pub env: Env,
}

/// Scene-graph well-formedness: the tree is well formed and every pending
/// slot task points at a real slot.
pub open spec fn ui_inv(u: Ui) -> bool {
    &&& obj_inv(u.root@)
    &&& forall|i: int| 0 <= i < u.tasks@.len() ==> task_wf(#[trigger] u.tasks@[i]@)
}

/// The entry tasks that draw a node's children in reverse declaration
/// order once popped from the stack.
pub open spec fn spec_child_tasks(p: Seq<usize>, count: int) -> Seq<TaskV> {
    Seq::new(count as nat, |j: int| TaskV::Enter(p.push(j as usize)))
}

/// What one step does when the stack still holds a task: the last task is
/// popped; entering a node sets the context, queues its three slots and
/// reports its script call; a slot draws the image or text, queues the
/// children, or does nothing, by the slot's order character.
pub open spec fn spec_step_effect(u0: Ui, u1: Ui, r: StepEvent) -> bool {
    let t = u0.tasks@.last()@;
    let popped = tasks_view(u0.tasks@.drop_last());
    match t {
        TaskV::Enter(p) => match spec_node_at(u0.root@, p, 0) {
            None => {
                &&& u1.root@ == u0.root@
                &&& tasks_view(u1.tasks@) == popped
                &&& u1.frame == u0.frame
                &&& u1.ctx == u0.ctx
                &&& r is Drawn
            },
            Some(n) => {
                &&& u1.root@ == spec_apply_at(
                    u0.root@,
                    p,
                    0,
                    NodeOpV::EnterScript,
                    u0.env.palette.colors@,
                )
                &&& tasks_view(u1.tasks@) == popped + seq![
                    TaskV::Slot(p, 0),
                    TaskV::Slot(p, 1),
                    TaskV::Slot(p, 2),
                ]
                &&& (u1.ctx matches Some(q) && q@ == p)
                &&& u1.frame == u0.frame
                &&& (match n.script {
                    Some(_) => r matches StepEvent::Script(q2, call) && q2@ == p && call == (
                    if n.init {
                        ScriptCall::Update
                    } else {
                        ScriptCall::Init
                    }),
                    None => r is Drawn,
                })
            },
        },
        TaskV::Slot(p, k) => match spec_node_at(u0.root@, p, 0) {
            None => {
                &&& u1.root@ == u0.root@
                &&& tasks_view(u1.tasks@) == popped
                &&& u1.frame == u0.frame
                &&& u1.ctx == u0.ctx
                &&& r is Drawn
            },
            Some(n) => {
                &&& u1.ctx == u0.ctx
                &&& r is Drawn
                &&& (if n.order[k] == 'i' {
                    &&& u1.root@ == spec_apply_at(
                        u0.root@,
                        p,
                        0,
                        NodeOpV::ImageDraw(u0.env.dt as int),
                        u0.env.palette.colors@,
                    )
                    &&& tasks_view(u1.tasks@) == popped
                    &&& u1.frame@.len() == u0.frame@.len() + 1
                    &&& u1.frame@.take(u0.frame@.len() as int) == u0.frame@
                    &&& (u1.frame@.last() matches DrawCmd::ImageQuad {
                        texture,
                        size,
                        uv,
                        color,
                        transform,
                    } && texture@ == n.image.animation.texture && size == n.image.animation.frame
                        && uv == spec_current_cell(
                        spec_animator_update(n.image.animation, u0.env.dt as int),
                    ) && color == n.image.color && transform == n.image.ts)
                } else if n.order[k] == 't' {
                    &&& u1.root@ == spec_apply_at(
                        u0.root@,
                        p,
                        0,
                        NodeOpV::TextDraw,
                        u0.env.palette.colors@,
                    )
                    &&& tasks_view(u1.tasks@) == popped
                    &&& u1.frame@.len() == u0.frame@.len() + 1
                    &&& u1.frame@.take(u0.frame@.len() as int) == u0.frame@
                    &&& (u1.frame@.last() matches DrawCmd::TextQuads {
                        page,
                        vertices,
                        transform,
                    } && page@ == n.text.font.page && vertices@ == spec_quads_of_v(n.text)
                        && transform == n.text.ts)
                } else if n.order[k] == 'c' {
                    &&& u1.root@ == u0.root@
                    &&& tasks_view(u1.tasks@) == popped + spec_child_tasks(
                        p,
                        n.children.len() as int,
                    )
                    &&& u1.frame == u0.frame
                } else {
                    &&& u1.root@ == u0.root@
                    &&& tasks_view(u1.tasks@) == popped
                    &&& u1.frame == u0.frame
                })
            },
        },
    }
}

/// Copies a traversal path.
fn clone_path(p: &Vec<usize>) -> (r: Vec<usize>)
    ensures
        r@ == p@,
{
    let mut out: Vec<usize> = Vec::new();
    let mut i: usize = 0;
    proof {
        assert(out@ =~= p@.take(0));
    }
    while i < p.len()
        invariant
            i <= p.len(),
            out@ == p@.take(i as int),
        decreases p.len() - i,
    {
        out.push(p[i]);
        proof {
            assert(p@.take(i + 1) =~= p@.take(i as int).push(p@[i as int]));
        }
        i += 1;
    }
    proof {
        assert(p@.take(p@.len() as int) =~= p@);
    }
    out
}

impl Ui {
    /// An empty scene over a blank window snapshot.
    pub fn new() -> (r: Ui)
        ensures
            r.root@ == crate::node::spec_object_new(),
            r.shader == (Shader { vertex: 0, fragment: 0, program: 0 }),
            r.projection == (Vec2i { x: 0, y: 0 }),
            r.loadPath@ == Seq::<char>::empty(),
            r.ctx is None,
            r.tasks@.len() == 0,
            r.frameActive == false,
            r.frame@.len() == 0,
            ui_inv(r),
    {
        Ui {
            root: Object::new(),
            shader: Shader::new(),
            projection: Vec2i { x: 0, y: 0 },
            view: Transform2D::new(),
            loadPath: String::new(),
            ctx: None,
            tasks: Vec::new(),
            frameActive: false,
            frame: Vec::new(),
            env: Env::new(),
        }
    }

    /// Recomputes the projection from the viewport size.
    pub fn resize(&mut self, size: Vec2i)
        ensures
            *final(self) == (Ui { projection: size, ..*old(self) }),
    {
        self.projection = size;
    }

    /// Records a pending scene reload without touching the tree.  The
    /// request is applied only between frames, when [`Ui::takePendingReload`]
    /// drains it.
    pub fn requestReload(&mut self, path: &str)
        ensures
            final(self).loadPath@ == path@,
            final(self).root == old(self).root,
            final(self).tasks == old(self).tasks,
            final(self).frame == old(self).frame,
            final(self).frameActive == old(self).frameActive,
            final(self).ctx == old(self).ctx,
            final(self).env == old(self).env,
            final(self).shader == old(self).shader,
            final(self).projection == old(self).projection,
            final(self).view == old(self).view,
    {
        self.loadPath = path.to_owned();
    }

    /// Drains the pending reload request, exactly once per frame boundary:
    /// it may not be called while a frame is being drawn.
    pub fn takePendingReload(&mut self) -> (r: Option<String>)
        requires
            !old(self).frameActive,
        ensures
            final(self).loadPath@ == Seq::<char>::empty(),
            match r {
                Some(p) => p@ == old(self).loadPath@ && old(self).loadPath@.len() > 0,
                None => old(self).loadPath@.len() == 0,
            },
            final(self).root == old(self).root,
            final(self).tasks == old(self).tasks,
            final(self).frame == old(self).frame,
            final(self).frameActive == old(self).frameActive,
            final(self).ctx == old(self).ctx,
            final(self).env == old(self).env,
            final(self).shader == old(self).shader,
            final(self).projection == old(self).projection,
            final(self).view == old(self).view,
    {
        if self.loadPath.as_str().is_empty() {
            return None;
        }
        let p = self.loadPath.clone();
        self.loadPath = String::new();
        Some(p)
    }

    /// Replaces the whole tree from a scene declaration, resetting the
    /// view and clearing the script context.  A reload never happens while
    /// a frame is being drawn.
    pub fn load(&mut self, src: &crate::desc::Element, assets: &Assets)
        requires
            !old(self).frameActive,
        ensures
            final(self).root@ == crate::node::spec_parse_object(
                *src,
                assets.jsons@,
                assets.xmls@,
                old(self).env.palette.colors@,
            ),
            obj_inv(final(self).root@),
            final(self).view == (crate::transform::Transform2D {
                position: Vec2i { x: 0, y: 0 },
                rotation: 0,
                scale: Vec2i { x: 1000, y: 1000 },
                origin: Vec2i { x: 0, y: 0 },
            }),
            final(self).ctx is None,
            final(self).loadPath == old(self).loadPath,
            final(self).tasks == old(self).tasks,
            final(self).frame == old(self).frame,
            final(self).frameActive == old(self).frameActive,
            final(self).env == old(self).env,
            final(self).shader == old(self).shader,
            final(self).projection == old(self).projection,
    {
        self.root = Object::parse(src, assets, &self.env.palette);
        self.view = Transform2D::new();
        self.ctx = None;
    }

    /// Opens a frame: queues the root traversal and the shared shader,
    /// view and projection commands that precede all drawing.
    pub fn beginFrame(&mut self)
        requires
            !old(self).frameActive,
            ui_inv(*old(self)),
        ensures
            ui_inv(*final(self)),
            final(self).frameActive,
            tasks_view(final(self).tasks@) == (tasks_view(old(self).tasks@).push(
                TaskV::Enter(Seq::<usize>::empty()),
            )),
            final(self).frame@ == old(self).frame@ + seq![
                DrawCmd::ActivateShader(old(self).shader),
                DrawCmd::SetView(old(self).view),
                DrawCmd::SetProjection(old(self).projection),
            ],
            final(self).root == old(self).root,
            final(self).loadPath == old(self).loadPath,
            final(self).ctx == old(self).ctx,
            final(self).env == old(self).env,
            final(self).shader == old(self).shader,
            final(self).projection == old(self).projection,
            final(self).view == old(self).view,
    {
        self.frame.push(DrawCmd::ActivateShader(self.shader));
        self.frame.push(DrawCmd::SetView(self.view));
        self.frame.push(DrawCmd::SetProjection(self.projection));
        self.tasks.push(Task::Enter(Vec::new()));
        self.frameActive = true;
        proof {
            assert(tasks_view(self.tasks@) =~= tasks_view(old(self).tasks@).push(
                TaskV::Enter(Seq::<usize>::empty()),
            ));
            assert(self.frame@ =~= old(self).frame@ + seq![
                DrawCmd::ActivateShader(old(self).shader),
                DrawCmd::SetView(old(self).view),
                DrawCmd::SetProjection(old(self).projection),
            ]);
        }
    }

    /// One step of the frame traversal.  An empty stack closes the frame;
    /// otherwise the top task is processed as [`spec_step_effect`] says.
    /// The pending reload request, the window snapshot and the shared
    /// drawing state are never touched: a reload requested by a script
    /// stays queued until the whole frame has been drawn.
    pub fn step(&mut self) -> (r: StepEvent)
        requires
            old(self).frameActive,
            ui_inv(*old(self)),
        ensures
            ui_inv(*final(self)),
            final(self).loadPath == old(self).loadPath,
            final(self).env == old(self).env,
            final(self).shader == old(self).shader,
            final(self).projection == old(self).projection,
            final(self).view == old(self).view,
            old(self).tasks@.len() == 0 ==> (r is Finished && !final(self).frameActive
                && final(self).root == old(self).root && final(self).frame == old(self).frame
                && final(self).tasks@ == old(self).tasks@ && final(self).ctx == old(self).ctx),
            old(self).tasks@.len() > 0 ==> (final(self).frameActive && spec_step_effect(
                *old(self),
                *final(self),
                r,
            )),
    {
        let t = match self.tasks.pop() {
            None => {
                self.frameActive = false;
                return StepEvent::Finished;
            },
            Some(t) => t,
        };
        proof {
            assert(old(self).tasks@.last()@ == t@);
            assert(tasks_view(self.tasks@) =~= tasks_view(old(self).tasks@.drop_last()));
            assert(task_wf(t@));
        }
        match t {
            Task::Enter(p) => {
                let r = apply_at(&mut self.root, &p, 0, &NodeOp::EnterScript, &self.env.palette);
                match r {
                    None => StepEvent::Drawn,
                    Some(OpResult::Entered(has, was)) => {
                        let ghost mid = tasks_view(self.tasks@);
                        self.tasks.push(Task::Slot(clone_path(&p), 0));
                        self.tasks.push(Task::Slot(clone_path(&p), 1));
                        self.tasks.push(Task::Slot(clone_path(&p), 2));
                        self.ctx = Some(clone_path(&p));
                        proof {
                            assert(tasks_view(self.tasks@) =~= mid + seq![
                                TaskV::Slot(p@, 0),
                                TaskV::Slot(p@, 1),
                                TaskV::Slot(p@, 2),
                            ]);
                        }
                        if has {
                            if !was {
                                StepEvent::Script(p, ScriptCall::Init)
                            } else {
                                StepEvent::Script(p, ScriptCall::Update)
                            }
                        } else {
                            StepEvent::Drawn
                        }
                    },
                    Some(_) => StepEvent::Drawn,
                }
            },
            Task::Slot(p, k) => {
                let c: char = match node_at(&self.root, &p, 0) {
                    Some(n) => n.order[k],
                    None => {
                        return StepEvent::Drawn;
                    },
                };
                if c == 'i' {
                    let r = apply_at(
                        &mut self.root,
                        &p,
                        0,
                        &NodeOp::ImageDraw(self.env.dt),
                        &self.env.palette,
                    );
                    match r {
                        Some(OpResult::ImageCmd(tex, size, uv, color, ts)) => {
                            let ghost before = self.frame@;
                            self.frame.push(
                                DrawCmd::ImageQuad {
                                    texture: tex,
                                    size,
                                    uv,
                                    color,
                                    transform: ts,
                                },
                            );
                            proof {
                                assert(self.frame@.take(before.len() as int) =~= before);
                            }
                        },
                        _ => {
                        },
                    }
                    StepEvent::Drawn
                } else if c == 't' {
                    let r = apply_at(&mut self.root, &p, 0, &NodeOp::TextDraw, &self.env.palette);
                    match r {
                        Some(OpResult::TextCmd(page, verts, ts)) => {
                            let ghost before = self.frame@;
                            self.frame.push(
                                DrawCmd::TextQuads { page, vertices: verts, transform: ts },
                            );
                            proof {
                                assert(self.frame@.take(before.len() as int) =~= before);
                            }
                        },
                        _ => {
                        },
                    }
                    StepEvent::Drawn
                } else if c == 'c' {
                    let count = match node_at(&self.root, &p, 0) {
                        Some(n) => {
                            proof {
                                lemma_objs_view_len(n.children@);
                            }
                            n.children.len()
                        },
                        None => 0,
                    };
                    let ghost mid = tasks_view(self.tasks@);
                    let mut j: usize = 0;
                    while j < count
                        invariant
                            j <= count,
                            tasks_view(self.tasks@) =~= mid + spec_child_tasks(p@, j as int),
                            self.root == old(self).root,
                            self.frame == old(self).frame,
                            self.ctx == old(self).ctx,
                            self.loadPath == old(self).loadPath,
                            self.env == old(self).env,
                            self.shader == old(self).shader,
                            self.projection == old(self).projection,
                            self.view == old(self).view,
                            self.frameActive == old(self).frameActive,
                            forall|x: int|
                                0 <= x < self.tasks@.len() ==> task_wf(
                                    #[trigger] self.tasks@[x]@,
                                ),
                        decreases count - j,
                    {
                        let mut pj = clone_path(&p);
                        pj.push(j);
                        let ghost prev = tasks_view(self.tasks@);
                        self.tasks.push(Task::Enter(pj));
                        proof {
                            assert(tasks_view(self.tasks@) =~= prev.push(TaskV::Enter(p@.push(j))));
                            assert(mid + spec_child_tasks(p@, j + 1) =~= (mid + spec_child_tasks(
                                p@,
                                j as int,
                            )).push(TaskV::Enter(p@.push(j))));
                        }
                        j += 1;
                    }
                    StepEvent::Drawn
                } else {
                    StepEvent::Drawn
                }
            },
        }
    }
}

/// Every node a valid path of a well-formed tree leads to is well formed.
pub proof fn lemma_node_at_inv(o: ObjectV, path: Seq<usize>, depth: int)
    requires
        obj_inv(o),
    ensures
        match spec_node_at(o, path, depth) {
            Some(n) => obj_inv(n),
            None => true,
        },
    decreases path.len() - depth,
{
    if 0 <= depth && depth < path.len() && (path[depth] as int) < o.children.len() {
        lemma_objs_inv_index(o.children, path[depth] as int);
        lemma_node_at_inv(o.children[path[depth] as int], path, depth + 1);
    }
}

impl Ui {
    /// Resolves the acting node from the script context slot and performs
    /// an operation on it.  With no node currently executing, or a context
    /// pointing outside the tree, nothing happens and nothing is reported:
    /// the call fails safely.
    fn ctxApply(&mut self, op: NodeOp) -> (r: Option<OpResult>)
        requires
            ui_inv(*old(self)),
        ensures
            ui_inv(*final(self)),
            final(self).loadPath == old(self).loadPath,
            final(self).env == old(self).env,
            final(self).shader == old(self).shader,
            final(self).projection == old(self).projection,
            final(self).view == old(self).view,
            final(self).tasks == old(self).tasks,
            final(self).frame == old(self).frame,
            final(self).frameActive == old(self).frameActive,
            final(self).ctx == old(self).ctx,
            match old(self).ctx {
                None => r is None && final(self).root == old(self).root,
                Some(p) => match spec_node_at(old(self).root@, p@, 0) {
                    None => r is None && final(self).root@ == old(self).root@,
                    Some(n) => final(self).root@ == spec_apply_at(
                        old(self).root@,
                        p@,
                        0,
                        op@,
                        old(self).env.palette.colors@,
                    ) && (r matches Some(res) && spec_op_result(op@, n, res)),
                },
            },
    {
        match &self.ctx {
            Some(p) => apply_at(&mut self.root, p, 0, &op, &self.env.palette),
            None => None,
        }
    }

    /// The acting node, for read-only queries; with no valid context,
    /// nothing.
    fn ctxNode(&self) -> (r: Option<&Object>)
        ensures
            match self.ctx {
                None => r is None,
                Some(p) => match spec_node_at(self.root@, p@, 0) {
                    None => r is None,
                    Some(n) => r matches Some(f) && f@ == n,
                },
            },
    {
        match &self.ctx {
            Some(p) => node_at(&self.root, p, 0),
            None => None,
        }
    }

    /// Applies a transform change to the acting node's sprite; reports
    /// whether a node was acting.
    pub fn imageTransform(&mut self, op: TransformOp) -> (ok: bool)
        requires
            ui_inv(*old(self)),
        ensures
            ui_inv(*final(self)),
            final(self).loadPath == old(self).loadPath,
            final(self).env == old(self).env,
            final(self).frame == old(self).frame,
            final(self).tasks == old(self).tasks,
            final(self).ctx == old(self).ctx,
            match old(self).ctx {
                None => !ok && final(self).root == old(self).root,
                Some(p) => match spec_node_at(old(self).root@, p@, 0) {
                    None => !ok && final(self).root@ == old(self).root@,
                    Some(n) => ok && final(self).root@ == spec_apply_at(
                        old(self).root@,
                        p@,
                        0,
                        NodeOpV::ImageTransform(op),
                        old(self).env.palette.colors@,
                    ),
                },
            },
    {
        self.ctxApply(NodeOp::ImageTransform(op)).is_some()
    }

    /// Applies a transform change to the acting node's text.
    pub fn textTransform(&mut self, op: TransformOp) -> (ok: bool)
        requires
            ui_inv(*old(self)),
        ensures
            ui_inv(*final(self)),
            final(self).loadPath == old(self).loadPath,
            final(self).env == old(self).env,
            final(self).frame == old(self).frame,
            final(self).tasks == old(self).tasks,
            final(self).ctx == old(self).ctx,
            match old(self).ctx {
                None => !ok && final(self).root == old(self).root,
                Some(p) => match spec_node_at(old(self).root@, p@, 0) {
                    None => !ok && final(self).root@ == old(self).root@,
                    Some(n) => ok && final(self).root@ == spec_apply_at(
                        old(self).root@,
                        p@,
                        0,
                        NodeOpV::TextTransform(op),
                        old(self).env.palette.colors@,
                    ),
                },
            },
    {
        self.ctxApply(NodeOp::TextTransform(op)).is_some()
    }

    /// Switches the acting node's sprite to the named animation.
    pub fn imageSetAnimation(&mut self, name: &str) -> (ok: bool)
        requires
            ui_inv(*old(self)),
        ensures
            ui_inv(*final(self)),
            final(self).loadPath == old(self).loadPath,
            final(self).env == old(self).env,
            final(self).frame == old(self).frame,
            final(self).tasks == old(self).tasks,
            final(self).ctx == old(self).ctx,
            match old(self).ctx {
                None => !ok && final(self).root == old(self).root,
                Some(p) => match spec_node_at(old(self).root@, p@, 0) {
                    None => !ok && final(self).root@ == old(self).root@,
                    Some(n) => ok && final(self).root@ == spec_apply_at(
                        old(self).root@,
                        p@,
                        0,
                        NodeOpV::ImageSetAnimation(name@),
                        old(self).env.palette.colors@,
                    ),
                },
            },
    {
        self.ctxApply(NodeOp::ImageSetAnimation(name.to_owned())).is_some()
    }

    /// Replaces the acting node's text with parsed markup.
    pub fn textSetString(&mut self, s: &str) -> (ok: bool)
        requires
            ui_inv(*old(self)),
        ensures
            ui_inv(*final(self)),
            final(self).loadPath == old(self).loadPath,
            final(self).env == old(self).env,
            final(self).frame == old(self).frame,
            final(self).tasks == old(self).tasks,
            final(self).ctx == old(self).ctx,
            match old(self).ctx {
                None => !ok && final(self).root == old(self).root,
                Some(p) => match spec_node_at(old(self).root@, p@, 0) {
                    None => !ok && final(self).root@ == old(self).root@,
                    Some(n) => ok && final(self).root@ == spec_apply_at(
                        old(self).root@,
                        p@,
                        0,
                        NodeOpV::TextSetString(s@),
                        old(self).env.palette.colors@,
                    ),
                },
            },
    {
        self.ctxApply(NodeOp::TextSetString(s.to_owned())).is_some()
    }

    /// The acting node's text bounds and dimensions, laying the text out
    /// first if it is dirty.
    pub fn textQuery(&mut self) -> (r: Option<(Rect, Vec2i)>)
        requires
            ui_inv(*old(self)),
        ensures
            ui_inv(*final(self)),
            final(self).loadPath == old(self).loadPath,
            final(self).env == old(self).env,
            final(self).frame == old(self).frame,
            final(self).tasks == old(self).tasks,
            final(self).ctx == old(self).ctx,
            match old(self).ctx {
                None => r is None && final(self).root == old(self).root,
                Some(p) => match spec_node_at(old(self).root@, p@, 0) {
                    None => r is None && final(self).root@ == old(self).root@,
                    Some(n) => final(self).root@ == spec_apply_at(
                        old(self).root@,
                        p@,
                        0,
                        NodeOpV::TextQuery,
                        old(self).env.palette.colors@,
                    ) && (r matches Some(q) && q.0 == spec_bounds(
                        n.text.ts,
                        spec_dims_of_v(n.text),
                    ) && q.1 == spec_dims_of_v(n.text)),
                },
            },
    {
        match self.ctxApply(NodeOp::TextQuery) {
            Some(OpResult::TextInfo(b, d)) => Some((b, d)),
            _ => None,
        }
    }

    /// Binds a numeric variable of the acting node; its string part is
    /// cleared, as a numeric write replaces the whole variable.
    pub fn objectSetNum(&mut self, name: &str, num: i64) -> (ok: bool)
        requires
            ui_inv(*old(self)),
        ensures
            ui_inv(*final(self)),
            final(self).loadPath == old(self).loadPath,
            final(self).env == old(self).env,
            final(self).frame == old(self).frame,
            final(self).tasks == old(self).tasks,
            final(self).ctx == old(self).ctx,
            match old(self).ctx {
                None => !ok && final(self).root == old(self).root,
                Some(p) => match spec_node_at(old(self).root@, p@, 0) {
                    None => !ok && final(self).root@ == old(self).root@,
                    Some(n) => ok && final(self).root@ == spec_apply_at(
                        old(self).root@,
                        p@,
                        0,
                        NodeOpV::VarSet(
                            name@,
                            VariableV { num: num as int, string: Seq::empty() },
                        ),
                        old(self).env.palette.colors@,
                    ),
                },
            },
    {
        self.ctxApply(
            NodeOp::VarSet(name.to_owned(), Variable { num, string: String::new() }),
        ).is_some()
    }

    /// Binds a string variable of the acting node; its numeric part is
    /// cleared.
    pub fn objectSetStr(&mut self, name: &str, value: &str) -> (ok: bool)
        requires
            ui_inv(*old(self)),
        ensures
            ui_inv(*final(self)),
            final(self).loadPath == old(self).loadPath,
            final(self).env == old(self).env,
            final(self).frame == old(self).frame,
            final(self).tasks == old(self).tasks,
            final(self).ctx == old(self).ctx,
            match old(self).ctx {
                None => !ok && final(self).root == old(self).root,
                Some(p) => match spec_node_at(old(self).root@, p@, 0) {
                    None => !ok && final(self).root@ == old(self).root@,
                    Some(n) => ok && final(self).root@ == spec_apply_at(
                        old(self).root@,
                        p@,
                        0,
                        NodeOpV::VarSet(name@, VariableV { num: 0, string: value@ }),
                        old(self).env.palette.colors@,
                    ),
                },
            },
    {
        self.ctxApply(
            NodeOp::VarSet(name.to_owned(), Variable { num: 0, string: value.to_owned() }),
        ).is_some()
    }

    /// The acting node's sprite transform.
    pub fn imageTransformState(&self) -> (r: Option<Transform2D>)
        ensures
            match self.ctx {
                None => r is None,
                Some(p) => match spec_node_at(self.root@, p@, 0) {
                    None => r is None,
                    Some(n) => r == Some(n.image.ts),
                },
            },
    {
        match self.ctxNode() {
            Some(n) => Some(n.image.ts),
            None => None,
        }
    }

    /// The acting node's text transform.
    pub fn textTransformState(&self) -> (r: Option<Transform2D>)
        ensures
            match self.ctx {
                None => r is None,
                Some(p) => match spec_node_at(self.root@, p@, 0) {
                    None => r is None,
                    Some(n) => r == Some(n.text.ts),
                },
            },
    {
        match self.ctxNode() {
            Some(n) => Some(n.text.ts),
            None => None,
        }
    }

    /// The acting node's sprite cell size in pixels.
    pub fn imageSize(&self) -> (r: Option<Vec2i>)
        ensures
            match self.ctx {
                None => r is None,
                Some(p) => match spec_node_at(self.root@, p@, 0) {
                    None => r is None,
                    Some(n) => r == Some(n.image.animation.frame),
                },
            },
    {
        match self.ctxNode() {
            Some(n) => Some(n.image.animation.getFrameSize()),
            None => None,
        }
    }

    /// The acting node's sprite bounds: one cell taken through the sprite
    /// transform.
    pub fn imageBounds(&self) -> (r: Option<Rect>)
        requires
            ui_inv(*self),
        ensures
            match self.ctx {
                None => r is None,
                Some(p) => match spec_node_at(self.root@, p@, 0) {
                    None => r is None,
                    Some(n) => r == Some(
                        spec_bounds(
                            n.image.ts,
                            Vec2i {
                                x: (n.image.animation.frame.x * 1000) as i64,
                                y: (n.image.animation.frame.y * 1000) as i64,
                            },
                        ),
                    ),
                },
            },
    {
        match self.ctxNode() {
            Some(n) => {
                proof {
                    if self.ctx is Some {
                        lemma_node_at_inv(self.root@, self.ctx->0@, 0);
                    }
                }
                Some(n.image.getBounds())
            },
            None => None,
        }
    }

    /// The acting node's plain text, markup stripped.
    pub fn textGetString(&self) -> (r: Option<String>)
        ensures
            match self.ctx {
                None => r is None,
                Some(p) => match spec_node_at(self.root@, p@, 0) {
                    None => r is None,
                    Some(n) => r matches Some(s) && s@ == crate::text::spec_runs_text(
                        n.text.runs,
                    ),
                },
            },
    {
        match self.ctxNode() {
            Some(n) => Some(n.text.getString()),
            None => None,
        }
    }

    /// A variable of the acting node; a missing name reads as the default
    /// zero/empty variable.
    pub fn objectGetVar(&self, name: &str) -> (r: Option<Variable>)
        ensures
            match self.ctx {
                None => r is None,
                Some(p) => match spec_node_at(self.root@, p@, 0) {
                    None => r is None,
                    Some(n) => r matches Some(v) && v@ == (match crate::env::spec_varv_of(
                        n.vars,
                        name@,
                    ) {
                        Some(x) => x,
                        None => crate::env::default_var(),
                    }),
                },
            },
    {
        match self.ctxNode() {
            Some(n) => Some(n.vars.get(name)),
            None => None,
        }
    }

    /// The acting node's name.
    pub fn objectName(&self) -> (r: Option<String>)
        ensures
            match self.ctx {
                None => r is None,
                Some(p) => match spec_node_at(self.root@, p@, 0) {
                    None => r is None,
                    Some(n) => r matches Some(s) && s@ == n.name,
                },
            },
    {
        match self.ctxNode() {
            Some(n) => Some(n.name.clone()),
            None => None,
        }
    }

    /// Asks the window to close.
    pub fn close(&mut self)
        ensures
            final(self).env.running == false,
            final(self).root == old(self).root,
            final(self).loadPath == old(self).loadPath,
    {
        self.env.running = false;
    }
}

/// The node a path leads to, for read-only queries.
fn node_at<'a>(o: &'a Object, path: &Vec<usize>, depth: usize) -> (r: Option<&'a Object>)
    requires
        depth <= path@.len(),
    ensures
        match spec_node_at(o@, path@, depth as int) {
            None => r is None,
            Some(n) => r matches Some(found) && found@ == n,
        },
    decreases path@.len() - depth,
{
    if depth == path.len() {
        Some(o)
    } else {
        let idx = path[depth];
        if idx < o.children.len() {
            proof {
                lemma_objs_view_index(o.children@, idx as int);
            }
            node_at(&o.children[idx], path, depth + 1)
        } else {
            proof {
                lemma_objs_view_len(o.children@);
            }
            None
        }
    }
}

} // verus!
