use scene_ui::desc::{DataValue, Element};
use scene_ui::geom::{Rect, Vec2i};
use scene_ui::node::{Assets, Object};
use scene_ui::texcache::TextureCache;
use scene_ui::ui::{DrawCmd, ScriptCall, StepEvent, TransformOp, Ui};

fn elem(name: &str, attrs: Vec<(&str, &str)>, text: &str, children: Vec<Element>) -> Element {
    Element {
        name: name.to_string(),
        attrs: attrs
            .into_iter()
            .map(|(k, v)| (k.to_string(), v.to_string()))
            .collect(),
        text: text.to_string(),
        children,
    }
}

fn run_frame(ui: &mut Ui) -> Vec<(usize, ScriptCall)> {
    let mut scripts = Vec::new();
    ui.beginFrame();
    loop {
        match ui.step() {
            StepEvent::Finished => break,
            StepEvent::Script(path, call) => scripts.push((path.len(), call)),
            StepEvent::Drawn => {}
        }
    }
    scripts
}

fn kinds(frame: &[DrawCmd]) -> Vec<&'static str> {
    frame
        .iter()
        .map(|c| match c {
            DrawCmd::ActivateShader(_) => "shader",
            DrawCmd::SetView(_) => "view",
            DrawCmd::SetProjection(_) => "proj",
            DrawCmd::ImageQuad { .. } => "image",
            DrawCmd::TextQuads { .. } => "text",
        })
        .collect()
}

#[test]
fn object_parse_reads_declaration() {
    let scene = elem(
        "object",
        vec![("name", "root"), ("order", "tic"), ("script", "boot.lua")],
        "",
        vec![
            elem("object", vec![("name", "a")], "", vec![]),
            elem("var", vec![("name", "hp"), ("num", "1.5"), ("str", "full")], "", vec![]),
        ],
    );
    let o = Object::parse(&scene, &Assets::new(), &scene_ui::env::Palette::new());
    assert_eq!(o.name, "root");
    assert_eq!(o.order, ['t', 'i', 'c']);
    assert_eq!(o.script.as_deref(), Some("boot.lua"));
    assert_eq!(o.children.len(), 1);
    assert_eq!(o.children[0].name, "a");
    let v = o.vars.get("hp");
    assert_eq!(v.num, 1_500);
    assert_eq!(v.string, "full");
    let missing = o.vars.get("mp");
    assert_eq!(missing.num, 0);
    assert_eq!(missing.string, "");
}

#[test]
fn non_object_element_parses_to_empty_node() {
    let o = Object::parse(
        &elem("scene", vec![("name", "x")], "", vec![]),
        &Assets::new(),
        &scene_ui::env::Palette::new(),
    );
    assert_eq!(o.name, "");
    assert_eq!(o.order, ['i', 't', 'c']);
    assert!(o.script.is_none());
}

#[test]
fn tic_order_draws_children_then_image_then_text() {
    // with order "tic" one frame draws the children in reverse
    // declaration order, then the image, then the text
    let scene = elem(
        "object",
        vec![("name", "root"), ("order", "tic")],
        "",
        vec![
            elem("text", vec![], "rrr", vec![]),
            elem(
                "object",
                vec![("name", "first")],
                "",
                vec![elem("text", vec![], "a", vec![])],
            ),
            elem(
                "object",
                vec![("name", "second")],
                "",
                vec![elem("text", vec![], "bb", vec![])],
            ),
        ],
    );
    let mut ui = Ui::new();
    ui.load(&scene, &Assets::new());
    run_frame(&mut ui);
    assert_eq!(
        kinds(&ui.frame),
        vec![
            "shader", "view", "proj",
            // second child first (reverse declaration order)
            "text", "image",
            // then the first child
            "text", "image",
            // then the root's image, then its text
            "image", "text",
        ]
    );
    // the reverse order shows in the vertex counts: "bb" lays out eight
    // vertices, "a" four, the root's "rrr" twelve
    let text_lens: Vec<usize> = ui
        .frame
        .iter()
        .filter_map(|c| match c {
            DrawCmd::TextQuads { vertices, .. } => Some(vertices.len()),
            _ => None,
        })
        .collect();
    assert_eq!(text_lens, vec![8, 4, 12]);
}

#[test]
fn unknown_order_characters_are_skipped() {
    let scene = elem("object", vec![("name", "r"), ("order", "zzz")], "", vec![]);
    let mut ui = Ui::new();
    ui.load(&scene, &Assets::new());
    run_frame(&mut ui);
    assert_eq!(kinds(&ui.frame), vec!["shader", "view", "proj"]);
}

#[test]
fn duplicate_order_characters_redraw() {
    let scene = elem("object", vec![("name", "r"), ("order", "iii")], "", vec![]);
    let mut ui = Ui::new();
    ui.load(&scene, &Assets::new());
    run_frame(&mut ui);
    assert_eq!(kinds(&ui.frame), vec!["shader", "view", "proj", "image", "image", "image"]);
}

#[test]
fn script_init_runs_once_then_update() {
    let scene = elem(
        "object",
        vec![("name", "r"), ("script", "r.lua")],
        "",
        vec![],
    );
    let mut ui = Ui::new();
    ui.load(&scene, &Assets::new());
    let first = run_frame(&mut ui);
    assert_eq!(first, vec![(0, ScriptCall::Init)]);
    ui.frame.clear();
    let second = run_frame(&mut ui);
    assert_eq!(second, vec![(0, ScriptCall::Update)]);
    let third = run_frame(&mut ui);
    assert_eq!(third, vec![(0, ScriptCall::Update)]);
}

#[test]
fn reload_request_waits_for_frame_end() {
    // a reload requested during a script's Update is not applied until
    // the whole frame has been drawn; the frame completes on the old tree
    let scene = elem(
        "object",
        vec![("name", "old_root"), ("script", "r.lua")],
        "",
        vec![elem("object", vec![("name", "kid")], "", vec![])],
    );
    let mut ui = Ui::new();
    ui.load(&scene, &Assets::new());

    ui.beginFrame();
    let mut saw_script = false;
    loop {
        match ui.step() {
            StepEvent::Finished => break,
            StepEvent::Script(_, _) => {
                saw_script = true;
                // the script asks for a reload mid-frame
                ui.requestReload("res/ui/next.xml");
                // the tree is untouched: the rest of this frame still
                // draws the old scene
                assert_eq!(ui.root.name, "old_root");
            }
            StepEvent::Drawn => {}
        }
    }
    assert!(saw_script);
    assert_eq!(ui.root.name, "old_root");
    assert_eq!(ui.loadPath, "res/ui/next.xml");

    // at the frame boundary the request is drained exactly once and the
    // new scene is loaded
    let pending = ui.takePendingReload();
    assert_eq!(pending.as_deref(), Some("res/ui/next.xml"));
    assert_eq!(ui.takePendingReload(), None);
    let next = elem("object", vec![("name", "new_root")], "", vec![]);
    ui.load(&next, &Assets::new());
    assert_eq!(ui.root.name, "new_root");
}

#[test]
fn bridge_calls_fail_safely_without_context() {
    let mut ui = Ui::new();
    assert!(!ui.imageTransform(TransformOp::SetRotation(90_000)));
    assert!(!ui.textSetString("x"));
    assert!(!ui.objectSetNum("a", 1));
    assert!(ui.objectName().is_none());
    assert!(ui.textGetString().is_none());
    assert!(ui.imageBounds().is_none());
    assert!(ui.textQuery().is_none());
}

#[test]
fn bridge_acts_on_the_node_running_its_script() {
    let scene = elem(
        "object",
        vec![("name", "hero"), ("script", "hero.lua")],
        "",
        vec![],
    );
    let mut ui = Ui::new();
    ui.load(&scene, &Assets::new());
    ui.beginFrame();
    loop {
        match ui.step() {
            StepEvent::Finished => break,
            StepEvent::Script(_, _) => {
                assert_eq!(ui.objectName().as_deref(), Some("hero"));
                assert!(ui.objectSetNum("hp", 5_000));
                assert_eq!(ui.objectGetVar("hp").unwrap().num, 5_000);
                assert_eq!(ui.objectGetVar("hp").unwrap().string, "");
                assert!(ui.objectSetStr("title", "the bold"));
                assert_eq!(ui.objectGetVar("title").unwrap().string, "the bold");
                assert_eq!(ui.objectGetVar("title").unwrap().num, 0);

                assert!(ui.imageTransform(TransformOp::SetPosition(Vec2i { x: 4_000, y: 5_000 })));
                assert!(ui.imageTransform(TransformOp::Translate(Vec2i { x: 1_000, y: 0 })));
                let ts = ui.imageTransformState().unwrap();
                assert_eq!(ts.position, Vec2i { x: 5_000, y: 5_000 });

                assert!(ui.textSetString("hi^(*)yo"));
                assert_eq!(ui.textGetString().as_deref(), Some("hiyo"));

                let (bounds, dims) = ui.textQuery().unwrap();
                // no font is loaded: everything lays out to a point at the
                // text transform's origin
                assert_eq!(dims, Vec2i { x: 0, y: 0 });
                assert_eq!(bounds, Rect { x: 0, y: 0, w: 0, h: 0 });
            }
            StepEvent::Drawn => {}
        }
    }
}

#[test]
fn image_quad_carries_animator_state() {
    let desc = DataValue::Obj(vec![
        ("texture".to_string(), DataValue::Str("atlas.png".to_string())),
        (
            "size".to_string(),
            DataValue::Obj(vec![
                ("x".to_string(), DataValue::Num(64_000)),
                ("y".to_string(), DataValue::Num(32_000)),
            ]),
        ),
        (
            "frame".to_string(),
            DataValue::Obj(vec![
                ("x".to_string(), DataValue::Num(32_000)),
                ("y".to_string(), DataValue::Num(32_000)),
            ]),
        ),
        (
            "animations".to_string(),
            DataValue::Arr(vec![DataValue::Obj(vec![
                ("name".to_string(), DataValue::Str("idle".to_string())),
                (
                    "frames".to_string(),
                    DataValue::Arr(vec![DataValue::Obj(vec![
                        ("frame".to_string(), DataValue::Num(1_000)),
                        ("duration".to_string(), DataValue::Num(100)),
                    ])]),
                ),
            ])]),
        ),
    ]);
    let mut assets = Assets::new();
    assets.jsons.push(("hero.json".to_string(), desc));
    let scene = elem(
        "object",
        vec![("name", "r"), ("order", "izz")],
        "",
        vec![elem("image", vec![("anim", "hero.json")], "", vec![])],
    );
    let mut ui = Ui::new();
    ui.load(&scene, &assets);
    run_frame(&mut ui);
    let quad = ui
        .frame
        .iter()
        .find_map(|c| match c {
            DrawCmd::ImageQuad { texture, size, uv, .. } => {
                Some((texture.clone(), *size, *uv))
            }
            _ => None,
        })
        .unwrap();
    assert_eq!(quad.0, "atlas.png");
    assert_eq!(quad.1, Vec2i { x: 32, y: 32 });
    assert_eq!(quad.2, Rect { x: 500_000, y: 0, w: 500_000, h: 1_000_000 });
}

#[test]
fn texture_cache_uploads_each_path_once() {
    let mut cache = TextureCache::new();
    assert_eq!(cache.getTexture("a.png"), None);
    cache.insert("a.png", 7);
    assert_eq!(cache.getTexture("a.png"), Some(7));
    cache.insert("b.png", 8);
    assert_eq!(cache.getTexture("a.png"), Some(7));
    assert_eq!(cache.getTexture("b.png"), Some(8));
}

#[test]
fn shader_reports_loaded_state() {
    let mut s = scene_ui::shader::Shader::new();
    assert!(!s.isLoaded());
    s.setHandles(1, 2, 3);
    assert!(s.isLoaded());
}

#[test]
fn env_input_snapshot_answers_queries() {
    let mut env = scene_ui::env::Env::new();
    env.mouseLeft = true;
    env.keysDown.push("Space".to_string());
    env.keyEvent = Some(scene_ui::env::KeyEvent {
        key: "Space".to_string(),
        action: scene_ui::env::KeyAction::Pressed,
    });
    assert!(env.mousePressed("Left"));
    assert!(!env.mousePressed("Right"));
    assert!(!env.mousePressed("Wheel"));
    assert!(env.keyPressed("Space"));
    assert!(!env.keyPressed("Enter"));
    assert!(env.keyJustPressed("Space"));
    assert!(!env.keyJustPressed("Enter"));
    assert!(!env.mouseJustPressed("Left"));
}
