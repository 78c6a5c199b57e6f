use scene_ui::anim::{Animation, Animator, Frame};
use scene_ui::desc::DataValue;
use scene_ui::geom::Rect;

fn frame_obj(id: i64, duration_ms: i64) -> DataValue {
    DataValue::Obj(vec![
        ("frame".to_string(), DataValue::Num(id * 1000)),
        ("duration".to_string(), DataValue::Num(duration_ms)),
    ])
}

fn anim_obj(name: &str, repeat: i64, frames: Vec<DataValue>) -> DataValue {
    DataValue::Obj(vec![
        ("name".to_string(), DataValue::Str(name.to_string())),
        ("repeat".to_string(), DataValue::Num(repeat * 1000)),
        ("frames".to_string(), DataValue::Arr(frames)),
    ])
}

fn animator_desc(anims: Vec<DataValue>) -> DataValue {
    DataValue::Obj(vec![
        ("texture".to_string(), DataValue::Str("atlas.png".to_string())),
        (
            "size".to_string(),
            DataValue::Obj(vec![
                ("x".to_string(), DataValue::Num(64_000)),
                ("y".to_string(), DataValue::Num(32_000)),
            ]),
        ),
        (
            "frame".to_string(),
            DataValue::Obj(vec![
                ("x".to_string(), DataValue::Num(32_000)),
                ("y".to_string(), DataValue::Num(32_000)),
            ]),
        ),
        ("animations".to_string(), DataValue::Arr(anims)),
    ])
}

#[test]
fn animation_parse_reads_frames() {
    let a = Animation::parse(&anim_obj(
        "walk",
        3,
        vec![frame_obj(0, 500), frame_obj(1, 250)],
    ));
    assert_eq!(a.name, "walk");
    assert_eq!(a.repeat, 3);
    assert_eq!(a.frames.len(), 2);
    assert_eq!(a.frames[0], Frame { id: 0, duration: 500 });
    assert_eq!(a.frames[1], Frame { id: 1, duration: 250 });
    assert_eq!(a.currentFrame, 0);
    assert_eq!(a.currentTime, 0);
}

#[test]
fn repeat_zero_cycles_forever() {
    let mut a = Animation::parse(&anim_obj(
        "idle",
        0,
        vec![frame_obj(0, 100), frame_obj(1, 100), frame_obj(2, 100)],
    ));
    let mut seen = Vec::new();
    for _ in 0..12 {
        seen.push(a.currentFrame);
        a.update(100);
    }
    // the index cycles 0,1,2,0,1,2,... without ever halting
    assert_eq!(seen, vec![0, 1, 2, 0, 1, 2, 0, 1, 2, 0, 1, 2]);
    assert_eq!(a.repeated, 0);
}

#[test]
fn repeat_n_clamps_on_last_frame() {
    let mut a = Animation::parse(&anim_obj(
        "boom",
        2,
        vec![frame_obj(0, 100), frame_obj(1, 100)],
    ));
    for _ in 0..20 {
        a.update(100);
    }
    // two full cycles have played: clamped at the last frame, frozen
    assert_eq!(a.currentFrame, 1);
    assert_eq!(a.repeated, 2);
    let frozen_time = a.currentTime;
    a.update(1000);
    assert_eq!(a.currentFrame, 1);
    assert_eq!(a.currentTime, frozen_time);
}

#[test]
fn elapsed_time_splits_across_frames() {
    // frames of 0.5 s each; after 0.6 s the second frame shows with
    // 0.1 s accumulated
    let mut a = Animation::parse(&anim_obj(
        "idle",
        0,
        vec![frame_obj(0, 500), frame_obj(1, 500)],
    ));
    a.update(600);
    assert_eq!(a.currentFrame, 1);
    assert_eq!(a.currentTime, 100);
}

#[test]
fn update_without_frames_is_a_no_op() {
    let mut a = Animation::new();
    a.update(1000);
    assert_eq!(a.currentFrame, 0);
    assert_eq!(a.currentTime, 0);
}

#[test]
fn animator_load_slices_atlas() {
    let mut an = Animator::new();
    an.load(&animator_desc(vec![]));
    assert_eq!(an.texture, "atlas.png");
    // a 64x32 atlas of 32x32 cells: two cells side by side
    assert_eq!(an.frames.len(), 2);
    assert_eq!(an.frames[0], Rect { x: 0, y: 0, w: 500_000, h: 1_000_000 });
    assert_eq!(an.frames[1], Rect { x: 500_000, y: 0, w: 500_000, h: 1_000_000 });
}

#[test]
fn current_frame_of_empty_animator_is_zero_rect() {
    let an = Animator::new();
    assert_eq!(an.getCurrentFrame(), Rect { x: 0, y: 0, w: 0, h: 0 });
}

#[test]
fn set_current_animation_same_name_keeps_state() {
    // switching to the already-active name leaves elapsed time and
    // frame index untouched; a different valid name rewinds everything
    let mut an = Animator::new();
    an.load(&animator_desc(vec![
        anim_obj("idle", 0, vec![frame_obj(0, 100), frame_obj(1, 100)]),
        anim_obj("run", 0, vec![frame_obj(0, 100), frame_obj(1, 100)]),
    ]));
    an.update(150);
    assert_eq!(an.animations[0].currentFrame, 1);
    assert_eq!(an.animations[0].currentTime, 50);

    an.setCurrentAnimation("idle");
    assert_eq!(an.currentAnimation, 0);
    assert_eq!(an.animations[0].currentFrame, 1);
    assert_eq!(an.animations[0].currentTime, 50);

    an.setCurrentAnimation("run");
    assert_eq!(an.currentAnimation, 1);
    assert_eq!(an.animations[0].currentFrame, 0);
    assert_eq!(an.animations[0].currentTime, 0);
    assert_eq!(an.animations[1].currentFrame, 0);
    assert_eq!(an.animations[1].currentTime, 0);
}

#[test]
fn set_current_animation_unknown_name_is_a_no_op() {
    let mut an = Animator::new();
    an.load(&animator_desc(vec![anim_obj(
        "idle",
        0,
        vec![frame_obj(0, 100)],
    )]));
    an.update(50);
    an.setCurrentAnimation("missing");
    assert_eq!(an.currentAnimation, 0);
    assert_eq!(an.animations[0].currentTime, 50);
}

#[test]
fn animator_frame_lookup_uses_cell_id() {
    let mut an = Animator::new();
    an.load(&animator_desc(vec![anim_obj(
        "idle",
        0,
        vec![frame_obj(1, 100), frame_obj(0, 100)],
    )]));
    assert_eq!(an.getCurrentFrame(), Rect { x: 500_000, y: 0, w: 500_000, h: 1_000_000 });
    an.update(100);
    assert_eq!(an.getCurrentFrame(), Rect { x: 0, y: 0, w: 500_000, h: 1_000_000 });
}

#[test]
fn out_of_grid_cell_id_degrades_to_zero_rect() {
    let mut an = Animator::new();
    an.load(&animator_desc(vec![anim_obj(
        "idle",
        0,
        vec![frame_obj(9, 100)],
    )]));
    assert_eq!(an.getCurrentFrame(), Rect { x: 0, y: 0, w: 0, h: 0 });
}
