use vstd::prelude::*;
use crate::desc::{spec_int, spec_milli, spec_str, DataValue};
use crate::geom::{Rect, Vec2i, UV_ONE};
use crate::util::{sat_add_u64, sat_add_u64_spec};

verus! {

/// One cell of an animation timeline: which atlas cell to show and for how
/// many milliseconds.
#[derive(Clone, Copy, Debug, PartialEq, Eq, Structural)]
pub struct Frame {
    pub id: u8,
    pub duration: u64,
}

/// A named timeline over atlas cells, together with its playback state.
/// `repeat == 0` plays forever; `repeat == n > 0` freezes on the last frame
/// once `n` full cycles have played.
#[derive(Debug)]
pub struct Animation {
    pub name: String,
    pub repeat: i32,
    pub repeated: i32,
    pub frames: Vec<Frame>,
    pub currentTime: u64,
    pub currentFrame: usize,
}

/// The mathematical playback state of an [`Animation`].
pub ghost struct AnimationV {
    pub name: Seq<char>,
    pub repeat: int,
    pub repeated: int,
    pub frames: Seq<Frame>,
    pub currentTime: int,
    pub currentFrame: int,
}

impl View for Animation {
    type V = AnimationV;

    open spec fn view(&self) -> AnimationV {
        AnimationV {
            name: self.name@,
            repeat: self.repeat as int,
            repeated: self.repeated as int,
            frames: self.frames@,
            currentTime: self.currentTime as int,
            currentFrame: self.currentFrame as int,
        }
    }
}

/// Playback-state well-formedness: the frame index points at a frame (or at
/// zero while there are no frames) and the cycle counter never passes the
/// configured repeat count.
pub open spec fn anim_inv(a: AnimationV) -> bool {
    &&& 0 <= a.currentFrame
    &&& a.frames.len() == 0 ==> a.currentFrame == 0
    &&& a.frames.len() > 0 ==> a.currentFrame < a.frames.len()
    &&& 0 <= a.currentTime
    &&& 0 <= a.repeated
    &&& a.repeat >= 1 ==> a.repeated <= a.repeat
}

/// Consumes accumulated time frame by frame: while the accumulated time
/// covers the current frame's duration, the duration is subtracted and the
/// frame index advances.  Advancing past the end wraps to frame zero when
/// `repeat == 0`; otherwise it counts one finished cycle and, once the
/// configured count is reached, clamps to the last frame and stops.  A frame
/// of zero duration advances only one step per call, so playback never spins
/// in place.  Returns the new `(currentFrame, currentTime, repeated)`.
pub open spec fn spec_advance(
    frames: Seq<Frame>,
    repeat: int,
    cur: int,
    time: int,
    repeated: int,
) -> (int, int, int)
    decreases time,
{
    if frames.len() == 0 || cur < 0 || cur >= frames.len() {
        (cur, time, repeated)
    } else {
        let d = frames[cur].duration as int;
        if time < d {
            (cur, time, repeated)
        } else if cur + 1 < frames.len() {
            if d == 0 {
                (cur + 1, time - d, repeated)
            } else {
                spec_advance(frames, repeat, cur + 1, time - d, repeated)
            }
        } else if repeat == 0 {
            if d == 0 {
                (0, time - d, repeated)
            } else {
                spec_advance(frames, repeat, 0, time - d, repeated)
            }
        } else if repeated + 1 >= repeat {
            (frames.len() - 1, time - d, repeated + 1)
        } else {
            if d == 0 {
                (0, time - d, repeated + 1)
            } else {
                spec_advance(frames, repeat, 0, time - d, repeated + 1)
            }
        }
    }
}

/// What one `update(dt)` call does to the playback state: nothing while
/// there are no frames or the animation is frozen; otherwise it adds `dt` to
/// the accumulated time (saturating) and advances.
pub open spec fn spec_update(a: AnimationV, dt: int) -> AnimationV {
    if a.frames.len() == 0 {
        a
    } else if a.repeat != 0 && a.repeated >= a.repeat {
        a
    } else {
        let t0 = sat_add_u64_spec(a.currentTime, dt);
        let r = spec_advance(a.frames, a.repeat, a.currentFrame, t0, a.repeated);
        AnimationV { currentFrame: r.0, currentTime: r.1, repeated: r.2, ..a }
    }
}

/// Advancing keeps the frame index inside `[0, len)`, never decreases the
/// cycle counter, never pushes it past a positive repeat count, and reaches
/// that count only on the last frame.
pub proof fn lemma_advance_bounds(
    frames: Seq<Frame>,
    repeat: int,
    cur: int,
    time: int,
    repeated: int,
)
    requires
        frames.len() > 0,
        0 <= cur < frames.len(),
        0 <= repeated,
        repeat >= 1 ==> repeated < repeat,
    ensures
        ({
            let r = spec_advance(frames, repeat, cur, time, repeated);
            &&& 0 <= r.0 < frames.len()
            &&& time >= 0 ==> r.1 >= 0
            &&& repeated <= r.2
            &&& repeat == 0 ==> r.2 == repeated
            &&& repeat >= 1 ==> r.2 <= repeat
            &&& repeat >= 1 && repeated < repeat && r.2 == repeat ==> r.0 == frames.len() - 1
        }),
    decreases time,
{
    let d = frames[cur].duration as int;
    if time < d {
    } else if cur + 1 < frames.len() {
        if d != 0 {
            lemma_advance_bounds(frames, repeat, cur + 1, time - d, repeated);
        }
    } else if repeat == 0 {
        if d != 0 {
            lemma_advance_bounds(frames, repeat, 0, time - d, repeated);
        }
    } else if repeated + 1 >= repeat {
    } else {
        if d != 0 {
            lemma_advance_bounds(frames, repeat, 0, time - d, repeated + 1);
        }
    }
}

/// With `repeat == 0`, updates cycle the frame index through `[0, len)`
/// forever: the index stays in range, the animation never freezes (the cycle
/// counter stays as it was), and the invariant is preserved, for every
/// elapsed time.
pub proof fn lemma_repeat_zero_cycles_forever(a: AnimationV, dt: int)
    requires
        anim_inv(a),
        a.repeat == 0,
        a.frames.len() > 0,
        0 <= dt,
    ensures
        anim_inv(spec_update(a, dt)),
        0 <= spec_update(a, dt).currentFrame < a.frames.len(),
        spec_update(a, dt).repeated == a.repeated,
        spec_update(a, dt).frames == a.frames,
        spec_update(a, dt).repeat == 0,
{
    let t0 = sat_add_u64_spec(a.currentTime, dt);
    lemma_advance_bounds(a.frames, a.repeat, a.currentFrame, t0, a.repeated);
}

/// With `repeat == n >= 1`, once `n` full cycles have played the frame index
/// is clamped at `len - 1` and stops changing: reaching the configured count
/// happens only on the last frame, and from then on every further update
/// leaves the whole state untouched.
pub proof fn lemma_repeat_clamps_and_freezes(a: AnimationV, dt: int)
    requires
        anim_inv(a),
        a.repeat >= 1,
        a.frames.len() > 0,
        0 <= dt,
    ensures
        anim_inv(spec_update(a, dt)),
        a.repeated < a.repeat && spec_update(a, dt).repeated >= a.repeat ==> spec_update(
            a,
            dt,
        ).currentFrame == a.frames.len() - 1,
        a.repeated >= a.repeat ==> spec_update(a, dt) == a,
{
    if a.repeated < a.repeat {
        let t0 = sat_add_u64_spec(a.currentTime, dt);
        lemma_advance_bounds(a.frames, a.repeat, a.currentFrame, t0, a.repeated);
        let r = spec_advance(a.frames, a.repeat, a.currentFrame, t0, a.repeated);
        if r.2 >= a.repeat {
            assert(r.2 == a.repeat);
        }
    }
}

/// Out-of-range atlas cell numbers read as zero, as the descriptor readers
/// treat any number that does not fit the target type.
pub open spec fn clamp_u8(n: int) -> int {
    if 0 <= n <= 255 {
        n
    } else {
        0
    }
}

/// A negative duration reads as zero.
pub open spec fn clamp_pos(n: int) -> int {
    if n >= 0 {
        n
    } else {
        0
    }
}

/// Folds the entries of one frame object: `frame` picks the atlas cell,
/// `duration` gives milliseconds, anything else is ignored; a later entry
/// wins over an earlier one.
pub open spec fn spec_frame_fold(entries: Seq<(String, DataValue)>, f: Frame) -> Frame
    decreases entries.len(),
{
    if entries.len() == 0 {
        f
    } else {
        let e = entries[0];
        let f1 = if e.0@ == "frame"@ {
            Frame { id: clamp_u8(spec_int(e.1)) as u8, ..f }
        } else if e.0@ == "duration"@ {
            Frame { duration: clamp_pos(spec_milli(e.1)) as u64, ..f }
        } else {
            f
        };
        spec_frame_fold(entries.drop_first(), f1)
    }
}

/// The frame a descriptor value describes; anything but an object gives the
/// zero frame.
pub open spec fn spec_parse_frame(v: DataValue) -> Frame {
    match v {
        DataValue::Obj(e) => spec_frame_fold(e@, Frame { id: 0, duration: 0 }),
        _ => Frame { id: 0, duration: 0 },
    }
}

/// The frame list a descriptor array describes; anything but an array gives
/// no frames.
pub open spec fn spec_frames_list(v: DataValue) -> Seq<Frame> {
    match v {
        DataValue::Arr(m) => m@.map_values(|x: DataValue| spec_parse_frame(x)),
        _ => Seq::empty(),
    }
}

/// Folds the entries of one animation object over a playback state: `name`
/// and `repeat` overwrite, each `frames` array appends in order.
pub open spec fn spec_anim_fold(entries: Seq<(String, DataValue)>, a: AnimationV) -> AnimationV
    decreases entries.len(),
{
    if entries.len() == 0 {
        a
    } else {
        let e = entries[0];
        let a1 = if e.0@ == "name"@ {
            AnimationV { name: spec_str(e.1), ..a }
        } else if e.0@ == "repeat"@ {
            AnimationV { repeat: spec_int(e.1), ..a }
        } else if e.0@ == "frames"@ {
            AnimationV { frames: a.frames + spec_frames_list(e.1), ..a }
        } else {
            a
        };
        spec_anim_fold(entries.drop_first(), a1)
    }
}

/// The animation a descriptor object describes, at rest on its first frame.
pub open spec fn spec_parse_animation(v: DataValue) -> AnimationV {
    let init = AnimationV {
        name: Seq::empty(),
        repeat: 0,
        repeated: 0,
        frames: Seq::empty(),
        currentTime: 0,
        currentFrame: 0,
    };
    match v {
        DataValue::Obj(e) => spec_anim_fold(e@, init),
        _ => init,
    }
}

impl Frame {
    /// Reads one frame from its descriptor object.
    pub fn parse(v: &DataValue) -> (r: Frame)
        ensures
            r == spec_parse_frame(*v),
    {
        let mut f = Frame { id: 0, duration: 0 };
        match v {
            DataValue::Obj(entries) => {
                let ghost all = entries@;
                proof {
                    assert(all.skip(0) =~= all);
                }
                let mut i: usize = 0;
                while i < entries.len()
                    invariant
                        i <= entries.len(),
                        all == entries@,
                        spec_frame_fold(all.skip(i as int), f) == spec_parse_frame(*v),
                    decreases entries.len() - i,
                {
                    proof {
                        reveal_strlit("frame");
                        reveal_strlit("duration");
                        assert(all.skip(i as int).drop_first() =~= all.skip(i + 1));
                    }
                    if crate::util::str_eq(entries[i].0.as_str(), "frame") {
                        let n = entries[i].1.as_int();
                        if 0 <= n && n <= 255 {
                            f.id = n as u8;
                        } else {
                            f.id = 0;
                        }
                    } else if crate::util::str_eq(entries[i].0.as_str(), "duration") {
                        let m = entries[i].1.as_milli();
                        if m >= 0 {
                            f.duration = m as u64;
                        } else {
                            f.duration = 0;
                        }
                    }
                    i += 1;
                }
                f
            },
            _ => f,
        }
    }
}

impl Animation {
    /// An empty, never-playing animation.
    pub fn new() -> (r: Animation)
        ensures
            r@.name == Seq::<char>::empty(),
            r@.repeat == 0,
            r@.repeated == 0,
            r@.frames == Seq::<Frame>::empty(),
            r@.currentTime == 0,
            r@.currentFrame == 0,
            anim_inv(r@),
    {
        Animation {
            name: String::new(),
            repeat: 0,
            repeated: 0,
            frames: Vec::new(),
            currentFrame: 0,
            currentTime: 0,
        }
    }

    /// Reads one animation from its descriptor object.
    pub fn parse(base: &DataValue) -> (r: Animation)
        ensures
            r@ == spec_parse_animation(*base),
            anim_inv(r@),
    {
        let mut anim = Animation::new();
        match base {
            DataValue::Obj(entries) => {
                let ghost all = entries@;
                proof {
                    assert(all.skip(0) =~= all);
                }
                let mut i: usize = 0;
                while i < entries.len()
                    invariant
                        i <= entries.len(),
                        all == entries@,
                        anim.repeated == 0,
                        anim.currentTime == 0,
                        anim.currentFrame == 0,
                        spec_anim_fold(all.skip(i as int), anim@) == spec_parse_animation(*base),
                    decreases entries.len() - i,
                {
                    proof {
                        reveal_strlit("name");
                        reveal_strlit("repeat");
                        reveal_strlit("frames");
                        assert(all.skip(i as int).drop_first() =~= all.skip(i + 1));
                    }
                    if crate::util::str_eq(entries[i].0.as_str(), "name") {
                        anim.name = entries[i].1.as_str();
                    } else if crate::util::str_eq(entries[i].0.as_str(), "repeat") {
                        let n = entries[i].1.as_int();
                        anim.repeat = n as i32;
                    } else if crate::util::str_eq(entries[i].0.as_str(), "frames") {
                        match &entries[i].1 {
                            DataValue::Arr(members) => {
                                let ghost before = anim.frames@;
                                let ghost snap_name = anim.name@;
                                let ghost snap_repeat = anim.repeat as int;
                                let mut j: usize = 0;
                                while j < members.len()
                                    invariant
                                        j <= members.len(),
                                        anim.repeated == 0,
                                        anim.currentTime == 0,
                                        anim.currentFrame == 0,
                                        anim.name@ == snap_name,
                                        anim.repeat as int == snap_repeat,
                                        anim.frames@ =~= before + members@.take(j as int)
                                            .map_values(|x: DataValue| spec_parse_frame(x)),
                                    decreases members.len() - j,
                                {
                                    let f = Frame::parse(&members[j]);
                                    anim.frames.push(f);
                                    proof {
                                        assert(members@.take(j + 1).map_values(
                                            |x: DataValue| spec_parse_frame(x),
                                        ) =~= members@.take(j as int).map_values(
                                            |x: DataValue| spec_parse_frame(x),
                                        ).push(spec_parse_frame(members@[j as int])));
                                    }
                                    j += 1;
                                }
                                proof {
                                    assert(members@.take(members@.len() as int) =~= members@);
                                    assert(anim.frames@ =~= before + spec_frames_list(
                                        entries@[i as int].1,
                                    ));
                                }
                            },
                            _ => {
                            },
                        }
                    }
                    i += 1;
                }
            },
            _ => {
            },
        }
        anim
    }

    /// Advances playback by `dt` milliseconds, exactly as [`spec_update`]
    /// says.  Without frames, or once frozen, this is a no-op.
    pub fn update(&mut self, dt: u64)
        requires
            anim_inv(old(self)@),
        ensures
            final(self)@ == spec_update(old(self)@, dt as int),
            anim_inv(final(self)@),
    {
        if self.frames.len() == 0 {
            return;
        }
        if self.repeat != 0 && self.repeated >= self.repeat {
            return;
        }
        self.currentTime = sat_add_u64(self.currentTime, dt);
        let ghost target = spec_advance(
            self.frames@,
            self.repeat as int,
            self.currentFrame as int,
            self.currentTime as int,
            self.repeated as int,
        );
        proof {
            lemma_advance_bounds(
                self.frames@,
                self.repeat as int,
                self.currentFrame as int,
                self.currentTime as int,
                self.repeated as int,
            );
        }
        loop
            invariant_except_break
                self.frames@.len() > 0,
                self.frames@.len() <= usize::MAX,
                0 <= self.currentFrame < self.frames@.len(),
                0 <= self.repeated,
                self.repeat >= 0,
                self.repeat as int >= 1 ==> (self.repeated as int) < self.repeat as int,
                self.name == old(self).name,
                self.frames == old(self).frames,
                self.repeat == old(self).repeat,
                spec_advance(
                    self.frames@,
                    self.repeat as int,
                    self.currentFrame as int,
                    self.currentTime as int,
                    self.repeated as int,
                ) == target,
            ensures
                self.name == old(self).name,
                self.frames == old(self).frames,
                self.repeat == old(self).repeat,
                (self.currentFrame as int, self.currentTime as int, self.repeated as int)
                    == target,
                0 <= self.currentFrame < self.frames@.len(),
                0 <= self.repeated,
                self.repeat as int >= 1 ==> self.repeated as int <= self.repeat as int,
            decreases self.currentTime,
        {
            let d = self.frames[self.currentFrame].duration;
            if self.currentTime < d {
                break;
            }
            self.currentTime = self.currentTime - d;
            self.currentFrame = self.currentFrame + 1;
            if self.currentFrame >= self.frames.len() {
                if self.repeat == 0 {
                    self.currentFrame = 0;
                } else {
                    self.repeated = self.repeated + 1;
                    if self.repeated >= self.repeat {
                        self.currentFrame = self.frames.len() - 1;
                        break;
                    } else {
                        self.currentFrame = 0;
                    }
                }
            }
            if d == 0 {
                break;
            }
        }
    }

    /// Resets playback to the first frame with no accumulated time.  The
    /// cycle counter is kept, as it is when an animator restarts all its
    /// timelines.
    pub fn rewind(&mut self)
        ensures
            final(self)@ == (AnimationV { currentTime: 0, currentFrame: 0, ..old(self)@ }),
            anim_inv(old(self)@) ==> anim_inv(final(self)@),
    {
        self.currentTime = 0;
        self.currentFrame = 0;
    }

    /// The atlas cell of the current frame, zero when there are no frames.
    pub fn getCurrentFrame(&self) -> (r: u8)
        requires
            anim_inv(self@),
        ensures
            r as int == if self@.frames.len() == 0 {
                0int
            } else {
                self@.frames[self@.currentFrame].id as int
            },
    {
        if self.frames.len() == 0 {
            0
        } else {
            self.frames[self.currentFrame].id
        }
    }
}

/// A sprite-atlas animator: the atlas texture path, the atlas pixel size,
/// the cell pixel size, the derived row-major UV cells, and the named
/// timelines with the active one selected.
#[derive(Debug)]
pub struct Animator {
    pub texture: String,
    pub size: Vec2i,
    pub frame: Vec2i,
    pub animations: Vec<Animation>,
    pub currentAnimation: usize,
    pub frames: Vec<Rect>,
}

/// The mathematical state of an [`Animator`].
pub ghost struct AnimatorV {
    pub texture: Seq<char>,
    pub size: Vec2i,
    pub frame: Vec2i,
    pub animations: Seq<AnimationV>,
    pub currentAnimation: int,
    pub frames: Seq<Rect>,
}

impl View for Animator {
    type V = AnimatorV;

    open spec fn view(&self) -> AnimatorV {
        AnimatorV {
            texture: self.texture@,
            size: self.size,
            frame: self.frame,
            animations: self.animations@.map_values(|a: Animation| a@),
            currentAnimation: self.currentAnimation as int,
            frames: self.frames@,
        }
    }
}

/// Animator well-formedness: the active index points at a timeline (or at
/// zero while there are none), every timeline is well formed, and the sizes
/// read from a descriptor are 32-bit values.
pub open spec fn animator_inv(av: AnimatorV) -> bool {
    &&& av.animations.len() == 0 ==> av.currentAnimation == 0
    &&& av.animations.len() > 0 ==> 0 <= av.currentAnimation < av.animations.len()
    &&& forall|i: int| 0 <= i < av.animations.len() ==> anim_inv(#[trigger] av.animations[i])
    &&& -0x8000_0000 <= av.size.x <= 0x7fff_ffff
    &&& -0x8000_0000 <= av.size.y <= 0x7fff_ffff
    &&& -0x8000_0000 <= av.frame.x <= 0x7fff_ffff
    &&& -0x8000_0000 <= av.frame.y <= 0x7fff_ffff
}

/// Folds the entries of a dimension object: `x` and `y` overwrite the
/// respective component.
pub open spec fn spec_dim_fold(entries: Seq<(String, DataValue)>, d: Vec2i) -> Vec2i
    decreases entries.len(),
{
    if entries.len() == 0 {
        d
    } else {
        let e = entries[0];
        let d1 = if e.0@ == "x"@ {
            Vec2i { x: spec_int(e.1) as i64, ..d }
        } else if e.0@ == "y"@ {
            Vec2i { y: spec_int(e.1) as i64, ..d }
        } else {
            d
        };
        spec_dim_fold(entries.drop_first(), d1)
    }
}

/// The dimensions a descriptor object describes, starting from `d`.
pub open spec fn spec_dims(v: DataValue, d: Vec2i) -> Vec2i {
    match v {
        DataValue::Obj(e) => spec_dim_fold(e@, d),
        _ => d,
    }
}

/// One row-major UV cell of an atlas grid, in micro-units of the texture.
pub open spec fn spec_cell(size: Vec2i, frame: Vec2i, cols: int, i: int) -> Rect {
    Rect {
        x: (((i % cols) * (frame.x as int)) * (UV_ONE as int) / (size.x as int)) as i64,
        y: (((i / cols) * (frame.y as int)) * (UV_ONE as int) / (size.y as int)) as i64,
        w: ((frame.x as int) * (UV_ONE as int) / (size.x as int)) as i64,
        h: ((frame.y as int) * (UV_ONE as int) / (size.y as int)) as i64,
    }
}

/// The row-major UV cells an atlas of `size` pixels cut into `frame`-pixel
/// cells yields.  A non-positive dimension yields no cells at all: that is
/// the safe degraded state of a bad descriptor.
pub open spec fn spec_cells(size: Vec2i, frame: Vec2i) -> Seq<Rect> {
    if size.x <= 0 || size.y <= 0 || frame.x <= 0 || frame.y <= 0 {
        Seq::empty()
    } else {
        let cols = (size.x + frame.x - 1) as int / frame.x as int;
        let rows = (size.y + frame.y - 1) as int / frame.y as int;
        Seq::new((rows * cols) as nat, |i: int| spec_cell(size, frame, cols, i))
    }
}

/// The animation list a descriptor array describes.
pub open spec fn spec_anims_list(v: DataValue) -> Seq<AnimationV> {
    match v {
        DataValue::Arr(m) => m@.map_values(|x: DataValue| spec_parse_animation(x)),
        _ => Seq::empty(),
    }
}

/// Folds the entries of an animator descriptor: `texture` names the atlas,
/// `size` and `frame` set the pixel dimensions — reading `frame` slices the
/// atlas with whatever `size` is current — and each `animations` array
/// appends timelines in order.
pub open spec fn spec_animator_fold(entries: Seq<(String, DataValue)>, av: AnimatorV) -> AnimatorV
    decreases entries.len(),
{
    if entries.len() == 0 {
        av
    } else {
        let e = entries[0];
        let a1 = if e.0@ == "texture"@ {
            AnimatorV { texture: spec_str(e.1), ..av }
        } else if e.0@ == "size"@ {
            AnimatorV { size: spec_dims(e.1, av.size), ..av }
        } else if e.0@ == "frame"@ {
            let f2 = spec_dims(e.1, av.frame);
            AnimatorV { frame: f2, frames: spec_cells(av.size, f2), ..av }
        } else if e.0@ == "animations"@ {
            AnimatorV { animations: av.animations + spec_anims_list(e.1), ..av }
        } else {
            av
        };
        spec_animator_fold(entries.drop_first(), a1)
    }
}

/// What loading a descriptor does to an animator's state.
pub open spec fn spec_animator_load(av: AnimatorV, v: DataValue) -> AnimatorV {
    match v {
        DataValue::Obj(e) => spec_animator_fold(e@, av),
        _ => av,
    }
}

/// The UV cell an animator shows: the cell numbered by the active
/// timeline's current frame, or the zero rectangle when there are no cells,
/// no timelines, or the number lies beyond the grid.
pub open spec fn spec_current_cell(av: AnimatorV) -> Rect {
    if av.frames.len() == 0 || av.animations.len() == 0 {
        Rect { x: 0, y: 0, w: 0, h: 0 }
    } else {
        let a = av.animations[av.currentAnimation];
        let id = if a.frames.len() == 0 {
            0int
        } else {
            a.frames[a.currentFrame].id as int
        };
        if id < av.frames.len() {
            av.frames[id]
        } else {
            Rect { x: 0, y: 0, w: 0, h: 0 }
        }
    }
}

/// The first index at or after `from` holding a timeline called `name`
/// other than the active one.
pub open spec fn spec_find_from(
    anims: Seq<AnimationV>,
    cur: int,
    name: Seq<char>,
    from: int,
) -> Option<int>
    decreases anims.len() - from,
{
    if from < 0 || from >= anims.len() {
        None
    } else if anims[from].name == name && cur != from {
        Some(from)
    } else {
        spec_find_from(anims, cur, name, from + 1)
    }
}

/// The first timeline called `name` other than the active one.
pub open spec fn spec_find_other(anims: Seq<AnimationV>, cur: int, name: Seq<char>) -> Option<
    int,
> {
    spec_find_from(anims, cur, name, 0)
}

/// Every timeline rewound to its first frame with no elapsed time.
pub open spec fn spec_rewind_all(anims: Seq<AnimationV>) -> Seq<AnimationV> {
    Seq::new(anims.len(), |i: int| AnimationV { currentTime: 0, currentFrame: 0, ..anims[i] })
}

/// What one animator update does: advances the active timeline, if any.
pub open spec fn spec_animator_update(av: AnimatorV, dt: int) -> AnimatorV {
    if av.animations.len() == 0 {
        av
    } else {
        AnimatorV {
            animations: av.animations.update(
                av.currentAnimation,
                spec_update(av.animations[av.currentAnimation], dt),
            ),
            ..av
        }
    }
}

/// What switching the active animation does: the first timeline called
/// `name` other than the active one becomes active and every timeline is
/// rewound; otherwise nothing changes.
pub open spec fn spec_animator_set_anim(av: AnimatorV, name: Seq<char>) -> AnimatorV {
    match spec_find_other(av.animations, av.currentAnimation, name) {
        Some(i) => AnimatorV {
            currentAnimation: i,
            animations: spec_rewind_all(av.animations),
            ..av
        },
        None => av,
    }
}

/// The state of a fresh [`Animator`].
pub open spec fn spec_animator_empty() -> AnimatorV {
    AnimatorV {
        texture: Seq::empty(),
        size: Vec2i { x: 0, y: 0 },
        frame: Vec2i { x: 0, y: 0 },
        animations: Seq::empty(),
        currentAnimation: 0,
        frames: Seq::empty(),
    }
}

impl Animator {
    /// An animator with no atlas and no timelines.
    pub fn new() -> (r: Animator)
        ensures
            r@ == spec_animator_empty(),
            animator_inv(r@),
    {
        let r = Animator {
            texture: String::new(),
            size: Vec2i { x: 0, y: 0 },
            frame: Vec2i { x: 0, y: 0 },
            animations: Vec::new(),
            currentAnimation: 0,
            frames: Vec::new(),
        };
        proof {
            assert(r@.animations =~= Seq::<AnimationV>::empty());
        }
        r
    }

    /// The atlas pixel size.
    pub fn getSize(&self) -> (r: Vec2i)
        ensures
            r == self.size,
    {
        self.size
    }

    /// The cell pixel size.
    pub fn getFrameSize(&self) -> (r: Vec2i)
        ensures
            r == self.frame,
    {
        self.frame
    }

    /// Cuts the atlas into row-major UV cells of the configured cell size.
    fn calculateFrames(&mut self)
        requires
            -0x8000_0000 <= old(self).size.x <= 0x7fff_ffff,
            -0x8000_0000 <= old(self).size.y <= 0x7fff_ffff,
            -0x8000_0000 <= old(self).frame.x <= 0x7fff_ffff,
            -0x8000_0000 <= old(self).frame.y <= 0x7fff_ffff,
        ensures
            final(self).frames@ == spec_cells(old(self).size, old(self).frame),
            final(self).texture == old(self).texture,
            final(self).size == old(self).size,
            final(self).frame == old(self).frame,
            final(self).animations == old(self).animations,
            final(self).currentAnimation == old(self).currentAnimation,
    {
        self.frames = Vec::new();
        let sx = self.size.x;
        let sy = self.size.y;
        let fx = self.frame.x;
        let fy = self.frame.y;
        if sx <= 0 || sy <= 0 || fx <= 0 || fy <= 0 {
            proof {
                assert(self.frames@ =~= spec_cells(old(self).size, old(self).frame));
            }
            return;
        }
        let cols = (sx + fx - 1) / fx;
        let rows = (sy + fy - 1) / fy;
        proof {
            let qx = (sx + fx - 1) as int / (fx as int);
            let mx = (sx + fx - 1) as int % (fx as int);
            let qy = (sy + fy - 1) as int / (fy as int);
            let my = (sy + fy - 1) as int % (fy as int);
            vstd::arithmetic::div_mod::lemma_fundamental_div_mod(sx + fx - 1, fx as int);
            vstd::arithmetic::div_mod::lemma_mod_bound(sx + fx - 1, fx as int);
            vstd::arithmetic::div_mod::lemma_fundamental_div_mod(sy + fy - 1, fy as int);
            vstd::arithmetic::div_mod::lemma_mod_bound(sy + fy - 1, fy as int);
            assert(cols * fx >= sx && (cols - 1) * fx < sx && cols >= 1) by (nonlinear_arith)
                requires
                    sx >= 1 && fx >= 1,
                    (sx + fx - 1) as int == (fx as int) * qx + mx,
                    0 <= mx < fx,
                    cols == qx,
            ;
            assert(rows * fy >= sy && (rows - 1) * fy < sy && rows >= 1) by (nonlinear_arith)
                requires
                    sy >= 1 && fy >= 1,
                    (sy + fy - 1) as int == (fy as int) * qy + my,
                    0 <= my < fy,
                    rows == qy,
            ;
        }
        let mut r: i64 = 0;
        while r < rows
            invariant
                0 <= r <= rows,
                1 <= cols && 1 <= rows,
                1 <= sx <= 0x7fff_ffff && 1 <= sy <= 0x7fff_ffff,
                1 <= fx <= 0x7fff_ffff && 1 <= fy <= 0x7fff_ffff,
                cols * fx >= sx && (cols - 1) * fx < sx,
                rows * fy >= sy && (rows - 1) * fy < sy,
                sx == self.size.x && sy == self.size.y && fx == self.frame.x && fy
                    == self.frame.y,
                self.frames@.len() == r * cols,
                forall|k: int|
                    0 <= k < self.frames@.len() ==> self.frames@[k] == spec_cell(
                        self.size,
                        self.frame,
                        cols as int,
                        k,
                    ),
                self.texture == old(self).texture,
                self.size == old(self).size,
                self.frame == old(self).frame,
                self.animations == old(self).animations,
                self.currentAnimation == old(self).currentAnimation,
            decreases rows - r,
        {
            let mut c: i64 = 0;
            proof {
                assert(r * cols + 0 == r * cols);
                assert((r + 1) * cols == r * cols + cols) by (nonlinear_arith);
                assert(r * cols >= 0 && r * cols <= (rows - 1) * cols) by (nonlinear_arith)
                    requires
                        0 <= r < rows && cols >= 1,
                ;
            }
            while c < cols
                invariant
                    0 <= c <= cols,
                    0 <= r < rows,
                    1 <= cols && 1 <= rows,
                    1 <= sx <= 0x7fff_ffff && 1 <= sy <= 0x7fff_ffff,
                    1 <= fx <= 0x7fff_ffff && 1 <= fy <= 0x7fff_ffff,
                    cols * fx >= sx && (cols - 1) * fx < sx,
                    rows * fy >= sy && (rows - 1) * fy < sy,
                    sx == self.size.x && sy == self.size.y && fx == self.frame.x && fy
                        == self.frame.y,
                    self.frames@.len() == r * cols + c,
                    r * cols >= 0,
                    (r + 1) * cols == r * cols + cols,
                    forall|k: int|
                        0 <= k < self.frames@.len() ==> self.frames@[k] == spec_cell(
                            self.size,
                            self.frame,
                            cols as int,
                            k,
                        ),
                    self.texture == old(self).texture,
                    self.size == old(self).size,
                    self.frame == old(self).frame,
                    self.animations == old(self).animations,
                    self.currentAnimation == old(self).currentAnimation,
                decreases cols - c,
            {
                proof {
                    assert(c * fx < sx && c * fx >= 0 && r * fy < sy && r * fy >= 0)
                        by (nonlinear_arith)
                        requires
                            0 <= c < cols && 0 <= r < rows,
                            fx >= 1 && fy >= 1,
                            (cols - 1) * fx < sx,
                            (rows - 1) * fy < sy,
                    ;
                    vstd::arithmetic::div_mod::lemma_fundamental_div_mod_converse(
                        r * cols + c,
                        cols as int,
                        r as int,
                        c as int,
                    );
                }
                let x = ((c * fx) * UV_ONE) / sx;
                let y = ((r * fy) * UV_ONE) / sy;
                let w = (fx * UV_ONE) / sx;
                let h = (fy * UV_ONE) / sy;
                self.frames.push(Rect { x, y, w, h });
                c += 1;
            }
            r += 1;
        }
        proof {
            assert(self.frames@ =~= spec_cells(old(self).size, old(self).frame));
        }
    }

    /// Reads an animator descriptor: atlas texture path, atlas and cell
    /// sizes — slicing the atlas when the cell size is read — and named
    /// timelines, appended in order.
    pub fn load(&mut self, src: &DataValue)
        requires
            animator_inv(old(self)@),
        ensures
            final(self)@ == spec_animator_load(old(self)@, *src),
            animator_inv(final(self)@),
    {
        match src {
            DataValue::Obj(entries) => {
                let ghost all = entries@;
                proof {
                    assert(all.skip(0) =~= all);
                }
                let mut i: usize = 0;
                while i < entries.len()
                    invariant
                        i <= entries.len(),
                        all == entries@,
                        animator_inv(self@),
                        spec_animator_fold(all.skip(i as int), self@) == spec_animator_load(
                            old(self)@,
                            *src,
                        ),
                    decreases entries.len() - i,
                {
                    proof {
                        reveal_strlit("texture");
                        reveal_strlit("size");
                        reveal_strlit("frame");
                        reveal_strlit("animations");
                        assert(all.skip(i as int).drop_first() =~= all.skip(i + 1));
                    }
                    if crate::util::str_eq(entries[i].0.as_str(), "texture") {
                        self.texture = entries[i].1.as_str();
                    } else if crate::util::str_eq(entries[i].0.as_str(), "size") {
                        let d = Self::readDims(&entries[i].1, self.size);
                        self.size = d;
                    } else if crate::util::str_eq(entries[i].0.as_str(), "frame") {
                        let d = Self::readDims(&entries[i].1, self.frame);
                        self.frame = d;
                        self.calculateFrames();
                    } else if crate::util::str_eq(entries[i].0.as_str(), "animations") {
                        match &entries[i].1 {
                            DataValue::Arr(members) => {
                                let ghost snap = self@;
                                let mut j: usize = 0;
                                while j < members.len()
                                    invariant
                                        j <= members.len(),
                                        self.texture@ == snap.texture,
                                        self.size == snap.size,
                                        self.frame == snap.frame,
                                        self.frames@ == snap.frames,
                                        self.currentAnimation as int == snap.currentAnimation,
                                        self@.animations =~= snap.animations + members@.take(
                                            j as int,
                                        ).map_values(|x: DataValue| spec_parse_animation(x)),
                                        animator_inv(snap) ==> animator_inv(self@),
                                    decreases members.len() - j,
                                {
                                    let ghost prev = self@.animations;
                                    let a = Animation::parse(&members[j]);
                                    self.animations.push(a);
                                    proof {
                                        assert(self@.animations =~= prev.push(a@));
                                        assert(members@.take(j + 1) =~= members@.take(
                                            j as int,
                                        ).push(members@[j as int]));
                                        assert(members@.take(j + 1).map_values(
                                            |x: DataValue| spec_parse_animation(x),
                                        ) =~= members@.take(j as int).map_values(
                                            |x: DataValue| spec_parse_animation(x),
                                        ).push(spec_parse_animation(members@[j as int])));
                                        assert forall|k: int|
                                            0 <= k < self@.animations.len() implies anim_inv(
                                            #[trigger] self@.animations[k],
                                        ) || !animator_inv(snap) by {
                                            if animator_inv(snap) {
                                                if k < prev.len() {
                                                    assert(self@.animations[k] == prev[k]);
                                                } else {
                                                    assert(self@.animations[k] == a@);
                                                }
                                            }
                                        }
                                    }
                                    j += 1;
                                }
                                proof {
                                    assert(members@.take(members@.len() as int) =~= members@);
                                    assert(self@ == (AnimatorV {
                                        animations: snap.animations + spec_anims_list(
                                            entries@[i as int].1,
                                        ),
                                        ..snap
                                    }));
                                }
                            },
                            _ => {
                            },
                        }
                    }
                    i += 1;
                }
            },
            _ => {
            },
        }
    }

    /// Advances the active timeline by `dt` milliseconds.  Without timelines
    /// this is a no-op.
    pub fn update(&mut self, dt: u64)
        requires
            animator_inv(old(self)@),
        ensures
            animator_inv(final(self)@),
            final(self)@ == spec_animator_update(old(self)@, dt as int),
    {
        if self.animations.len() == 0 {
            proof {
                assert(final(self)@ == old(self)@);
            }
            return;
        }
        let i = self.currentAnimation;
        proof {
            assert(self@.animations[i as int] == self.animations@[i as int]@);
        }
        self.animations[i].update(dt);
        proof {
            assert(self@.animations =~= old(self)@.animations.update(
                old(self)@.currentAnimation,
                spec_update(old(self)@.animations[old(self)@.currentAnimation], dt as int),
            ));
        }
    }

    /// The UV cell of the active timeline's current frame; without cells or
    /// timelines, or with a cell number beyond the grid, the zero rectangle.
    pub fn getCurrentFrame(&self) -> (r: Rect)
        requires
            animator_inv(self@),
        ensures
            r == spec_current_cell(self@),
    {
        if self.frames.len() == 0 {
            return Rect::zero();
        }
        if self.animations.len() == 0 {
            return Rect::zero();
        }
        proof {
            assert(self@.animations[self.currentAnimation as int]
                == self.animations@[self.currentAnimation as int]@);
        }
        let id = self.animations[self.currentAnimation].getCurrentFrame();
        if (id as usize) < self.frames.len() {
            self.frames[id as usize]
        } else {
            Rect::zero()
        }
    }

    /// Switches to the first timeline whose name is `name` other than the
    /// active one, rewinding every timeline; without such a timeline —
    /// in particular, when `name` is the name of the active timeline alone —
    /// the whole state, elapsed time and frame index included, is untouched.
    pub fn setCurrentAnimation(&mut self, name: &str)
        requires
            animator_inv(old(self)@),
        ensures
            animator_inv(final(self)@),
            final(self)@ == spec_animator_set_anim(old(self)@, name@),
    {
        let ghost target = spec_find_other(self@.animations, self@.currentAnimation, name@);
        proof {
            assert(spec_find_from(self@.animations, self@.currentAnimation, name@, 0) == target);
        }
        let mut i: usize = 0;
        while i < self.animations.len()
            invariant
                i <= self.animations.len(),
                animator_inv(self@),
                self@ == old(self)@,
                target == spec_find_other(
                    old(self)@.animations,
                    old(self)@.currentAnimation,
                    name@,
                ),
                spec_find_from(self@.animations, self@.currentAnimation, name@, i as int)
                    == target,
            decreases self.animations.len() - i,
        {
            if crate::util::str_eq(self.animations[i].name.as_str(), name)
                && self.currentAnimation != i {
                proof {
                    assert(self@.animations[i as int] == self.animations@[i as int]@);
                    assert(spec_find_from(
                        self@.animations,
                        self@.currentAnimation,
                        name@,
                        i as int,
                    ) == Some(i as int));
                }
                self.currentAnimation = i;
                self.restart();
                proof {
                    assert(self@ == (AnimatorV {
                        currentAnimation: i as int,
                        animations: spec_rewind_all(old(self)@.animations),
                        ..old(self)@
                    }));
                }
                return;
            }
            i += 1;
            proof {
                assert(self@.animations[i - 1] == self.animations@[i - 1]@);
            }
        }
    }

    /// Rewinds every timeline to its first frame with no elapsed time.
    fn restart(&mut self)
        requires
            animator_inv(old(self)@),
        ensures
            animator_inv(final(self)@),
            final(self)@ == (AnimatorV {
                animations: spec_rewind_all(old(self)@.animations),
                ..old(self)@
            }),
    {
        let mut i: usize = 0;
        while i < self.animations.len()
            invariant
                i <= self.animations.len(),
                animator_inv(self@),
                self.texture == old(self).texture,
                self.size == old(self).size,
                self.frame == old(self).frame,
                self.frames == old(self).frames,
                self.currentAnimation == old(self).currentAnimation,
                self@.animations.len() == old(self)@.animations.len(),
                forall|k: int|
                    0 <= k < i ==> #[trigger] self@.animations[k] == (AnimationV {
                        currentTime: 0,
                        currentFrame: 0,
                        ..old(self)@.animations[k]
                    }),
                forall|k: int|
                    i <= k < self@.animations.len() ==> #[trigger] self@.animations[k] == old(
                        self,
                    )@.animations[k],
            decreases self.animations.len() - i,
        {
            let ghost prev = self@.animations;
            proof {
                assert(prev[i as int] == self.animations@[i as int]@);
            }
            self.animations[i].rewind();
            proof {
                assert(self@.animations =~= prev.update(
                    i as int,
                    (AnimationV { currentTime: 0, currentFrame: 0, ..prev[i as int] }),
                ));
            }
            i += 1;
        }
        proof {
            assert(self@.animations =~= spec_rewind_all(old(self)@.animations));
        }
    }

    /// Reads `x`/`y` entries of a dimension object over a current value.
    fn readDims(v: &DataValue, d: Vec2i) -> (r: Vec2i)
        ensures
            r == spec_dims(*v, d),
            -0x8000_0000 <= r.x <= 0x7fff_ffff || r.x == d.x,
            -0x8000_0000 <= r.y <= 0x7fff_ffff || r.y == d.y,
    {
        let mut out = d;
        match v {
            DataValue::Obj(entries) => {
                let ghost all = entries@;
                proof {
                    assert(all.skip(0) =~= all);
                }
                let mut i: usize = 0;
                while i < entries.len()
                    invariant
                        i <= entries.len(),
                        all == entries@,
                        -0x8000_0000 <= out.x <= 0x7fff_ffff || out.x == d.x,
                        -0x8000_0000 <= out.y <= 0x7fff_ffff || out.y == d.y,
                        spec_dim_fold(all.skip(i as int), out) == spec_dims(*v, d),
                    decreases entries.len() - i,
                {
                    proof {
                        reveal_strlit("x");
                        reveal_strlit("y");
                        assert(all.skip(i as int).drop_first() =~= all.skip(i + 1));
                    }
                    if crate::util::str_eq(entries[i].0.as_str(), "x") {
                        out.x = entries[i].1.as_int();
                    } else if crate::util::str_eq(entries[i].0.as_str(), "y") {
                        out.y = entries[i].1.as_int();
                    }
                    i += 1;
                }
                out
            },
            _ => out,
        }
    }
}

} // verus!
