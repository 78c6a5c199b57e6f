use vstd::prelude::*;

verus! {

/// A shader program as the scene graph tracks it: the GPU handles of its
/// stages and linked program.  Compiling and linking happen in the
/// renderer, which reports the handles back here; a zero program means
/// nothing is loaded yet.
#[derive(Clone, Copy, Debug, PartialEq, Eq, Structural)]
pub struct Shader {
    pub vertex: u32,
    pub fragment: u32,
    pub program: u32,
}

impl Shader {
    /// An unloaded shader.
    pub fn new() -> (r: Shader)
        ensures
            r == (Shader { vertex: 0, fragment: 0, program: 0 }),
    {
        Shader { vertex: 0, fragment: 0, program: 0 }
    }

    /// Whether a linked program is present.
    pub fn isLoaded(&self) -> (r: bool)
        ensures
            r == (self.program != 0),
    {
        self.program != 0
    }

    /// Records the handles the renderer compiled and linked.
    pub fn setHandles(&mut self, vertex: u32, fragment: u32, program: u32)
        ensures
            *final(self) == (Shader { vertex, fragment, program }),
    {
        self.vertex = vertex;
        self.fragment = fragment;
        self.program = program;
    }
}

} // verus!
