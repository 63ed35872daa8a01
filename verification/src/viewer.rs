use vstd::prelude::*;

verus! {

/// What the window reports at the start of a frame. `orbit_down` holds, in
/// this order, whether the Left, Right, Up and Down arrow keys are held.
pub struct FrameInput {
    pub window_open: bool,
    pub escape_down: bool,
    pub orbit_down: [bool; 4],
}

/// What the viewer does with a frame.
pub enum FrameAction {
    /// Close the viewer.
    Quit,
    /// Orbit the camera once for each held arrow key (in the order Left, Right,
    /// Up, Down), redraw the scene if `render`, then present the framebuffer.
    Draw { orbit: [bool; 4], render: bool },
}

/// State of the interactive viewer between frames.
pub struct Viewer {
    /// The camera has moved since the scene was last drawn.
    pub camera_moved: bool,
}

/// Some arrow key is held.
pub open spec fn any_orbit(keys: [bool; 4]) -> bool {
    keys@[0] || keys@[1] || keys@[2] || keys@[3]
}

/// `any_orbit` holds exactly when one of the four arrow keys, whichever it
/// is, is held.
pub proof fn lemma_any_orbit(keys: [bool; 4])
    ensures
        any_orbit(keys) <==> exists|i: int| 0 <= i < 4 && #[trigger] keys@[i],
        forall|i: int| 0 <= i < 4 && #[trigger] keys@[i] ==> any_orbit(keys),
{
    if exists|i: int| 0 <= i < 4 && #[trigger] keys@[i] {
        let i = choose|i: int| 0 <= i < 4 && #[trigger] keys@[i];
        assert(i == 0 || i == 1 || i == 2 || i == 3);
    }
}

impl Viewer {
    /// A viewer whose first frame draws the scene.
    pub fn new() -> (v: Viewer)
        ensures
            v.camera_moved,
    {
        Viewer { camera_moved: true }
    }

    /// Decides one frame: quit once the window is closed or Escape is held;
    /// otherwise orbit for the held arrow keys and redraw exactly when the
    /// camera has moved since the last drawing, after which nothing is pending.
    pub fn step(&mut self, input: &FrameInput) -> (action: FrameAction)
        ensures
            !input.window_open || input.escape_down ==> {
                &&& action == FrameAction::Quit
                &&& final(self).camera_moved == old(self).camera_moved
            },
            input.window_open && !input.escape_down ==> {
                &&& action == (FrameAction::Draw {
                    orbit: input.orbit_down,
                    render: old(self).camera_moved || any_orbit(input.orbit_down),
                })
                &&& !final(self).camera_moved
            },
            input.window_open && !input.escape_down ==> (action matches FrameAction::Draw {
                render,
                ..
            } && (render <==> (old(self).camera_moved || exists|i: int|
                0 <= i < 4 && #[trigger] input.orbit_down@[i]))),
    {
        if !input.window_open || input.escape_down {
            return FrameAction::Quit;
        }
        let mut moved = self.camera_moved;
        let mut i: usize = 0;
        while i < 4
            invariant
                i <= 4,
                moved == (self.camera_moved || exists|j: int| 0 <= j < i && input.orbit_down@[j]),
            decreases 4 - i,
        {
            if input.orbit_down[i] {
                moved = true;
            }
            i += 1;
        }
        assert(moved == (self.camera_moved || any_orbit(input.orbit_down)));
        self.camera_moved = false;
        FrameAction::Draw { orbit: input.orbit_down, render: moved }
    }
}

} // verus!
