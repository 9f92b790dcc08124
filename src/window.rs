use vstd::prelude::*;

verus! {

/// `max_fps` value meaning that the frame rate is not capped.
pub const NO_MAX_FPS: u32 = 0;

/// The settings of the window that the game opens.
pub struct WindowBuilder {
    width: u32,
    height: u32,
    title: String,
    vsync: bool,
    max_fps: u32,
}

impl WindowBuilder {
    pub closed spec fn width_v(&self) -> u32 {
        self.width
    }

    pub closed spec fn height_v(&self) -> u32 {
        self.height
    }

    pub closed spec fn title_v(&self) -> Seq<char> {
        self.title@
    }

    pub closed spec fn vsync_v(&self) -> bool {
        self.vsync
    }

    pub closed spec fn max_fps_v(&self) -> u32 {
        self.max_fps
    }

    /// A 960 x 540 window titled "Untitled", with vsync and no frame-rate cap.
    pub fn new() -> (r: Self)
        ensures
            r.width_v() == 960,
            r.height_v() == 540,
            r.title_v() == "Untitled"@,
            r.vsync_v(),
            r.max_fps_v() == NO_MAX_FPS,
    {
        Self { width: 1920 / 2, height: 1080 / 2, title: "Untitled".to_owned(), vsync: true, max_fps: 0 }
    }

    pub fn with_size(self, width: u32, height: u32) -> (r: Self)
        ensures
            r.width_v() == width,
            r.height_v() == height,
            r.title_v() == self.title_v(),
            r.vsync_v() == self.vsync_v(),
            r.max_fps_v() == self.max_fps_v(),
    {
        let mut r = self;
        r.width = width;
        r.height = height;
        r
    }

    pub fn with_title(self, title: &str) -> (r: Self)
        ensures
            r.width_v() == self.width_v(),
            r.height_v() == self.height_v(),
            r.title_v() == title@,
            r.vsync_v() == self.vsync_v(),
            r.max_fps_v() == self.max_fps_v(),
    {
        let mut r = self;
        r.title = title.to_owned();
        r
    }

    pub fn with_vsync(self, vsync: bool) -> (r: Self)
        ensures
            r.width_v() == self.width_v(),
            r.height_v() == self.height_v(),
            r.title_v() == self.title_v(),
            r.vsync_v() == vsync,
            r.max_fps_v() == self.max_fps_v(),
    {
        let mut r = self;
        r.vsync = vsync;
        r
    }

    pub fn with_max_fps(self, max_fps: u32) -> (r: Self)
        ensures
            r.width_v() == self.width_v(),
            r.height_v() == self.height_v(),
            r.title_v() == self.title_v(),
            r.vsync_v() == self.vsync_v(),
            r.max_fps_v() == max_fps,
    {
        let mut r = self;
        r.max_fps = max_fps;
        r
    }

    pub fn width(&self) -> (r: u32)
        ensures
            r == self.width_v(),
    {
        self.width
    }

    pub fn height(&self) -> (r: u32)
        ensures
            r == self.height_v(),
    {
        self.height
    }

    pub fn title(&self) -> (r: &str)
        ensures
            r@ == self.title_v(),
    {
        self.title.as_str()
    }

    pub fn vsync(&self) -> (r: bool)
        ensures
            r == self.vsync_v(),
    {
        self.vsync
    }

    pub fn max_fps(&self) -> (r: u32)
        ensures
            r == self.max_fps_v(),
    {
        self.max_fps
    }
}

} // verus!
