use vstd::prelude::*;

verus! {

/// Configuration for debug visualization.
#[derive(Clone, Copy, Debug, Default)]
pub struct DebugOptions {
    /// Show margin areas (red overlay)
    pub show_margins: bool,
    /// Show padding areas (blue overlay)
    pub show_padding: bool,
    /// Show node borders (green outline)
    pub show_borders: bool,
    /// Show content areas (yellow outline)
    pub show_content_area: bool,
    /// Show clip rectangles (red outline)
    pub show_clip_rects: bool,
    /// Show gaps between children (purple overlay)
    pub show_gaps: bool,
    /// Show transform origins (crosshair)
    pub show_transform_origins: bool,
    /// Show text line bounds (cyan outline for each line)
    pub show_text_bounds: bool,
}

impl DebugOptions {
    /// True when at least one visualization is switched on.
    pub open spec fn any_enabled(self) -> bool {
        self.show_margins || self.show_padding || self.show_borders || self.show_content_area
            || self.show_clip_rects || self.show_gaps || self.show_transform_origins
            || self.show_text_bounds
    }

    /// The options with every flag set to `b`.
    pub open spec fn uniform(b: bool) -> DebugOptions {
        DebugOptions {
            show_margins: b,
            show_padding: b,
            show_borders: b,
            show_content_area: b,
            show_clip_rects: b,
            show_gaps: b,
            show_transform_origins: b,
            show_text_bounds: b,
        }
    }

    /// Create debug options with nothing enabled
    pub fn none() -> (r: Self)
        ensures
            r == Self::uniform(false),
    {
        Self {
            show_margins: false,
            show_padding: false,
            show_borders: false,
            show_content_area: false,
            show_clip_rects: false,
            show_gaps: false,
            show_transform_origins: false,
            show_text_bounds: false,
        }
    }

    /// Create debug options with all visualizations enabled
    pub fn all() -> (r: Self)
        ensures
            r == Self::uniform(true),
    {
        Self {
            show_margins: true,
            show_padding: true,
            show_borders: true,
            show_content_area: true,
            show_clip_rects: true,
            show_gaps: true,
            show_transform_origins: true,
            show_text_bounds: true,
        }
    }

    /// Enable margin visualization
    pub fn with_margins(self, enabled: bool) -> (r: Self)
        ensures
            r == (DebugOptions { show_margins: enabled, ..self }),
    {
        let mut s = self;
        s.show_margins = enabled;
        s
    }

    /// Enable padding visualization
    pub fn with_padding(self, enabled: bool) -> (r: Self)
        ensures
            r == (DebugOptions { show_padding: enabled, ..self }),
    {
        let mut s = self;
        s.show_padding = enabled;
        s
    }

    /// Enable border visualization
    pub fn with_borders(self, enabled: bool) -> (r: Self)
        ensures
            r == (DebugOptions { show_borders: enabled, ..self }),
    {
        let mut s = self;
        s.show_borders = enabled;
        s
    }

    /// Enable content area visualization
    pub fn with_content_area(self, enabled: bool) -> (r: Self)
        ensures
            r == (DebugOptions { show_content_area: enabled, ..self }),
    {
        let mut s = self;
        s.show_content_area = enabled;
        s
    }

    /// Enable clip rect visualization
    pub fn with_clip_rects(self, enabled: bool) -> (r: Self)
        ensures
            r == (DebugOptions { show_clip_rects: enabled, ..self }),
    {
        let mut s = self;
        s.show_clip_rects = enabled;
        s
    }

    /// Enable gap visualization
    pub fn with_gaps(self, enabled: bool) -> (r: Self)
        ensures
            r == (DebugOptions { show_gaps: enabled, ..self }),
    {
        let mut s = self;
        s.show_gaps = enabled;
        s
    }

    /// Enable transform origin visualization
    pub fn with_transform_origins(self, enabled: bool) -> (r: Self)
        ensures
            r == (DebugOptions { show_transform_origins: enabled, ..self }),
    {
        let mut s = self;
        s.show_transform_origins = enabled;
        s
    }

    /// Check if any debug visualization is enabled
    pub fn is_enabled(&self) -> (r: bool)
        ensures
            r == self.any_enabled(),
    {
        self.show_margins || self.show_padding || self.show_borders || self.show_content_area
            || self.show_clip_rects || self.show_gaps || self.show_transform_origins
            || self.show_text_bounds
    }
}

/// No visualization is on in `none()`, all are on in `all()`, and switching
/// any one of them on turns debug drawing on.
pub proof fn law_debug_options_enabled(o: DebugOptions)
    ensures
        !DebugOptions::uniform(false).any_enabled(),
        DebugOptions::uniform(true).any_enabled(),
        (DebugOptions { show_margins: true, ..o }).any_enabled(),
        (DebugOptions { show_padding: true, ..o }).any_enabled(),
        (DebugOptions { show_borders: true, ..o }).any_enabled(),
        (DebugOptions { show_content_area: true, ..o }).any_enabled(),
        (DebugOptions { show_clip_rects: true, ..o }).any_enabled(),
        (DebugOptions { show_gaps: true, ..o }).any_enabled(),
        (DebugOptions { show_transform_origins: true, ..o }).any_enabled(),
{
}

} // verus!
