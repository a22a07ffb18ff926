//! The editor's gutter: the per-line margin columns shown left of the
//! document.
use vstd::prelude::*;

verus! {

/// One gutter column kind.
#[derive(Debug, Clone, Copy, PartialEq, Eq, Structural)]
pub enum GutterType {
    /// Block type icons.
    Icon,
    /// One blank space.
    Spacer,
}

impl GutterType {
    /// The column width a gutter of this kind takes, whatever the line count.
    pub fn width(&self, total_lines: usize) -> (r: u16)
        ensures
            r == 1,
    {
        match *self {
            GutterType::Spacer => 1,
            GutterType::Icon => 1,
        }
    }
}

/// The gutter configuration: which columns to draw, left to right.
pub struct GutterConfig {
    pub layout: Vec<GutterType>,
}

impl Default for GutterConfig {
    /// The default gutter: a spacer, then the icon column.
    fn default() -> (r: GutterConfig)
        ensures
            r.layout@ == seq![GutterType::Spacer, GutterType::Icon],
    {
        let mut layout: Vec<GutterType> = Vec::new();
        layout.push(GutterType::Spacer);
        layout.push(GutterType::Icon);
        proof {
            assert(layout@ =~= seq![GutterType::Spacer, GutterType::Icon]);
        }
        GutterConfig { layout }
    }
}

} // verus!
