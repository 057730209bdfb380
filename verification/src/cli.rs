use vstd::prelude::*;

verus! {

/// Width or height of a frame when neither the command line nor the input file gives one.
pub const DEFAULT_EXTENT: u32 = 1000;

/// The smallest width or height that a frame may have.
pub const MIN_EXTENT: u32 = 4;

/// What the command line asked for when rendering without a display.
#[derive(PartialEq, Eq, Hash, Debug, Default)]
pub struct HeadlessArgs {
    pub out_file: String,
    pub in_file: String,
    pub size: (Option<u32>, Option<u32>),
}

impl Clone for HeadlessArgs {
    fn clone(&self) -> (copy: HeadlessArgs)
        ensures
            copy.out_file@ == self.out_file@,
            copy.in_file@ == self.in_file@,
            copy.size == self.size,
    {
        HeadlessArgs {
            out_file: self.out_file.clone(),
            in_file: self.in_file.clone(),
            size: (self.size.0, self.size.1),
        }
    }
}

/// The arguments of one run.
#[derive(Clone, PartialEq, Eq, Hash, Debug, Default)]
pub struct Arguments {
    pub headless: Option<HeadlessArgs>,
    pub render_imgui: bool,
}

/// The extent of a frame along one axis: what the command line asked for, else
/// what the input file declares, else the default; and never less than the minimum.
pub open spec fn extent(asked: Option<u32>, declared: Option<u32>) -> u32 {
    let chosen = match asked {
        Some(a) => a,
        None => match declared {
            Some(d) => d,
            None => DEFAULT_EXTENT,
        },
    };
    if chosen < MIN_EXTENT {
        MIN_EXTENT
    } else {
        chosen
    }
}

/// Computes the extent of a frame along one axis.
pub fn resolve_extent(asked: Option<u32>, declared: Option<u32>) -> (chosen: u32)
    ensures
        chosen == extent(asked, declared),
{
    let chosen: u32 = match asked {
        Some(a) => a,
        None => match declared {
            Some(d) => d,
            None => DEFAULT_EXTENT,
        },
    };
    if chosen < MIN_EXTENT {
        MIN_EXTENT
    } else {
        chosen
    }
}

impl HeadlessArgs {
    /// The size of the frames to render, given the size that the input file
    /// declares, if it declares one.
    pub fn frame_size(&self, declared: Option<(u32, u32)>) -> (size: (u32, u32))
        ensures
            size.0 == extent(
                self.size.0,
                match declared {
                    Some(d) => Some(d.0),
                    None => None,
                },
            ),
            size.1 == extent(
                self.size.1,
                match declared {
                    Some(d) => Some(d.1),
                    None => None,
                },
            ),
    {
        match declared {
            Some(d) => (resolve_extent(self.size.0, Some(d.0)), resolve_extent(self.size.1, Some(d.1))),
            None => (resolve_extent(self.size.0, None), resolve_extent(self.size.1, None)),
        }
    }
}

impl Arguments {
    /// The arguments that the matched options stand for. A run is headless exactly
    /// when both the file to render from and the file to write to were named; the
    /// interface is drawn only when the flag was given and set.
    pub fn from_matches(
        in_file: Option<String>,
        out_file: Option<String>,
        width: Option<u32>,
        height: Option<u32>,
        render_imgui: Option<bool>,
    ) -> (args: Arguments)
        ensures
            args.render_imgui == (render_imgui == Some(true)),
            match args.headless {
                Some(h) => in_file == Some(h.in_file) && out_file == Some(h.out_file) && h.size == (
                    width,
                    height,
                ),
                None => in_file is None || out_file is None,
            },
    {
        let headless = match (in_file, out_file) {
            (Some(in_file), Some(out_file)) => Some(
                HeadlessArgs { out_file, in_file, size: (width, height) },
            ),
            _ => None,
        };
        let render_imgui: bool = match render_imgui {
            Some(flag) => flag,
            None => false,
        };
        Arguments { headless, render_imgui }
    }
}

} // verus!
