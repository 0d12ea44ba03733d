//! The progress bar of an update: one segment for the system, one for apps, and one
//! for development tools.

use crate::update_list::Module;
use vstd::prelude::*;

verus! {

/// The segments of the bar.
#[derive(Debug, Clone, Copy, PartialEq, Eq, Structural)]
pub enum Segment {
    System,
    Apps,
    DevTools,
}

/// How far a segment is.
#[derive(Debug, Clone, Copy, PartialEq, Eq, Structural)]
pub enum SegmentStatus {
    Pending,
    Active,
    Complete,
    Failed,
}

/// The segment of a module. Homebrew and Distrobox share one.
pub open spec fn segment_of(module: Module) -> Segment {
    match module {
        Module::System => Segment::System,
        Module::Flatpak => Segment::Apps,
        Module::Brew => Segment::DevTools,
        Module::Distrobox => Segment::DevTools,
    }
}

/// The segment of a module.
pub fn module_segment(module: Module) -> (res: Segment)
    ensures
        res == segment_of(module),
{
    match module {
        Module::System => Segment::System,
        Module::Flatpak => Segment::Apps,
        Module::Brew => Segment::DevTools,
        Module::Distrobox => Segment::DevTools,
    }
}

/// Whether two modules share a segment.
pub fn same_segment(a: Module, b: Module) -> (res: bool)
    ensures
        res == (segment_of(a) == segment_of(b)),
{
    module_segment(a) == module_segment(b)
}

/// How far each segment is.
#[derive(Debug, Clone, Copy, PartialEq, Eq, Structural)]
pub struct SegmentedProgress {
    pub system: SegmentStatus,
    pub apps: SegmentStatus,
    pub dev_tools: SegmentStatus,
}

impl SegmentedProgress {
    /// All segments with the same status.
    pub open spec fn uniform(status: SegmentStatus) -> SegmentedProgress {
        SegmentedProgress { system: status, apps: status, dev_tools: status }
    }

    /// How far a segment is.
    pub open spec fn status_of(self, segment: Segment) -> SegmentStatus {
        match segment {
            Segment::System => self.system,
            Segment::Apps => self.apps,
            Segment::DevTools => self.dev_tools,
        }
    }

    /// The bar with another status for a segment.
    pub open spec fn with_segment(
        self,
        segment: Segment,
        status: SegmentStatus,
    ) -> SegmentedProgress {
        match segment {
            Segment::System => SegmentedProgress { system: status, ..self },
            Segment::Apps => SegmentedProgress { apps: status, ..self },
            Segment::DevTools => SegmentedProgress { dev_tools: status, ..self },
        }
    }

    /// All segments with the same status.
    pub fn all(status: SegmentStatus) -> (res: SegmentedProgress)
        ensures
            res == SegmentedProgress::uniform(status),
    {
        SegmentedProgress { system: status, apps: status, dev_tools: status }
    }

    /// How far a segment is.
    pub fn status(&self, segment: Segment) -> (res: SegmentStatus)
        ensures
            res == self.status_of(segment),
    {
        match segment {
            Segment::System => self.system,
            Segment::Apps => self.apps,
            Segment::DevTools => self.dev_tools,
        }
    }

    /// The bar with another status for the segment of a module.
    pub fn with_module(&self, module: Module, status: SegmentStatus) -> (res: SegmentedProgress)
        ensures
            res == self.with_segment(segment_of(module), status),
    {
        let mut next = *self;
        match module_segment(module) {
            Segment::System => next.system = status,
            Segment::Apps => next.apps = status,
            Segment::DevTools => next.dev_tools = status,
        }
        next
    }
}

/// The system has a segment of its own and so have the apps; Homebrew and Distrobox share
/// the third.
pub proof fn law_segments_of_modules(a: Module, b: Module)
    ensures
        segment_of(Module::System) == Segment::System,
        segment_of(Module::Flatpak) == Segment::Apps,
        segment_of(Module::Brew) == Segment::DevTools,
        segment_of(Module::Distrobox) == Segment::DevTools,
        segment_of(a) == segment_of(b) <==> a == b || (a == Module::Brew && b
            == Module::Distrobox) || (a == Module::Distrobox && b == Module::Brew),
{
}

/// Another status for one segment leaves the others as they are; the bar can be set as a
/// whole.
pub proof fn law_one_segment_changes(bar: SegmentedProgress, status: SegmentStatus)
    ensures
        bar.with_segment(Segment::System, status) == (SegmentedProgress {
            system: status,
            apps: bar.apps,
            dev_tools: bar.dev_tools,
        }),
        bar.with_segment(Segment::Apps, status) == (SegmentedProgress {
            system: bar.system,
            apps: status,
            dev_tools: bar.dev_tools,
        }),
        bar.with_segment(Segment::DevTools, status) == (SegmentedProgress {
            system: bar.system,
            apps: bar.apps,
            dev_tools: status,
        }),
        bar.status_of(Segment::System) == bar.system,
        bar.status_of(Segment::Apps) == bar.apps,
        bar.status_of(Segment::DevTools) == bar.dev_tools,
        SegmentedProgress::uniform(status) == (SegmentedProgress {
            system: status,
            apps: status,
            dev_tools: status,
        }),
{
}

} // verus!
