//! Screen capture: what is captured, and the requests that wait for a frame.

use crate::geometry::{larger_of, Size};
use crate::state::wm::DriftWm;
use vstd::prelude::*;

verus! {

/// What an image capture source shows.
#[derive(Clone, Copy, Debug, PartialEq, Eq, Structural)]
pub enum SourceKind {
    /// An output.
    Output(u64),
    /// A window, with the size that it had at first.
    Toplevel { surface: u64, initial_size: Size },
    /// Nothing any more.
    Destroyed,
}

impl DriftWm {
    /// The size that a capture of a window starts with: its content's, at least
    /// one pixel, and one pixel when the window is not on the canvas.
    pub open spec fn capture_size(self, surface: u64) -> Size {
        match crate::state::windows::window_of(self.windows@, surface) {
            Some(w) => Size {
                w: crate::geometry::larger(w.geometry.size.w as int, 1) as i32,
                h: crate::geometry::larger(w.geometry.size.h as int, 1) as i32,
            },
            None => Size { w: 1, h: 1 },
        }
    }

    /// What a new source for an output shows.
    pub fn output_source_created(&self, output: u64) -> (kind: SourceKind)
        ensures
            kind == SourceKind::Output(output),
    {
        SourceKind::Output(output)
    }

    /// What a new source for a toplevel handle shows. `surface` is `None` when
    /// the toplevel is gone.
    pub fn toplevel_source_created(&self, surface: Option<u64>) -> (kind: SourceKind)
        ensures
            kind == (match surface {
                Some(surface) => SourceKind::Toplevel {
                    surface,
                    initial_size: self.capture_size(surface),
                },
                None => SourceKind::Destroyed,
            }),
    {
        match surface {
            Some(surface) => {
                let initial_size: Size = match self.window_for_surface(surface) {
                    Some(w) => Size {
                        w: larger_of(w.geometry.size.w, 1),
                        h: larger_of(w.geometry.size.h, 1),
                    },
                    None => Size { w: 1, h: 1 },
                };
                SourceKind::Toplevel { surface, initial_size }
            },
            None => SourceKind::Destroyed,
        }
    }

    /// A client waits for a copy of the next frame.
    pub fn frame(&mut self, screencopy: u64)
        ensures
            old(self).wf() ==> final(self).wf(),
            final(self).pending_screencopies@ == old(self).pending_screencopies@.push(screencopy),
            *final(self) == (DriftWm {
                pending_screencopies: final(self).pending_screencopies,
                ..*old(self)
            }),
    {
        self.pending_screencopies.push(screencopy);
    }

    /// A client waits for a capture of the next frame.
    pub fn capture_frame(&mut self, capture: u64)
        ensures
            old(self).wf() ==> final(self).wf(),
            final(self).pending_captures@ == old(self).pending_captures@.push(capture),
            *final(self) == (DriftWm {
                pending_captures: final(self).pending_captures,
                ..*old(self)
            }),
    {
        self.pending_captures.push(capture);
    }

    /// The device and the formats that captures into DMA-BUFs may use, where both
    /// are known.
    pub fn dmabuf_constraints(&self) -> (r: Option<(u64, Vec<(u32, u64)>)>)
        ensures
            match r {
                Some((device, formats)) => {
                    &&& self.render_device == Some(device)
                    &&& self.render_dmabuf_formats matches Some(known) && known@ == formats@
                },
                None => self.render_device is None || self.render_dmabuf_formats is None,
            },
    {
        match (self.render_device, &self.render_dmabuf_formats) {
            (Some(device), Some(known)) => {
                let mut formats: Vec<(u32, u64)> = Vec::new();
                let mut i: usize = 0;
                while i < known.len()
                    invariant
                        i <= known.len(),
                        formats@ == known@.take(i as int),
                    decreases known.len() - i,
                {
                    formats.push(known[i]);
                    assert(formats@ =~= known@.take(i + 1));
                    i += 1;
                }
                assert(formats@ =~= known@);
                Some((device, formats))
            },
            _ => None,
        }
    }
}

/// A capture is never empty: it has the size of its window, the lowest one with the
/// surface, and at least one pixel on each side, and one pixel without a window.
pub proof fn lemma_capture_has_the_size_of_the_window(wm: DriftWm, surface: u64, i: int)
    ensures
        wm.capture_size(surface).w >= 1,
        wm.capture_size(surface).h >= 1,
        0 <= i < wm.windows.len() && wm.windows@[i].surface == Some(surface) && (forall|j: int|
            0 <= j < i ==> (#[trigger] wm.windows@[j]).surface != Some(surface)) ==> {
            let size = wm.windows@[i].geometry.size;
            &&& size.w >= 1 ==> wm.capture_size(surface).w == size.w
            &&& size.h >= 1 ==> wm.capture_size(surface).h == size.h
            &&& size.w < 1 ==> wm.capture_size(surface).w == 1
            &&& size.h < 1 ==> wm.capture_size(surface).h == 1
        },
        (forall|j: int|
            0 <= j < wm.windows.len() ==> (#[trigger] wm.windows@[j]).surface != Some(surface))
            ==> wm.capture_size(surface).w == 1 && wm.capture_size(surface).h == 1,
{
    crate::state::windows::lemma_windows_are_found(wm.windows@, surface, 0, i);
}

} // verus!
