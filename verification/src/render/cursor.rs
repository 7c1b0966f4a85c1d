//! What the cursor shows in a frame.

use crate::geometry::Point;
use crate::scalar::Scalar;
use crate::state::output::Timestamp;
use crate::state::wm::{CursorIcon, CursorImageStatus, CursorState, DriftWm};
use vstd::prelude::*;

verus! {

/// Milliseconds after which the clock of cursor animations starts over.
pub const CLOCK_WRAP: u64 = 0x1_0000_0000;

/// Nanoseconds in a millisecond.
pub const NANOS_PER_MILLI: u64 = 1_000_000;

/// What is drawn for the cursor.
#[derive(Debug)]
pub enum CursorElement {
    /// A client's surface, moved by its hotspot.
    Surface(u64),
    /// A cursor of the theme, by its name.
    Named(CursorIcon),
    /// The surface of the drag icon that follows the cursor.
    DragIcon(u64),
}

/// What a [`CursorElement`] says.
pub enum CursorElementView {
    Surface(u64),
    Named(Seq<char>),
    DragIcon(u64),
}

impl View for CursorElement {
    type V = CursorElementView;

    open spec fn view(&self) -> CursorElementView {
        match self {
            CursorElement::Surface(surface) => CursorElementView::Surface(*surface),
            CursorElement::Named(icon) => CursorElementView::Named(icon.label()),
            CursorElement::DragIcon(surface) => CursorElementView::DragIcon(*surface),
        }
    }
}

/// What a list of elements says.
pub open spec fn cursor_views(elements: Seq<CursorElement>) -> Seq<CursorElementView> {
    elements.map_values(|element: CursorElement| element@)
}

/// The elements of a cursor: none when it is hidden.
pub open spec fn image_views(status: CursorImageStatus) -> Seq<CursorElementView> {
    match status {
        CursorImageStatus::Hidden => Seq::empty(),
        CursorImageStatus::Surface(surface) => seq![CursorElementView::Surface(surface)],
        CursorImageStatus::Named(icon) => seq![CursorElementView::Named(icon.label())],
    }
}

/// One frame of a cursor of the theme.
#[derive(Clone, Copy, Debug, PartialEq, Eq, Structural)]
pub struct CursorFrame {
    /// The buffer that holds the image.
    pub buffer: u64,
    pub hotspot: Point,
    /// How long the frame is shown, in milliseconds.
    pub delay: u32,
}

/// A cursor of the theme.
#[derive(Debug)]
pub struct CursorFrames {
    pub frames: Vec<CursorFrame>,
    /// How long all frames take, in milliseconds; 0 when the cursor does not move.
    pub total_duration_ms: u32,
}

/// The time that the first `n` frames of an animation take.
pub open spec fn time_of(frames: Seq<CursorFrame>, n: int) -> int
    decreases n,
{
    if n <= 0 {
        0
    } else {
        time_of(frames, n - 1) + frames[n - 1].delay
    }
}

/// The milliseconds since the start, as the animation clock counts them.
pub open spec fn clock(start: Timestamp, now: Timestamp) -> int {
    if now.nanos < start.nanos {
        0
    } else {
        ((now.nanos - start.nanos) / (NANOS_PER_MILLI as int)) % (CLOCK_WRAP as int)
    }
}

/// The frame at `i` is shown at a time: the first one that ends after it.
pub open spec fn frame_at(frames: Seq<CursorFrame>, time: int, i: int) -> bool {
    &&& 0 <= i < frames.len()
    &&& time < time_of(frames, i + 1)
    &&& forall|j: int| 0 <= j < i ==> time >= #[trigger] time_of(frames, j + 1)
}

/// Unless a frame before the one at `i` is due, the time that the frames up to it
/// take can be written down.
pub open spec fn sum_fits(frames: Seq<CursorFrame>, time: int, i: int) -> bool {
    time_of(frames, i) <= time ==> time_of(frames, i + 1) <= u32::MAX
}

impl CursorFrames {
    /// The time within the animation at a moment.
    pub open spec fn time_at(self, start: Timestamp, now: Timestamp) -> int {
        clock(start, now) % (self.total_duration_ms as int)
    }

    /// There is a frame to show, and where the cursor moves, the time that the
    /// frames take up to the one that is due at a moment can be written down.
    pub open spec fn ready_at(self, start: Timestamp, now: Timestamp) -> bool {
        &&& self.frames.len() > 0
        &&& self.total_duration_ms > 0 ==> forall|i: int|
            0 <= i < self.frames.len() ==> #[trigger] sum_fits(
                self.frames@,
                self.time_at(start, now),
                i,
            )
    }

    /// Which frame is shown at a moment. A cursor that does not move shows its
    /// first frame, and so does one whose frames do not add up to its duration
    /// when none of them is due.
    pub open spec fn index_at(self, start: Timestamp, now: Timestamp) -> int {
        let time = self.time_at(start, now);
        if self.total_duration_ms > 0 && exists|i: int| frame_at(self.frames@, time, i) {
            choose|i: int| frame_at(self.frames@, time, i)
        } else {
            0
        }
    }

    /// The time within the animation at a moment, for a cursor that moves.
    fn time_within(&self, start: Timestamp, now: Timestamp) -> (time: u32)
        requires
            self.total_duration_ms > 0,
        ensures
            time == self.time_at(start, now),
    {
        let elapsed_ms: u64 = if now.nanos < start.nanos {
            0
        } else {
            ((now.nanos - start.nanos) / NANOS_PER_MILLI) % CLOCK_WRAP
        };
        (elapsed_ms % self.total_duration_ms as u64) as u32
    }

    /// Whether there is a frame to show, and where the cursor moves, the time that
    /// the frames take up to the one that is due can be written down.
    pub fn is_ready(&self, start: Timestamp, now: Timestamp) -> (b: bool)
        ensures
            b == self.ready_at(start, now),
    {
        if self.frames.len() == 0 {
            return false;
        }
        if self.total_duration_ms == 0 {
            return true;
        }
        let elapsed: u32 = self.time_within(start, now);
        let mut acc: u32 = 0;
        let mut i: usize = 0;
        while i < self.frames.len()
            invariant
                i <= self.frames.len(),
                self.frames.len() > 0,
                self.total_duration_ms > 0,
                elapsed == self.time_at(start, now),
                acc == time_of(self.frames@, i as int),
                acc <= elapsed,
                forall|j: int|
                    0 <= j < i ==> #[trigger] sum_fits(self.frames@, elapsed as int, j),
            decreases self.frames.len() - i,
        {
            let delay: u32 = self.frames[i].delay;
            if delay > u32::MAX - acc {
                assert(!sum_fits(self.frames@, elapsed as int, i as int));
                return false;
            }
            acc = acc + delay;
            assert(sum_fits(self.frames@, elapsed as int, i as int));
            if elapsed < acc {
                assert forall|j: int| 0 <= j < self.frames.len() implies #[trigger] sum_fits(
                    self.frames@,
                    elapsed as int,
                    j,
                ) by {
                    if j > i {
                        lemma_time_grows(self.frames@, i + 1, j);
                    }
                }
                return true;
            }
            i += 1;
        }
        true
    }

    /// Which frame is shown at a moment.
    pub fn frame_index(&self, start: Timestamp, now: Timestamp) -> (idx: usize)
        requires
            self.ready_at(start, now),
        ensures
            idx < self.frames.len(),
            idx == self.index_at(start, now),
    {
        if self.total_duration_ms == 0 {
            return 0;
        }
        let elapsed: u32 = self.time_within(start, now);
        let mut acc: u32 = 0;
        let mut i: usize = 0;
        while i < self.frames.len()
            invariant
                i <= self.frames.len(),
                self.ready_at(start, now),
                acc == time_of(self.frames@, i as int),
                acc <= elapsed,
                forall|j: int| 0 <= j < i ==> elapsed >= #[trigger] time_of(self.frames@, j + 1),
                elapsed == self.time_at(start, now),
                self.total_duration_ms > 0,
            decreases self.frames.len() - i,
        {
            assert(sum_fits(self.frames@, elapsed as int, i as int));
            acc = acc + self.frames[i].delay;
            if elapsed < acc {
                proof {
                    assert(frame_at(self.frames@, elapsed as int, i as int));
                    let k = choose|k: int| frame_at(self.frames@, elapsed as int, k);
                    lemma_frame_is_unique(self.frames@, elapsed as int, i as int, k);
                }
                return i;
            }
            i += 1;
        }
        proof {
            assert forall|k: int| !frame_at(self.frames@, elapsed as int, k) by {
                if 0 <= k < self.frames.len() {
                    assert(elapsed >= time_of(self.frames@, k + 1));
                }
            }
        }
        0
    }
}

/// More frames take at least as long.
proof fn lemma_time_grows(frames: Seq<CursorFrame>, a: int, b: int)
    requires
        0 <= a <= b <= frames.len(),
    ensures
        time_of(frames, a) <= time_of(frames, b),
    decreases b - a,
{
    if a < b {
        lemma_time_grows(frames, a, b - 1);
    }
}

/// At every time before the animation ends exactly one frame is due.
pub proof fn lemma_one_frame_is_due(frames: Seq<CursorFrame>, time: int)
    requires
        0 <= time < time_of(frames, frames.len() as int),
    ensures
        exists|i: int| frame_at(frames, time, i),
        forall|i: int, j: int| #[trigger]
            frame_at(frames, time, i) && #[trigger] frame_at(frames, time, j) ==> i == j,
{
    lemma_frame_is_due(frames, time, frames.len() as int);
    assert forall|i: int, j: int| #[trigger]
        frame_at(frames, time, i) && #[trigger] frame_at(frames, time, j) implies i == j by {
        lemma_frame_is_unique(frames, time, i, j);
    }
}

/// No two frames are due at one time.
proof fn lemma_frame_is_unique(frames: Seq<CursorFrame>, time: int, i: int, j: int)
    requires
        frame_at(frames, time, i),
        frame_at(frames, time, j),
    ensures
        i == j,
{
    if i < j {
        assert(time >= time_of(frames, i + 1));
    }
    if j < i {
        assert(time >= time_of(frames, j + 1));
    }
}

/// One of the first `n` frames is due before they end.
proof fn lemma_frame_is_due(frames: Seq<CursorFrame>, time: int, n: int)
    requires
        0 <= n <= frames.len(),
        0 <= time < time_of(frames, n),
    ensures
        exists|i: int| frame_at(frames, time, i),
    decreases n,
{
    if time < time_of(frames, n - 1) {
        lemma_frame_is_due(frames, time, n - 1);
    } else {
        assert forall|j: int| 0 <= j < n - 1 implies time >= #[trigger] time_of(
            frames,
            j + 1,
        ) by {
            lemma_time_grows(frames, j + 1, n - 1);
        }
        assert(frame_at(frames, time, n - 1));
    }
}

impl DriftWm {
    /// The cursor's surface is gone.
    pub open spec fn cursor_orphaned(self, surface_alive: bool) -> bool {
        self.cursor.cursor_status is Surface && !surface_alive
    }

    /// What is drawn for the cursor, from front to back: the cursor itself, then
    /// the drag icon, unless its surface is gone. Nothing is drawn for an alpha of
    /// zero or less. When the cursor's own surface is gone the default cursor is
    /// all that is drawn.
    pub open spec fn cursor_drawn(
        self,
        alpha: Scalar,
        surface_alive: bool,
        icon_alive: bool,
    ) -> Seq<CursorElementView> {
        if (Scalar { bits: 0 }).at_least_spec(alpha) {
            Seq::empty()
        } else if self.cursor_orphaned(surface_alive) {
            seq![CursorElementView::Named("default"@)]
        } else {
            image_views(self.cursor.cursor_status) + (match self.dnd_icon {
                Some(icon) => if icon_alive {
                    seq![CursorElementView::DragIcon(icon)]
                } else {
                    Seq::empty()
                },
                None => Seq::empty(),
            })
        }
    }

    /// What is drawn for the cursor. `surface_alive` is whether the cursor's
    /// surface is alive, where it has one, and `icon_alive` whether the drag
    /// icon's is. When the cursor's surface is gone the cursor becomes the
    /// default one for good.
    pub fn build_cursor_elements(
        &mut self,
        alpha: Scalar,
        surface_alive: bool,
        icon_alive: bool,
    ) -> (elements: Vec<CursorElement>)
        ensures
            old(self).wf() ==> final(self).wf(),
            *final(self) == (if !(Scalar { bits: 0 }).at_least_spec(alpha) && old(
                self,
            ).cursor_orphaned(surface_alive) {
                DriftWm {
                    cursor: CursorState {
                        cursor_status: CursorImageStatus::Named(CursorIcon::Default),
                        ..old(self).cursor
                    },
                    ..*old(self)
                }
            } else {
                *old(self)
            }),
            cursor_views(elements@) == old(self).cursor_drawn(alpha, surface_alive, icon_alive),
    {
        let mut elements: Vec<CursorElement> = Vec::new();
        if Scalar::zero().at_least(alpha) {
            assert(cursor_views(elements@) =~= old(self).cursor_drawn(
                alpha,
                surface_alive,
                icon_alive,
            ));
            return elements;
        }
        match &self.cursor.cursor_status {
            CursorImageStatus::Hidden => {},
            CursorImageStatus::Surface(surface) => {
                if !surface_alive {
                    self.cursor.cursor_status = CursorImageStatus::Named(CursorIcon::Default);
                    elements.push(CursorElement::Named(CursorIcon::Default));
                    assert(cursor_views(elements@) =~= old(self).cursor_drawn(
                        alpha,
                        surface_alive,
                        icon_alive,
                    ));
                    return elements;
                }
                elements.push(CursorElement::Surface(*surface));
            },
            CursorImageStatus::Named(icon) => {
                elements.push(CursorElement::Named(icon.duplicate()));
            },
        }
        if let Some(icon) = self.dnd_icon {
            if icon_alive {
                elements.push(CursorElement::DragIcon(icon));
            }
        }
        assert(cursor_views(elements@) =~= old(self).cursor_drawn(
            alpha,
            surface_alive,
            icon_alive,
        ));
        elements
    }

    /// The frame of a named cursor that is drawn at a moment: of the requested
    /// cursor, or of the default one when the theme lacks it. `None` means that
    /// neither could be loaded and nothing is drawn.
    pub fn build_xcursor_elements(
        &self,
        requested: Option<&CursorFrames>,
        fallback: Option<&CursorFrames>,
        now: Timestamp,
    ) -> (r: Option<CursorFrame>)
        requires
            requested matches Some(frames) ==> frames.ready_at(self.start_time, now),
            requested is None ==> (fallback matches Some(frames) ==> frames.ready_at(
                self.start_time,
                now,
            )),
        ensures
            r == (match (requested, fallback) {
                (Some(frames), _) => Some(
                    frames.frames@[frames.index_at(self.start_time, now)],
                ),
                (None, Some(frames)) => Some(
                    frames.frames@[frames.index_at(self.start_time, now)],
                ),
                (None, None) => None,
            }),
    {
        let frames: &CursorFrames = match requested {
            Some(frames) => frames,
            None => match fallback {
                Some(frames) => frames,
                None => {
                    return None;
                },
            },
        };
        let idx: usize = frames.frame_index(self.start_time, now);
        Some(frames.frames[idx])
    }
}

/// The animation clock counts whole milliseconds since the start: it stands still
/// before the start, advances by one with each million nanoseconds, and starts over
/// after two to the power of 32 of them.
pub proof fn lemma_clock_counts_milliseconds(start: Timestamp, now: Timestamp, later: Timestamp)
    ensures
        0 <= clock(start, now) < 0x1_0000_0000,
        now.nanos <= start.nanos ==> clock(start, now) == 0,
        now.nanos >= start.nanos && now.nanos - start.nanos < 0x1_0000_0000 * 1_000_000 ==> {
            &&& clock(start, now) * 1_000_000 <= now.nanos - start.nanos
            &&& now.nanos - start.nanos < (clock(start, now) + 1) * 1_000_000
        },
        start.nanos <= now.nanos && later.nanos == now.nanos + 1_000_000 ==> clock(start, later)
            == clock(start, now) + 1 || (clock(start, now) == 0xffff_ffff && clock(start, later)
            == 0),
{
    if start.nanos <= now.nanos && later.nanos == now.nanos + 1_000_000 {
        let a = (now.nanos - start.nanos) / 1_000_000;
        let b = (later.nanos - start.nanos) / 1_000_000;
        assert(b == a + 1);
        let wrap = 0x1_0000_0000int;
        if a % wrap == wrap - 1 {
            assert((a + 1) % wrap == 0);
        } else {
            assert((a + 1) % wrap == a % wrap + 1);
        }
    }
}

/// The frame that is shown is the one whose turn it is: where the frames of an
/// animation add up to its duration, the time within it lies from the end of the
/// frames before to the end of the one shown. A cursor that does not move shows its
/// first frame.
pub proof fn lemma_frame_is_shown_in_its_turn(
    cursor: CursorFrames,
    start: Timestamp,
    now: Timestamp,
)
    ensures
        cursor.total_duration_ms == 0 ==> cursor.index_at(start, now) == 0,
        cursor.total_duration_ms > 0 && time_of(cursor.frames@, cursor.frames.len() as int)
            == cursor.total_duration_ms ==> {
            let i = cursor.index_at(start, now);
            let time = clock(start, now) % (cursor.total_duration_ms as int);
            &&& 0 <= i < cursor.frames.len()
            &&& time_of(cursor.frames@, i) <= time
            &&& time < time_of(cursor.frames@, i) + cursor.frames@[i].delay
        },
{
    if cursor.total_duration_ms > 0 && time_of(cursor.frames@, cursor.frames.len() as int)
        == cursor.total_duration_ms {
        let total = cursor.total_duration_ms as int;
        let time = clock(start, now) % total;
        vstd::arithmetic::div_mod::lemma_mod_bound(clock(start, now), total);
        lemma_one_frame_is_due(cursor.frames@, time);
        let i = cursor.index_at(start, now);
        assert(frame_at(cursor.frames@, time, i));
        if i > 0 {
            assert(time >= time_of(cursor.frames@, (i - 1) + 1));
        }
    }
}

/// The time that frames take is the sum of their delays, and each frame adds its
/// own.
pub proof fn lemma_frames_take_their_delays(frames: Seq<CursorFrame>, n: int)
    requires
        0 <= n < frames.len(),
    ensures
        time_of(frames, 0) == 0,
        time_of(frames, n + 1) - time_of(frames, n) == frames[n].delay,
{
}

/// Nothing is drawn for a cursor that cannot be seen, and otherwise what its status
/// says: nothing for a hidden one, its surface, or the named one. A drag icon that
/// is alive follows it. A cursor whose surface is gone is drawn as the default one
/// alone.
pub proof fn lemma_cursor_is_drawn_as_its_status_says(
    wm: DriftWm,
    alpha: Scalar,
    surface_alive: bool,
    icon_alive: bool,
)
    ensures
        ({
            let drawn = wm.cursor_drawn(alpha, surface_alive, icon_alive);
            let visible = alpha.nan() || (Scalar { bits: 0 }).below(alpha);
            let status = wm.cursor.cursor_status;
            let icons = if icon_alive && wm.dnd_icon is Some { 1int } else { 0 };
            &&& !visible ==> drawn.len() == 0
            &&& visible && status is Hidden ==> drawn.len() == icons
            &&& visible && status is Surface && surface_alive ==> drawn.len() == 1 + icons
                && drawn[0] == CursorElementView::Surface(status->Surface_0)
            &&& visible && status is Surface && !surface_alive ==> drawn.len() == 1 && drawn[0]
                == CursorElementView::Named("default"@)
            &&& visible && status is Named ==> drawn.len() == 1 + icons && drawn[0]
                == CursorElementView::Named(status->Named_0.label())
            &&& visible && icons == 1 && (status is Surface ==> surface_alive) ==> drawn.last()
                == CursorElementView::DragIcon(wm.dnd_icon->0)
        }),
{
}

} // verus!
