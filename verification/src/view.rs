use vstd::prelude::*;
use vstd::view::View as _;

use rgx::color::Rgba8;
use rgx::kit::Animation;

use crate::animation::{
    animation_delay, animation_delay_of, animation_frames, animation_len, animation_new,
    animation_pause, animation_play, animation_playback, animation_pop_frame,
    animation_playback_of, animation_push_frame, animation_set_delay, animation_step, animation_stop, can_step, step_returns,
    paused, played, stepped, Playback, TimeDelta,
};
use crate::extent::{frame_rect, frames_width, lemma_frames_width_exact, ViewExtent};
use crate::geom::Rect;
use crate::ids::{SnapshotId, ViewId};
use crate::storage::{
    law_storage_reflexive, status_label, status_label_defined, storages_equal, FileStatus,
    FileStorage, StorageView,
};
use crate::paths::{path_components_equal, paths_equal};

verus! {

/// Current state of the view.
#[derive(Debug, Clone, Copy, PartialEq, Eq, Structural)]
pub enum ViewState {
    /// The view is okay. It doesn't need to be redrawn or saved.
    Okay,
    /// The view has been touched, the changes need to be stored in a snapshot.
    Dirty,
    /// The view is damaged, it needs to be redrawn from a snapshot.
    /// This happens when undo/redo is used.
    Damaged(ViewExtent),
}

/// A view operation to be carried out by the renderer.
#[derive(Debug, Clone, Copy)]
pub enum ViewOp {
    /// Copy an area of the view to another area. The coordinates are exact:
    /// the copied frame may be any frame index.
    Blit(Rect<u128>, Rect<u128>),
    /// Clear to a color.
    Clear(Rgba8),
    /// Yank the given area into the paste buffer.
    Yank(Rect<i32>),
    /// Blit the paste buffer into the given area.
    Paste(Rect<i32>),
    /// Resize the view.
    Resize(u32, u32),
}

/// A view on a sprite or image.
#[derive(Debug)]
pub struct View {
    /// Frame width.
    pub fw: u32,
    /// Frame height.
    pub fh: u32,
    /// Identifier.
    pub id: ViewId,
    /// List of operations to carry out on the view.  Cleared every frame.
    pub ops: Vec<ViewOp>,
    /// Whether the view is flipped in the X axis.
    pub flip_x: bool,
    /// Whether the view is flipped in the Y axis.
    pub flip_y: bool,
    /// Status of the file displayed by this view.
    pub file_status: FileStatus,
    /// State of the view.
    pub state: ViewState,
    /// Animation state of the sprite displayed by this view: one rectangle
    /// per frame, in view coordinates.
    pub animation: Animation<Rect<u128>>,
    /// Which view snapshot has been saved to disk, if any.
    pub saved_snapshot: Option<SnapshotId>,
}

/// The file status after the view is touched: a saved file becomes
/// modified.
pub open spec fn touched_status(s: FileStatus) -> FileStatus {
    match s {
        FileStatus::Saved(f) => FileStatus::Modified(f),
        _ => s,
    }
}

/// The view state after the view is touched: an okay view becomes dirty.
pub open spec fn touched_state(s: ViewState) -> ViewState {
    match s {
        ViewState::Okay => ViewState::Dirty,
        _ => s,
    }
}

/// The frames are laid out side by side: frame `i` of a strip of `fw` by
/// `fh` frames is at `(i * fw, 0)`.
pub open spec fn frames_laid_out(frames: Seq<Rect<u128>>, fw: u32, fh: u32) -> bool {
    forall|i: int| 0 <= i < frames.len() ==> #[trigger] frames[i] == frame_rect(fw, fh, i)
}

impl View {
    /// The frames of the view's animation.
    pub open spec fn frames(&self) -> Seq<Rect<u128>> {
        animation_frames(self.animation)
    }

    /// The width of the view: frame width times number of frames.
    pub open spec fn width_spec(&self) -> int {
        frames_width(self.fw, self.frames().len() as int)
    }

    /// The width of the view is within `u32`.
    pub open spec fn width_fits(&self) -> bool {
        self.width_spec() <= u32::MAX
    }

    /// The view's extent: its frame size and number of frames.
    pub open spec fn extent_spec(&self) -> ViewExtent {
        ViewExtent { fw: self.fw, fh: self.fh, nframes: self.frames().len() as usize }
    }

    /// Everything but the operations, the file status and the state is
    /// the same in `a` and `b`.
    pub open spec fn same_but_ops_and_status(a: View, b: View) -> bool {
        &&& a.fw == b.fw
        &&& a.fh == b.fh
        &&& a.id == b.id
        &&& a.flip_x == b.flip_x
        &&& a.flip_y == b.flip_y
        &&& a.animation == b.animation
        &&& a.saved_snapshot == b.saved_snapshot
    }

    /// Everything but the frame layout (frame size and frames), the
    /// operations, the file status and the state is the same in `a` and `b`.
    pub open spec fn same_but_layout_ops_and_status(a: View, b: View) -> bool {
        &&& a.id == b.id
        &&& a.flip_x == b.flip_x
        &&& a.flip_y == b.flip_y
        &&& a.saved_snapshot == b.saved_snapshot
    }

    /// Everything but the animation is the same in `a` and `b`.
    pub open spec fn same_but_animation(a: View, b: View) -> bool {
        &&& a.fw == b.fw
        &&& a.fh == b.fh
        &&& a.id == b.id
        &&& a.ops == b.ops
        &&& a.flip_x == b.flip_x
        &&& a.flip_y == b.flip_y
        &&& a.file_status == b.file_status
        &&& a.state == b.state
        &&& a.saved_snapshot == b.saved_snapshot
    }

    /// `v` is a view just created with these arguments: no operations, not
    /// flipped, okay, `nframes` frames of `fw` by `fh` laid out side by side,
    /// playing from the start with a delay of `delay` milliseconds, and saved
    /// at the first snapshot if its file is saved.
    pub open spec fn is_fresh(v: View, id: ViewId, fs: FileStatus, fw: u32, fh: u32, nframes: usize, delay: u64) -> bool {
        &&& v.id == id
        &&& v.fw == fw
        &&& v.fh == fh
        &&& v.ops@ == Seq::<ViewOp>::empty()
        &&& !v.flip_x
        &&& !v.flip_y
        &&& v.file_status == fs
        &&& v.state == ViewState::Okay
        &&& v.frames().len() == nframes
        &&& frames_laid_out(v.frames(), fw, fh)
        &&& animation_playback(v.animation) == Playback::Playing(0, 0)
        &&& animation_delay(v.animation) == delay * 1_000_000
        &&& v.saved_snapshot == (if fs is Saved { Some(SnapshotId(0)) } else { None::<SnapshotId> })
    }

    /// `b` is `a` extended by one frame: the frame is added after the last
    /// one, the renderer is asked to resize the view, and the view is
    /// touched.
    pub open spec fn extended_by_one(a: View, b: View) -> bool {
        &&& b.frames() == a.frames().push(frame_rect(a.fw, a.fh, a.frames().len() as int))
        &&& b.ops@ == a.ops@.push(ViewOp::Resize((a.fw * (a.frames().len() + 1)) as u32, a.fh))
        &&& b.file_status == touched_status(a.file_status)
        &&& b.state == touched_state(a.state)
        &&& b.fw == a.fw
        &&& b.fh == a.fh
        &&& animation_playback(b.animation) == animation_playback(a.animation)
        &&& animation_delay(b.animation) == animation_delay(a.animation)
        &&& View::same_but_layout_ops_and_status(b, a)
    }

    /// `b` is `a` shrunk by one frame: a view of more than one frame loses
    /// its last frame, the renderer is asked to resize it, and it is
    /// touched; a view of one frame or none is left as it is.
    pub open spec fn shrunk_by_one(a: View, b: View) -> bool {
        if a.frames().len() > 1 {
            &&& b.frames() == a.frames().drop_last()
            &&& b.ops@ == a.ops@.push(ViewOp::Resize((a.fw * (a.frames().len() - 1)) as u32, a.fh))
            &&& b.file_status == touched_status(a.file_status)
            &&& b.state == touched_state(a.state)
            &&& b.fw == a.fw
            &&& b.fh == a.fh
            &&& animation_playback(b.animation) == animation_playback(a.animation)
            &&& animation_delay(b.animation) == animation_delay(a.animation)
            &&& View::same_but_layout_ops_and_status(b, a)
        } else {
            b == a
        }
    }

    /// Create a new view. Takes a frame width and height.
    pub fn new(id: ViewId, fs: FileStatus, fw: u32, fh: u32, nframes: usize, delay: u64) -> (v: Self)
        ensures
            View::is_fresh(v, id, fs, fw, fh, nframes, delay),
    {
        let saved_snapshot = match &fs {
            FileStatus::Saved(_) => Some(SnapshotId::default()),
            _ => None,
        };
        let frames = layout_frames(fw, fh, nframes);
        View {
            id,
            fw,
            fh,
            ops: Vec::new(),
            flip_x: false,
            flip_y: false,
            file_status: fs,
            animation: animation_new(&frames, TimeDelta::from_millis(delay)),
            state: ViewState::Okay,
            saved_snapshot,
        }
    }
}


/// Whether saving to `storage` applies to a view with file status `s`: a new
/// or modified file is saved only to its own storage; a view without a file
/// is saved to any storage; a saved file is left alone.
pub open spec fn save_applies(s: FileStatus, storage: FileStorage) -> bool {
    match s {
        FileStatus::Modified(curr) => storages_equal(curr@, storage@),
        FileStatus::New(curr) => storages_equal(curr@, storage@),
        FileStatus::NoFile => true,
        FileStatus::Saved(_) => false,
    }
}

/// The file status after restoring a snapshot: if the snapshot is the one
/// saved to disk, a saved or modified file is saved; otherwise a saved file
/// becomes modified. A new file, or no file, is kept.
pub open spec fn restored_status(s: FileStatus, snapshot_on_disk: bool) -> FileStatus {
    match s {
        FileStatus::Modified(f) => if snapshot_on_disk { FileStatus::Saved(f) } else { s },
        FileStatus::Saved(f) => if snapshot_on_disk { s } else { FileStatus::Modified(f) },
        _ => s,
    }
}

/// The index of the frame that `extend_clone(index)` copies, in a view of
/// `len` frames: `-1` stands for the last frame.
pub open spec fn clone_source(index: i32, len: int) -> int {
    if index == -1 { len - 1 } else { (index as usize) as int }
}

/// The copy that `extend_clone` asks of the renderer: frame `src` of a view
/// `width` wide, to the new frame at `width`.
pub open spec fn clone_blit(fw: u32, fh: u32, src: int, width: int) -> ViewOp {
    ViewOp::Blit(
        Rect { x1: (fw * src) as u128, y1: 0u128, x2: (fw * (src + 1)) as u128, y2: fh as u128 },
        Rect { x1: width as u128, y1: 0u128, x2: (width + fw) as u128, y2: fh as u128 },
    )
}

impl View {
    /// View width. Basically frame-width times number of frames.
    pub fn width(&self) -> (w: u32)
        requires
            self.width_fits(),
        ensures
            w == self.width_spec(),
    {
        self.fw * (animation_len(&self.animation) as u32)
    }

    /// View height.
    pub fn height(&self) -> (h: u32)
        ensures
            h == self.fh,
    {
        self.fh
    }

    /// View width and height.
    pub fn size(&self) -> (wh: (u32, u32))
        requires
            self.width_fits(),
        ensures
            wh == (self.width_spec() as u32, self.fh),
    {
        (self.width(), self.height())
    }

    /// View file storage, if any.
    pub fn file_storage(&self) -> (r: Option<&FileStorage>)
        ensures
            r == (match self.file_status {
                FileStatus::New(f) => Some(&f),
                FileStatus::Modified(f) => Some(&f),
                FileStatus::Saved(f) => Some(&f),
                FileStatus::NoFile => None,
            }),
    {
        match &self.file_status {
            FileStatus::New(f) => Some(f),
            FileStatus::Modified(f) => Some(f),
            FileStatus::Saved(f) => Some(f),
            FileStatus::NoFile => None,
        }
    }

    /// View has been modified. Called when using the brush on the view,
    /// or resizing the view.
    pub fn touch(&mut self)
        ensures
            final(self).file_status == touched_status(old(self).file_status),
            final(self).state == touched_state(old(self).state),
            final(self).ops == old(self).ops,
            View::same_but_ops_and_status(*final(self), *old(self)),
    {
        let mut fs = FileStatus::NoFile;
        std::mem::swap(&mut fs, &mut self.file_status);
        self.file_status = match fs {
            FileStatus::Saved(f) => FileStatus::Modified(f),
            other => other,
        };
        if let ViewState::Okay = self.state {
            self.state = ViewState::Dirty;
        }
    }

    /// The view was resized: it is touched, and the renderer is asked to
    /// resize it.
    fn resized(&mut self)
        requires
            old(self).width_fits(),
        ensures
            final(self).file_status == touched_status(old(self).file_status),
            final(self).state == touched_state(old(self).state),
            final(self).ops@ == old(self).ops@.push(
                ViewOp::Resize(old(self).width_spec() as u32, old(self).fh),
            ),
            View::same_but_ops_and_status(*final(self), *old(self)),
    {
        self.touch();
        let w = self.width();
        let h = self.height();
        self.ops.push(ViewOp::Resize(w, h));
    }

    /// Mark the view as saved at a given snapshot.
    fn saved(&mut self, id: SnapshotId, storage: FileStorage)
        ensures
            final(self).file_status == FileStatus::Saved(storage),
            final(self).saved_snapshot == Some(id),
            final(self).fw == old(self).fw,
            final(self).fh == old(self).fh,
            final(self).id == old(self).id,
            final(self).ops == old(self).ops,
            final(self).flip_x == old(self).flip_x,
            final(self).flip_y == old(self).flip_y,
            final(self).state == old(self).state,
            final(self).animation == old(self).animation,
    {
        self.file_status = FileStatus::Saved(storage);
        self.saved_snapshot = Some(id);
    }

    /// Mark the view as saved at a specific snapshot and with
    /// the given storage.
    pub fn save_as(&mut self, id: SnapshotId, storage: FileStorage)
        ensures
            save_applies(old(self).file_status, storage) ==> {
                &&& final(self).file_status == FileStatus::Saved(storage)
                &&& final(self).saved_snapshot == Some(id)
            },
            !save_applies(old(self).file_status, storage) ==> {
                &&& final(self).file_status == old(self).file_status
                &&& final(self).saved_snapshot == old(self).saved_snapshot
            },
            final(self).fw == old(self).fw,
            final(self).fh == old(self).fh,
            final(self).id == old(self).id,
            final(self).ops == old(self).ops,
            final(self).flip_x == old(self).flip_x,
            final(self).flip_y == old(self).flip_y,
            final(self).state == old(self).state,
            final(self).animation == old(self).animation,
    {
        let applies = match &self.file_status {
            FileStatus::Modified(curr) => curr.eq(&storage),
            FileStatus::New(curr) => curr.eq(&storage),
            FileStatus::NoFile => true,
            FileStatus::Saved(_) => false,
        };
        if applies {
            self.saved(id, storage);
        }
    }

    /// Extend the view by one frame.
    pub fn extend(&mut self)
        requires
            old(self).fw * (old(self).frames().len() + 1) <= u32::MAX,
        ensures
            View::extended_by_one(*old(self), *final(self)),
            frames_laid_out(old(self).frames(), old(self).fw, old(self).fh)
                ==> frames_laid_out(final(self).frames(), final(self).fw, final(self).fh),
    {
        let ghost n = self.frames().len();
        proof {
            assert(self.fw * n <= self.fw * (n + 1)) by (nonlinear_arith);
            assert(self.fw * (n + 1) == self.fw * n + self.fw) by (nonlinear_arith);
            lemma_frames_width_exact(self.fw, n as int);
        }
        let w = self.width();
        let fw = self.fw;
        let fh = self.fh;
        animation_push_frame(&mut self.animation, Rect::new(w as u128, 0, w as u128 + fw as u128, fh as u128));
        proof {
            lemma_frames_width_exact(self.fw, (n + 1) as int);
        }
        self.resized();
    }

    /// Shrink the view by one frame. A view is never left without frames.
    pub fn shrink(&mut self)
        requires
            old(self).frames().len() > 1 ==> old(self).fw * (old(self).frames().len() - 1) <= u32::MAX,
        ensures
            View::shrunk_by_one(*old(self), *final(self)),
            old(self).frames().len() >= 1 ==> final(self).frames().len() >= 1,
            frames_laid_out(old(self).frames(), old(self).fw, old(self).fh)
                ==> frames_laid_out(final(self).frames(), final(self).fw, final(self).fh),
    {
        if animation_len(&self.animation) > 1 {
            let ghost n = self.frames().len();
            let _ = animation_pop_frame(&mut self.animation);
            proof {
                lemma_frames_width_exact(self.fw, (n - 1) as int);
            }
            self.resized();
        }
    }

    /// Extend the view by one frame, by cloning an existing frame, by index:
    /// `-1` stands for the last frame.
    pub fn extend_clone(&mut self, index: i32)
        requires
            old(self).fw * (old(self).frames().len() + 1) <= u32::MAX,
            index == -1 ==> old(self).frames().len() >= 1,
        ensures
            final(self).frames() == old(self).frames().push(
                frame_rect(old(self).fw, old(self).fh, old(self).frames().len() as int),
            ),
            final(self).ops@ == old(self).ops@.push(
                ViewOp::Resize(
                    (old(self).fw * (old(self).frames().len() + 1)) as u32,
                    old(self).fh,
                ),
            ).push(
                clone_blit(
                    old(self).fw,
                    old(self).fh,
                    clone_source(index, old(self).frames().len() as int),
                    old(self).fw * old(self).frames().len(),
                ),
            ),
            final(self).file_status == touched_status(old(self).file_status),
            final(self).state == touched_state(old(self).state),
            final(self).fw == old(self).fw,
            final(self).fh == old(self).fh,
            animation_playback(final(self).animation) == animation_playback(old(self).animation),
            animation_delay(final(self).animation) == animation_delay(old(self).animation),
            View::same_but_layout_ops_and_status(*final(self), *old(self)),
            frames_laid_out(old(self).frames(), old(self).fw, old(self).fh)
                ==> frames_laid_out(final(self).frames(), final(self).fw, final(self).fh),
    {
        let ghost n = self.frames().len();
        proof {
            assert(self.fw * n <= self.fw * (n + 1)) by (nonlinear_arith);
            lemma_frames_width_exact(self.fw, n as int);
        }
        let width = self.width();
        let fw = self.fw;
        let fh = self.fh;
        let index: usize = if index == -1 {
            animation_len(&self.animation) - 1
        } else {
            index as usize
        };
        self.extend();
        proof {
            let a = fw as u128;
            let b = index as u128;
            assert(a * (b + 1) <= 0xffff_ffffu128 * 0x1_0000_0000_0000_0000u128) by (nonlinear_arith)
                requires a <= 0xffff_ffffu128, b + 1 <= 0x1_0000_0000_0000_0000u128;
            assert(a * b <= a * (b + 1)) by (nonlinear_arith);
        }
        let src = Rect::new(
            (fw as u128) * (index as u128),
            0,
            (fw as u128) * (index as u128 + 1),
            fh as u128,
        );
        let dst = Rect::new(width as u128, 0, width as u128 + fw as u128, fh as u128);
        self.ops.push(ViewOp::Blit(src, dst));
    }

    /// Reset the view by providing frame size and number of frames.
    fn reset(&mut self, extent: ViewExtent)
        ensures
            final(self).fw == extent.fw,
            final(self).fh == extent.fh,
            final(self).frames().len() == extent.nframes,
            frames_laid_out(final(self).frames(), extent.fw, extent.fh),
            animation_playback(final(self).animation) == Playback::Playing(0, 0),
            animation_delay(final(self).animation) == animation_delay(old(self).animation),
            final(self).ops == old(self).ops,
            final(self).file_status == old(self).file_status,
            final(self).state == old(self).state,
            View::same_but_layout_ops_and_status(*final(self), *old(self)),
    {
        self.fw = extent.fw;
        self.fh = extent.fh;
        let frames = layout_frames(self.fw, self.fh, extent.nframes);
        let delay = animation_delay_of(&self.animation);
        self.animation = animation_new(&frames, delay);
    }

    /// Resize view frames to the given size.
    pub fn resize_frames(&mut self, fw: u32, fh: u32)
        requires
            fw * old(self).frames().len() <= u32::MAX,
        ensures
            final(self).fw == fw,
            final(self).fh == fh,
            final(self).frames().len() == old(self).frames().len(),
            frames_laid_out(final(self).frames(), fw, fh),
            animation_playback(final(self).animation) == Playback::Playing(0, 0),
            animation_delay(final(self).animation) == animation_delay(old(self).animation),
            final(self).ops@ == old(self).ops@.push(
                ViewOp::Resize((fw * old(self).frames().len()) as u32, fh),
            ),
            final(self).file_status == touched_status(old(self).file_status),
            final(self).state == touched_state(old(self).state),
            View::same_but_layout_ops_and_status(*final(self), *old(self)),
    {
        let n = animation_len(&self.animation);
        self.reset(ViewExtent::new(fw, fh, n));
        proof {
            lemma_frames_width_exact(fw, n as int);
        }
        self.resized();
    }

    /// Clear the view to a color.
    pub fn clear(&mut self, color: Rgba8)
        ensures
            final(self).ops@ == old(self).ops@.push(ViewOp::Clear(color)),
            final(self).file_status == touched_status(old(self).file_status),
            final(self).state == touched_state(old(self).state),
            View::same_but_ops_and_status(*final(self), *old(self)),
    {
        self.ops.push(ViewOp::Clear(color));
        self.touch();
    }

    /// Yank the given area into the paste buffer.
    pub fn yank(&mut self, area: Rect<i32>)
        ensures
            final(self).ops@ == old(self).ops@.push(ViewOp::Yank(area)),
            final(self).file_status == old(self).file_status,
            final(self).state == old(self).state,
            View::same_but_ops_and_status(*final(self), *old(self)),
    {
        self.ops.push(ViewOp::Yank(area));
    }

    /// Blit the paste buffer into the given area.
    pub fn paste(&mut self, area: Rect<i32>)
        ensures
            final(self).ops@ == old(self).ops@.push(ViewOp::Paste(area)),
            final(self).file_status == touched_status(old(self).file_status),
            final(self).state == touched_state(old(self).state),
            View::same_but_ops_and_status(*final(self), *old(self)),
    {
        self.ops.push(ViewOp::Paste(area));
        self.touch();
    }

    /// Slice the view into the given number of frames. This succeeds where
    /// the number of frames, as a `u32`, divides the width; the frames are
    /// then that many parts of the width.
    pub fn slice(&mut self, nframes: usize) -> (r: bool)
        requires
            nframes > 0 ==> old(self).width_fits(),
            nframes > 0 ==> (nframes as u32) != 0,
        ensures
            r == (nframes > 0 && old(self).width_spec() % (nframes as u32) as int == 0),
            r ==> {
                &&& final(self).fw == old(self).width_spec() / (nframes as u32) as int
                &&& final(self).fh == old(self).fh
                &&& final(self).frames().len() == nframes
                &&& frames_laid_out(final(self).frames(), final(self).fw, final(self).fh)
                &&& final(self).width_spec() == old(self).width_spec()
                &&& animation_playback(final(self).animation) == Playback::Playing(0, 0)
                &&& animation_delay(final(self).animation) == animation_delay(old(self).animation)
                &&& final(self).ops == old(self).ops
                &&& final(self).file_status == touched_status(old(self).file_status)
                &&& final(self).state == touched_state(old(self).state)
                &&& View::same_but_layout_ops_and_status(*final(self), *old(self))
            },
            !r ==> *final(self) == *old(self),
    {
        if nframes > 0 && self.width() % (nframes as u32) == 0 {
            let width = self.width();
            let fw = width / (nframes as u32);
            proof {
                let m = nframes as u32;
                assert(fw * m == width) by (nonlinear_arith)
                    requires m > 0, width % m == 0, fw == width / m;
            }
            self.reset(ViewExtent::new(fw, self.fh, nframes));
            self.touch();
            return true;
        }
        false
    }

    /// Check whether the given snapshot has been saved to disk.
    fn is_snapshot_saved(&self, id: SnapshotId) -> (r: bool)
        ensures
            r == (self.saved_snapshot == Some(id)),
    {
        match self.saved_snapshot {
            Some(s) => s.0 == id.0,
            None => false,
        }
    }

    /// Restore a view to a given snapshot and extent. If the snapshot was
    /// saved to disk, the view is marked as saved too; otherwise, a view that
    /// was saved before the snapshot is restored is marked as modified.
    pub fn restore(&mut self, sid: SnapshotId, extent: ViewExtent)
        ensures
            final(self).fw == extent.fw,
            final(self).fh == extent.fh,
            final(self).frames().len() == extent.nframes,
            frames_laid_out(final(self).frames(), extent.fw, extent.fh),
            animation_playback(final(self).animation) == Playback::Playing(0, 0),
            animation_delay(final(self).animation) == animation_delay(old(self).animation),
            final(self).state == ViewState::Damaged(extent),
            final(self).extent_spec() == extent,
            final(self).file_status == restored_status(
                old(self).file_status,
                old(self).saved_snapshot == Some(sid),
            ),
            final(self).ops == old(self).ops,
            View::same_but_layout_ops_and_status(*final(self), *old(self)),
    {
        self.reset(extent);
        self.damaged();
        let on_disk = self.is_snapshot_saved(sid);
        let mut fs = FileStatus::NoFile;
        std::mem::swap(&mut fs, &mut self.file_status);
        self.file_status = match fs {
            FileStatus::Modified(f) => if on_disk {
                FileStatus::Saved(f)
            } else {
                FileStatus::Modified(f)
            },
            FileStatus::Saved(f) => if on_disk {
                FileStatus::Saved(f)
            } else {
                FileStatus::Modified(f)
            },
            other => other,
        };
    }

    /// Start or resume the animation.
    pub fn play_animation(&mut self)
        ensures
            animation_playback(final(self).animation) == played(animation_playback(old(self).animation)),
            animation_frames(final(self).animation) == animation_frames(old(self).animation),
            animation_delay(final(self).animation) == animation_delay(old(self).animation),
            View::same_but_animation(*final(self), *old(self)),
    {
        animation_play(&mut self.animation);
    }

    /// Pause the animation.
    pub fn pause_animation(&mut self)
        ensures
            animation_playback(final(self).animation) == paused(animation_playback(old(self).animation)),
            animation_frames(final(self).animation) == animation_frames(old(self).animation),
            animation_delay(final(self).animation) == animation_delay(old(self).animation),
            View::same_but_animation(*final(self), *old(self)),
    {
        animation_pause(&mut self.animation);
    }

    /// Stop the animation.
    pub fn stop_animation(&mut self)
        ensures
            animation_playback(final(self).animation) == Playback::Stopped,
            animation_frames(final(self).animation) == animation_frames(old(self).animation),
            animation_delay(final(self).animation) == animation_delay(old(self).animation),
            View::same_but_animation(*final(self), *old(self)),
    {
        animation_stop(&mut self.animation);
    }

    /// Set the delay between animation frames, in milliseconds.
    pub fn set_animation_delay(&mut self, ms: u64)
        ensures
            animation_delay(final(self).animation) == ms * 1_000_000,
            animation_frames(final(self).animation) == animation_frames(old(self).animation),
            animation_playback(final(self).animation) == animation_playback(old(self).animation),
            View::same_but_animation(*final(self), *old(self)),
    {
        animation_set_delay(&mut self.animation, TimeDelta::from_millis(ms));
    }

    /// Set the view state to `Okay`.
    pub fn okay(&mut self)
        ensures
            final(self).state == ViewState::Okay,
            final(self).ops == old(self).ops,
            final(self).file_status == old(self).file_status,
            View::same_but_ops_and_status(*final(self), *old(self)),
    {
        self.state = ViewState::Okay;
    }

    /// Update the view by one "tick" of `delta`.
    pub fn update(&mut self, delta: TimeDelta)
        requires
            delta.representable(),
            can_step(animation_playback(old(self).animation), animation_delay(old(self).animation), delta.total_nanos()),
        ensures
            animation_playback(final(self).animation) == stepped(
                animation_playback(old(self).animation),
                animation_delay(old(self).animation),
                delta.total_nanos(),
            ),
            animation_frames(final(self).animation) == animation_frames(old(self).animation),
            animation_delay(final(self).animation) == animation_delay(old(self).animation),
            View::same_but_animation(*final(self), *old(self)),
    {
        animation_step(&mut self.animation, delta);
    }

    /// Update the view by one "tick" of `delta` where the animation can
    /// step by it (see [`View::update`]); otherwise leave it as it is.
    /// Returns whether it stepped.
    pub fn try_update(&mut self, delta: TimeDelta) -> (r: bool)
        ensures
            r == (delta.representable() && can_step(
                animation_playback(old(self).animation),
                animation_delay(old(self).animation),
                delta.total_nanos(),
            )),
            r ==> animation_playback(final(self).animation) == stepped(
                animation_playback(old(self).animation),
                animation_delay(old(self).animation),
                delta.total_nanos(),
            ),
            !r ==> animation_playback(final(self).animation) == animation_playback(old(self).animation),
            animation_frames(final(self).animation) == animation_frames(old(self).animation),
            animation_delay(final(self).animation) == animation_delay(old(self).animation),
            View::same_but_animation(*final(self), *old(self)),
    {
        let p = animation_playback_of(&self.animation);
        let delay = animation_delay_of(&self.animation);
        if step_returns(p, delay, delta) {
            self.update(delta);
            true
        } else {
            false
        }
    }

    /// View should be considered damaged and needs to be restored from
    /// snapshot. Used when undoing or redoing changes.
    pub fn damaged(&mut self)
        ensures
            final(self).state == ViewState::Damaged(old(self).extent_spec()),
            final(self).ops == old(self).ops,
            final(self).file_status == old(self).file_status,
            View::same_but_ops_and_status(*final(self), *old(self)),
    {
        self.state = ViewState::Damaged(self.extent());
    }

    /// Check whether the view is damaged.
    pub fn is_damaged(&self) -> (r: bool)
        ensures
            r == (self.state is Damaged),
    {
        if let ViewState::Damaged(_) = self.state {
            true
        } else {
            false
        }
    }

    /// Check whether the view is dirty.
    pub fn is_dirty(&self) -> (r: bool)
        ensures
            r == (self.state == ViewState::Dirty),
    {
        if let ViewState::Dirty = self.state {
            true
        } else {
            false
        }
    }

    /// Check whether the view is okay.
    pub fn is_okay(&self) -> (r: bool)
        ensures
            r == (self.state == ViewState::Okay),
    {
        if let ViewState::Okay = self.state {
            true
        } else {
            false
        }
    }

    /// Return the file status as a string.
    pub fn status(&self) -> (s: String)
        requires
            status_label_defined(self.file_status@),
        ensures
            s@ == status_label(self.file_status@),
    {
        self.file_status.to_string()
    }

    /// Return the file status as a string, or `None` where the storage label
    /// cannot be written (see `FileStorage::to_string`).
    pub fn try_status(&self) -> (s: Option<String>)
        ensures
            s is Some <==> status_label_defined(self.file_status@),
            s matches Some(t) ==> t@ == status_label(self.file_status@),
    {
        match self.file_status.try_to_string() {
            Some(_) => Some(self.status()),
            None => None,
        }
    }

    /// Return the view extent.
    pub fn extent(&self) -> (e: ViewExtent)
        ensures
            e == self.extent_spec(),
    {
        ViewExtent::new(self.fw, self.fh, animation_len(&self.animation))
    }

    /// Return the view bounds, as an origin-anchored rectangle.
    pub fn bounds(&self) -> (r: Rect<i32>)
        requires
            self.width_fits(),
        ensures
            r == (Rect { x1: 0i32, y1: 0i32, x2: self.width_spec() as i32, y2: self.fh as i32 }),
    {
        Rect::<i32>::origin(self.width() as i32, self.height() as i32)
    }
}

/// The rectangles of `nframes` frames of `fw` by `fh`, side by side.
fn layout_frames(fw: u32, fh: u32, nframes: usize) -> (frames: Vec<Rect<u128>>)
    ensures
        frames@.len() == nframes,
        frames_laid_out(frames@, fw, fh),
{
    let mut frames: Vec<Rect<u128>> = Vec::new();
    let mut i: usize = 0;
    let mut x: u128 = 0;
    while i < nframes
        invariant
            0 <= i <= nframes,
            x == fw * i,
            frames@.len() == i,
            frames_laid_out(frames@, fw, fh),
        decreases nframes - i,
    {
        proof {
            assert(fw * (i + 1) <= 0xffff_ffff * 0x1_0000_0000_0000_0000) by (nonlinear_arith)
                requires fw <= 0xffff_ffff, i + 1 <= 0x1_0000_0000_0000_0000;
            assert(fw * (i + 1) == fw * i + fw) by (nonlinear_arith);
            assert(0 <= fw * i) by (nonlinear_arith);
        }
        frames.push(Rect::new(x, 0, x + fw as u128, fh as u128));
        x = x + fw as u128;
        i += 1;
    }
    frames
}

/// Saving a new or modified file to its own storage applies; saving a saved
/// file does not.
pub proof fn law_save_to_own_storage(f: FileStorage)
    ensures
        save_applies(FileStatus::New(f), f),
        save_applies(FileStatus::Modified(f), f),
        !save_applies(FileStatus::Saved(f), f),
{
    law_storage_reflexive(f@);
}

/// Touching a view twice is touching it once: the file status and the view
/// state after a second touch are those after the first.
pub proof fn law_touch_idempotent(s: FileStatus, st: ViewState)
    ensures
        touched_status(touched_status(s)) == touched_status(s),
        touched_state(touched_state(st)) == touched_state(st),
{
}

/// Restoring the snapshot that was saved to disk marks a saved or modified
/// file as saved; restoring another snapshot marks a saved file as modified.
pub proof fn law_restore_marks_saved(f: FileStorage)
    ensures
        restored_status(FileStatus::Saved(f), true) == FileStatus::Saved(f),
        restored_status(FileStatus::Modified(f), true) == FileStatus::Saved(f),
        restored_status(FileStatus::Saved(f), false) == FileStatus::Modified(f),
        restored_status(FileStatus::Modified(f), false) == FileStatus::Modified(f),
{
}

/// Saving a view at snapshot `id`, touching it, and restoring snapshot `id`
/// leaves the file saved again. `v0` is the view before `save_as(id, f)`,
/// `v1` after it, `v2` after `touch`, and `v3` after `restore(id, ..)`.
pub proof fn law_save_touch_restore(v0: View, v1: View, v2: View, v3: View, id: SnapshotId, f: FileStorage)
    requires
        save_applies(v0.file_status, f),
        v1.file_status == FileStatus::Saved(f),
        v1.saved_snapshot == Some(id),
        v2.file_status == touched_status(v1.file_status),
        View::same_but_ops_and_status(v2, v1),
        v3.file_status == restored_status(v2.file_status, v2.saved_snapshot == Some(id)),
    ensures
        v2.file_status == FileStatus::Modified(f),
        v3.file_status == FileStatus::Saved(f),
{
}

/// Shrinking a view of at least one frame right after extending it gives
/// back its frames, its frame size and its animation; the file status and
/// the state are those of a touched view.
pub proof fn law_shrink_undoes_extend(a: View, b: View, c: View)
    requires
        a.frames().len() >= 1,
        View::extended_by_one(a, b),
        View::shrunk_by_one(b, c),
    ensures
        c.frames() == a.frames(),
        c.extent_spec() == a.extent_spec(),
        animation_playback(c.animation) == animation_playback(a.animation),
        animation_delay(c.animation) == animation_delay(a.animation),
        c.file_status == touched_status(a.file_status),
        c.state == touched_state(a.state),
        View::same_but_layout_ops_and_status(c, a),
{
    assert(b.frames().drop_last() =~= a.frames());
}


/// Saving applies to a new file exactly as to a modified one: only where
/// the storage saved to is its own. It always applies to a view without a
/// file, and never to a saved one. A single path is its own storage when it
/// is the same path; a single path and a range never are.
pub proof fn law_save_only_to_own_storage(f: FileStorage, s: FileStorage)
    ensures
        save_applies(FileStatus::New(f), s) == save_applies(FileStatus::Modified(f), s),
        save_applies(FileStatus::NoFile, s),
        !save_applies(FileStatus::Saved(f), s),
        save_applies(FileStatus::New(f), s) <==> storages_equal(f@, s@),
        f@ matches StorageView::Single(p) ==> (s@ matches StorageView::Single(q) ==>
            (save_applies(FileStatus::New(f), s) <==> (p == q || path_components_equal(p, q)))),
        f@ matches StorageView::Range(ps) ==> (s@ matches StorageView::Range(qs) ==>
            (save_applies(FileStatus::New(f), s) <==> {
                &&& ps.len() == qs.len()
                &&& forall|i: int| 0 <= i < ps.len() ==> (#[trigger] ps[i] == qs[i] || path_components_equal(ps[i], qs[i]))
            })),
        (f@ is Single) != (s@ is Single) ==> !save_applies(FileStatus::New(f), s),
{
    if let (StorageView::Range(ps), StorageView::Range(qs)) = (f@, s@) {
        assert forall|i: int| 0 <= i < ps.len() implies (#[trigger] ps[i] == qs[i] || path_components_equal(ps[i], qs[i]))
            <==> paths_equal(ps[i], qs[i]) by {}
    }
}

/// The frame that `extend_clone` copies: a non-negative index names its own
/// frame and `-1` the last one; the copy's source is that frame's rectangle
/// and its target the new frame after the last.
pub proof fn law_extend_clone_copies_its_frame(fw: u32, fh: u32, index: i32, len: int)
    requires
        0 <= index < len || (index == -1 && len >= 1),
    ensures
        index >= 0 ==> clone_source(index, len) == index,
        index == -1 ==> clone_source(index, len) == len - 1,
        ({
            let k = if index == -1 { len - 1 } else { index as int };
            clone_blit(fw, fh, clone_source(index, len), fw * len) == ViewOp::Blit(
                Rect { x1: (fw * k) as u128, y1: 0u128, x2: (fw * k + fw) as u128, y2: fh as u128 },
                Rect { x1: (fw * len) as u128, y1: 0u128, x2: (fw * len + fw) as u128, y2: fh as u128 },
            )
        }),
{
    let k = if index == -1 { len - 1 } else { index as int };
    assert(fw * (k + 1) == fw * k + fw) by (nonlinear_arith);
}

} // verus!
