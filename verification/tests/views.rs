use rgx::color::Rgba8;
use rgx::kit::AnimationState;
use rx::animation::TimeDelta;
use rx::extent::ViewExtent;
use rx::geom::Rect;
use rx::ids::{SnapshotId, ViewId};
use rx::storage::{FileStatus, FileStorage};
use rx::view::{View, ViewOp, ViewState};
use nonempty::NonEmpty;
use std::time::Duration;

fn single(p: &str) -> FileStorage {
    FileStorage::Single(p.to_string())
}

fn view(fs: FileStatus) -> View {
    View::new(ViewId(1), fs, 16, 8, 3, 100)
}

fn is_saved(fs: &FileStatus, p: &str) -> bool {
    matches!(fs, FileStatus::Saved(s) if *s == single(p))
}

fn is_modified(fs: &FileStatus, p: &str) -> bool {
    matches!(fs, FileStatus::Modified(s) if *s == single(p))
}

#[test]
fn new_view() {
    let v = view(FileStatus::NoFile);
    assert_eq!(v.id, ViewId(1));
    assert_eq!(v.width(), 48);
    assert_eq!(v.height(), 8);
    assert_eq!(v.size(), (48, 8));
    assert_eq!(v.animation.len(), 3);
    assert_eq!(v.animation.frames, vec![
        Rect::new(0, 0, 16, 8),
        Rect::new(16, 0, 32, 8),
        Rect::new(32, 0, 48, 8),
    ]);
    assert_eq!(v.animation.delay, Duration::from_millis(100));
    assert!(matches!(v.animation.state, AnimationState::Playing(0, d) if d == Duration::from_secs(0)));
    assert!(v.ops.is_empty());
    assert!(!v.flip_x && !v.flip_y);
    assert!(v.is_okay());
    assert_eq!(v.saved_snapshot, None);
    assert!(v.file_storage().is_none());
}

#[test]
fn new_view_of_saved_file_is_saved_at_first_snapshot() {
    let v = view(FileStatus::Saved(single("a.png")));
    assert_eq!(v.saved_snapshot, Some(SnapshotId(0)));
    assert!(*v.file_storage().unwrap() == single("a.png"));
}

#[test]
fn touch_marks_modified_and_dirty() {
    let mut v = view(FileStatus::Saved(single("a.png")));
    v.touch();
    assert!(is_modified(&v.file_status, "a.png"));
    assert!(v.is_dirty());
    v.touch();
    assert!(is_modified(&v.file_status, "a.png"));
    assert!(v.is_dirty());
}

#[test]
fn touch_keeps_new_file_and_damaged_state() {
    let mut v = view(FileStatus::New(single("a.png")));
    v.damaged();
    v.touch();
    assert!(matches!(v.file_status, FileStatus::New(_)));
    assert!(v.is_damaged());
}

#[test]
fn extend_adds_a_frame() {
    let mut v = view(FileStatus::Saved(single("a.png")));
    v.extend();
    assert_eq!(v.animation.len(), 4);
    assert_eq!(v.animation.frames[3], Rect::new(48, 0, 64, 8));
    assert_eq!(v.width(), 64);
    assert_eq!(v.ops.len(), 1);
    assert!(matches!(v.ops[0], ViewOp::Resize(64, 8)));
    assert!(is_modified(&v.file_status, "a.png"));
    assert!(v.is_dirty());
}

#[test]
fn shrink_undoes_extend() {
    let mut v = view(FileStatus::NoFile);
    let frames = v.animation.frames.clone();
    v.extend();
    v.shrink();
    assert_eq!(v.animation.frames, frames);
    assert_eq!(v.width(), 48);
    assert!(matches!(v.ops[1], ViewOp::Resize(48, 8)));
}

#[test]
fn shrink_keeps_the_last_frame() {
    let mut v = View::new(ViewId(1), FileStatus::NoFile, 16, 8, 1, 100);
    v.shrink();
    assert_eq!(v.animation.len(), 1);
    assert!(v.ops.is_empty());
    assert!(v.is_okay());
}

#[test]
fn extend_clone_of_last_frame() {
    let mut v = View::new(ViewId(1), FileStatus::NoFile, 16, 8, 2, 100);
    v.extend_clone(-1);
    assert_eq!(v.animation.len(), 3);
    assert_eq!(v.ops.len(), 2);
    assert!(matches!(v.ops[0], ViewOp::Resize(48, 8)));
    match v.ops[1] {
        ViewOp::Blit(src, dst) => {
            assert_eq!(src, Rect::new(16, 0, 32, 8));
            assert_eq!(dst, Rect::new(32, 0, 48, 8));
        }
        _ => panic!("expected a blit"),
    }
}

#[test]
fn extend_clone_of_first_frame() {
    let mut v = View::new(ViewId(1), FileStatus::NoFile, 16, 8, 2, 100);
    v.extend_clone(0);
    match v.ops[1] {
        ViewOp::Blit(src, dst) => {
            assert_eq!(src, Rect::new(0, 0, 16, 8));
            assert_eq!(dst, Rect::new(32, 0, 48, 8));
        }
        _ => panic!("expected a blit"),
    }
}

#[test]
fn resize_frames_keeps_frame_count() {
    let mut v = view(FileStatus::NoFile);
    v.resize_frames(4, 5);
    assert_eq!((v.fw, v.fh), (4, 5));
    assert_eq!(v.animation.frames, vec![
        Rect::new(0, 0, 4, 5),
        Rect::new(4, 0, 8, 5),
        Rect::new(8, 0, 12, 5),
    ]);
    assert_eq!(v.animation.delay, Duration::from_millis(100));
    assert!(matches!(v.ops[0], ViewOp::Resize(12, 5)));
    assert!(v.is_dirty());
}

#[test]
fn clear_yank_and_paste() {
    let mut v = view(FileStatus::NoFile);
    v.yank(Rect::new(0, 0, 2, 2));
    assert!(v.is_okay());
    v.paste(Rect::new(1, 1, 3, 3));
    assert!(v.is_dirty());
    v.okay();
    v.clear(Rgba8::new(1, 2, 3, 4));
    assert!(v.is_dirty());
    assert_eq!(v.ops.len(), 3);
    assert!(matches!(v.ops[0], ViewOp::Yank(r) if r == Rect::new(0, 0, 2, 2)));
    assert!(matches!(v.ops[1], ViewOp::Paste(r) if r == Rect::new(1, 1, 3, 3)));
    assert!(matches!(v.ops[2], ViewOp::Clear(c) if c == Rgba8::new(1, 2, 3, 4)));
}

#[test]
fn slice_into_parts_of_the_width() {
    let mut v = view(FileStatus::NoFile);
    assert!(v.slice(4));
    assert_eq!((v.fw, v.fh), (12, 8));
    assert_eq!(v.animation.len(), 4);
    assert_eq!(v.width(), 48);
    assert_eq!(v.animation.frames[3], Rect::new(36, 0, 48, 8));
    assert!(v.is_dirty());
}

#[test]
fn slice_refused() {
    let mut v = view(FileStatus::NoFile);
    assert!(!v.slice(5));
    assert!(!v.slice(0));
    // With no frames asked for, the width is not computed.
    let mut wide = View::new(ViewId(1), FileStatus::NoFile, u32::MAX, 1, 2, 10);
    assert!(!wide.slice(0));
    assert_eq!((v.fw, v.animation.len()), (16, 3));
    assert!(v.is_okay());
}

#[test]
fn save_as_new_file_at_its_own_storage() {
    let mut v = view(FileStatus::New(single("a.png")));
    v.save_as(SnapshotId(3), single("a.png"));
    assert!(is_saved(&v.file_status, "a.png"));
    assert_eq!(v.saved_snapshot, Some(SnapshotId(3)));
}

fn range_ab() -> FileStorage {
    FileStorage::Range(NonEmpty::from_vec(vec!["d/a.png".to_string(), "d/b.png".to_string()]).unwrap())
}

#[test]
fn save_as_modified_range_at_its_own_storage() {
    let mut v = view(FileStatus::Modified(range_ab()));
    v.save_as(SnapshotId(4), range_ab());
    assert!(matches!(&v.file_status, FileStatus::Saved(s) if *s == range_ab()));
    assert_eq!(v.saved_snapshot, Some(SnapshotId(4)));
}

#[test]
fn save_as_other_storage_is_ignored() {
    let mut v = view(FileStatus::Modified(single("a.png")));
    v.save_as(SnapshotId(3), single("b.png"));
    assert!(is_modified(&v.file_status, "a.png"));
    assert_eq!(v.saved_snapshot, None);
}

#[test]
fn save_as_without_file_and_when_saved() {
    let mut v = view(FileStatus::NoFile);
    v.save_as(SnapshotId(2), single("b.png"));
    assert!(is_saved(&v.file_status, "b.png"));
    v.save_as(SnapshotId(5), single("c.png"));
    assert!(is_saved(&v.file_status, "b.png"));
    assert_eq!(v.saved_snapshot, Some(SnapshotId(2)));
}

#[test]
fn restore_saved_snapshot_marks_saved() {
    let mut v = view(FileStatus::NoFile);
    v.save_as(SnapshotId(2), single("b.png"));
    v.touch();
    assert!(is_modified(&v.file_status, "b.png"));
    let e = ViewExtent::new(8, 8, 2);
    v.restore(SnapshotId(2), e);
    assert!(is_saved(&v.file_status, "b.png"));
    assert_eq!(v.state, ViewState::Damaged(e));
    assert_eq!(v.extent(), e);
    assert_eq!(v.animation.frames, vec![Rect::new(0, 0, 8, 8), Rect::new(8, 0, 16, 8)]);
}

#[test]
fn restore_saved_snapshot_to_a_saved_view_keeps_it_saved() {
    let mut v = view(FileStatus::Saved(single("b.png")));
    v.restore(SnapshotId(0), ViewExtent::new(16, 8, 3));
    assert!(is_saved(&v.file_status, "b.png"));
    assert!(v.is_damaged());
}

#[test]
fn restore_keeps_new_file() {
    let mut v = view(FileStatus::New(single("b.png")));
    v.restore(SnapshotId(0), ViewExtent::new(16, 8, 3));
    assert!(matches!(v.file_status, FileStatus::New(_)));
}

#[test]
fn restore_to_a_large_extent() {
    let mut v = view(FileStatus::NoFile);
    v.restore(SnapshotId(0), ViewExtent::new(u32::MAX, 8, 3));
    assert_eq!(v.extent(), ViewExtent::new(u32::MAX, 8, 3));
    assert_eq!(v.animation.frames[2], Rect::new(2 * u32::MAX as u128, 0, 3 * u32::MAX as u128, 8));
}

#[test]
fn new_view_wider_than_u32() {
    let v = View::new(ViewId(1), FileStatus::NoFile, u32::MAX, 1, 2, 10);
    assert_eq!(v.animation.len(), 2);
    assert_eq!(v.animation.frames[1], Rect::new(u32::MAX as u128, 0, 2 * u32::MAX as u128, 1));
}

#[test]
fn try_update_refuses_a_zero_delay() {
    let mut v = View::new(ViewId(1), FileStatus::NoFile, 16, 8, 3, 0);
    assert!(!v.try_update(TimeDelta { secs: 1, nanos: 0 }));
    assert_eq!(v.animation.cursor(), 0);
    v.pause_animation();
    assert!(v.try_update(TimeDelta { secs: 1, nanos: 0 }));
    let mut v = view(FileStatus::NoFile);
    assert!(v.try_update(TimeDelta { secs: 0, nanos: 150_000_000 }));
    assert_eq!(v.animation.cursor(), 1);
    assert!(!v.try_update(TimeDelta { secs: u64::MAX, nanos: 2_000_000_000 }));
    assert!(!v.try_update(TimeDelta { secs: u64::MAX, nanos: 900_000_000 }));
    assert_eq!(v.animation.cursor(), 1);
}

#[test]
fn restore_other_snapshot() {
    let mut v = view(FileStatus::Saved(single("b.png")));
    v.touch();
    v.restore(SnapshotId(7), ViewExtent::new(16, 8, 3));
    assert!(is_modified(&v.file_status, "b.png"));
    v.save_as(SnapshotId(7), single("b.png"));
    v.restore(SnapshotId(1), ViewExtent::new(16, 8, 3));
    assert!(is_modified(&v.file_status, "b.png"));
}

#[test]
fn damaged_records_the_extent() {
    let mut v = view(FileStatus::NoFile);
    v.damaged();
    assert!(v.is_damaged());
    assert_eq!(v.state, ViewState::Damaged(ViewExtent::new(16, 8, 3)));
    v.okay();
    assert!(v.is_okay() && !v.is_damaged() && !v.is_dirty());
}

#[test]
fn animation_playback() {
    let mut v = view(FileStatus::NoFile);
    v.update(TimeDelta { secs: 0, nanos: 150_000_000 });
    assert_eq!(v.animation.cursor(), 1);
    // Six delays have elapsed, but the cursor moves one frame at a time.
    v.update(TimeDelta { secs: 0, nanos: 500_000_000 });
    assert_eq!(v.animation.cursor(), 2);
    assert_eq!(v.animation.elapsed(), Duration::from_millis(650));
    v.pause_animation();
    assert!(matches!(v.animation.state, AnimationState::Paused(0, d) if d == Duration::from_millis(650)));
    v.update(TimeDelta { secs: 1, nanos: 0 });
    assert_eq!(v.animation.elapsed(), Duration::from_millis(650));
    v.play_animation();
    assert!(matches!(v.animation.state, AnimationState::Playing(0, d) if d == Duration::from_millis(650)));
    v.stop_animation();
    assert!(matches!(v.animation.state, AnimationState::Stopped));
    v.play_animation();
    assert!(matches!(v.animation.state, AnimationState::Playing(0, d) if d == Duration::from_secs(0)));
}

#[test]
fn animation_delay() {
    let mut v = view(FileStatus::NoFile);
    v.set_animation_delay(250);
    assert_eq!(v.animation.delay, Duration::from_millis(250));
    v.update(TimeDelta { secs: 0, nanos: 300_000_000 });
    assert_eq!(v.animation.cursor(), 1);
}

#[test]
fn status_of_view() {
    let v = view(FileStatus::New(single("a.png")));
    assert_eq!(v.status(), "a.png [new]");
    assert_eq!(v.try_status(), Some("a.png [new]".to_string()));
    let v = view(FileStatus::NoFile);
    assert_eq!(v.status(), "");
}

#[test]
fn extent_and_bounds() {
    let v = view(FileStatus::NoFile);
    assert_eq!(v.extent(), ViewExtent::new(16, 8, 3));
    assert_eq!(v.bounds(), Rect::new(0, 0, 48, 8));
}

#[test]
fn time_delta_from_millis() {
    assert_eq!(TimeDelta::from_millis(1500), TimeDelta { secs: 1, nanos: 500_000_000 });
    assert_eq!(TimeDelta::from_millis(0), TimeDelta { secs: 0, nanos: 0 });
    assert_eq!(TimeDelta::from_millis(u64::MAX), TimeDelta { secs: u64::MAX / 1000, nanos: 615_000_000 });
}

#[test]
fn view_delay_of_many_seconds() {
    let mut v = View::new(ViewId(1), FileStatus::NoFile, 16, 8, 3, 2500);
    assert_eq!(v.animation.delay, Duration::from_millis(2500));
    v.resize_frames(2, 2);
    assert_eq!(v.animation.delay, Duration::from_millis(2500));
}
