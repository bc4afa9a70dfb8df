//! The animation-clip editor's rules that do not draw anything: how the keyboard moves
//! through and deletes from a clip's frame list, and where a new clip is written.
use vstd::prelude::*;
use crate::text::{chars_of, string_of, append_str, decimal, push_decimal};
use crate::paths::{join, spec_join};
use crate::workspace::{spec_relativize_asset_path, relativize_asset_path};

verus! {

/// The frame-list keys pressed this frame: Down or Right (`next`), Up or Left
/// (`previous`), and Delete.
#[derive(Debug, Clone, Copy, PartialEq, Eq, Structural)]
pub struct FrameKeys {
    pub next: bool,
    pub previous: bool,
    pub delete: bool,
}

/// The selected frame after the arrow keys: `next` moves down (stopping at the last
/// frame), then `previous` moves up (stopping at the first).
pub open spec fn moved_selection(len: nat, index: nat, keys: FrameKeys) -> nat {
    let a: nat = if keys.next {
        if index + 1 < len {
            index + 1
        } else {
            (len - 1) as nat
        }
    } else {
        index
    };
    if keys.previous {
        if a > 0 {
            (a - 1) as nat
        } else {
            0
        }
    } else {
        a
    }
}

/// Applies the frame-list keys to a clip's frames, the selected (previewed) frame and
/// whether the preview plays. Nothing happens when the clip has no frames or a widget
/// holds keyboard focus. An arrow key stops playback; Delete removes the selected frame
/// and keeps the selection in range. Returns whether the frames changed.
pub fn navigate_frames<T>(frames: &mut Vec<T>, selected: &mut usize, playing: &mut bool, keys: FrameKeys,
    widget_focused: bool) -> (changed: bool)
    requires
        !widget_focused && old(frames)@.len() > 0 && keys.next ==> *old(selected) < usize::MAX,
        !widget_focused && old(frames)@.len() > 0 && keys.delete ==> moved_selection(
            old(frames)@.len(),
            *old(selected) as nat,
            keys,
        ) < old(frames)@.len(),
    ensures
        widget_focused || old(frames)@.len() == 0 ==> !changed && final(frames)@ == old(frames)@ && *final(selected)
            == *old(selected) && *final(playing) == *old(playing),
        !widget_focused && old(frames)@.len() > 0 ==> {
            let m = moved_selection(old(frames)@.len(), *old(selected) as nat, keys);
            &&& changed == keys.delete
            &&& *final(playing) == (*old(playing) && !keys.next && !keys.previous)
            &&& final(frames)@ == if keys.delete {
                old(frames)@.remove(m as int)
            } else {
                old(frames)@
            }
            &&& *final(selected) == if !keys.delete {
                m
            } else if m + 1 < old(frames)@.len() {
                m
            } else if old(frames)@.len() >= 2 {
                (old(frames)@.len() - 2) as nat
            } else {
                0
            }
        },
{
    if frames.len() == 0 || widget_focused {
        return false;
    }
    if keys.next {
        *playing = false;
        let up = *selected + 1;
        *selected = if up < frames.len() {
            up
        } else {
            frames.len() - 1
        };
    }
    if keys.previous {
        *playing = false;
        *selected = if *selected > 0 {
            *selected - 1
        } else {
            0
        };
    }
    if keys.delete {
        frames.remove(*selected);
        let last = if frames.len() > 0 {
            frames.len() - 1
        } else {
            0
        };
        if *selected > last {
            *selected = last;
        }
        return true;
    }
    false
}

pub open spec fn animation_clip_suffix() -> Seq<char> {
    ".animationclip.json"@
}

/// The `attempt`-th file name tried for a new clip named `stem`: `stem.animationclip.json`
/// first, then `stem_2.animationclip.json`, `stem_3...` and so on.
pub open spec fn spec_clip_file_name(stem: Seq<char>, attempt: nat) -> Seq<char> {
    if attempt == 0 {
        stem + animation_clip_suffix()
    } else {
        stem + seq!['_'] + decimal(attempt + 1) + animation_clip_suffix()
    }
}

/// Where the `attempt`-th candidate for a new clip named `stem` lies: in the assets'
/// `animation_clips` folder.
pub fn animation_clip_destination(assets_root: &str, stem: &str, attempt: u64) -> (out: String)
    requires
        attempt < u64::MAX,
    ensures
        out@ == spec_join(spec_join(assets_root@, "animation_clips"@), spec_clip_file_name(stem@, attempt as nat)),
{
    let dir = join(assets_root, "animation_clips");
    let mut name = chars_of(stem);
    if attempt > 0 {
        name.push('_');
        push_decimal(&mut name, attempt + 1);
    }
    append_str(&mut name, ".animationclip.json");
    let file = string_of(name.as_slice());
    proof {
        if attempt == 0 {
            assert(file@ =~= spec_clip_file_name(stem@, attempt as nat));
        } else {
            assert(file@ =~= spec_clip_file_name(stem@, attempt as nat));
        }
    }
    join(dir.as_str(), file.as_str())
}

/// Why a new clip cannot be created from the prompt.
pub open spec fn spec_clip_source(source_sheet: Option<Seq<char>>, assets_root: Option<Seq<char>>) -> Result<
    Seq<char>,
    Seq<char>,
> {
    match source_sheet {
        None => Err("No source texture sheet selected."@),
        Some(sheet) => match assets_root {
            None => Err("No project loaded."@),
            Some(root) => match spec_relativize_asset_path(root, sheet) {
                Some(rel) => Ok(rel),
                None => Err("Source sheet is not inside the project's asset directory."@),
            },
        },
    }
}

/// The texture sheet a new clip starts from, as a game asset path: the prompt needs a
/// source sheet, a loaded project (its assets directory), and a sheet below that directory.
pub fn animation_clip_source(source_sheet: Option<&str>, assets_root: Option<&str>) -> (r: Result<String, String>)
    ensures
        match r {
            Ok(p) => spec_clip_source(
                match source_sheet {
                    Some(s) => Some(s@),
                    None => None,
                },
                match assets_root {
                    Some(a) => Some(a@),
                    None => None,
                },
            ) == Ok::<Seq<char>, Seq<char>>(p@),
            Err(m) => spec_clip_source(
                match source_sheet {
                    Some(s) => Some(s@),
                    None => None,
                },
                match assets_root {
                    Some(a) => Some(a@),
                    None => None,
                },
            ) == Err::<Seq<char>, Seq<char>>(m@),
        },
{
    let sheet = match source_sheet {
        Some(s) => s,
        None => return Err(crate::text::owned("No source texture sheet selected.")),
    };
    let root = match assets_root {
        Some(a) => a,
        None => return Err(crate::text::owned("No project loaded.")),
    };
    match relativize_asset_path(root, sheet) {
        Some(rel) => Ok(rel),
        None => Err(crate::text::owned("Source sheet is not inside the project's asset directory.")),
    }
}

/// The frame-list keys keep a selection that was on a frame on a frame: after moving or
/// deleting, the selection lies within the (possibly shorter) list, unless the list became
/// empty.
pub proof fn law_frame_selection_stays_in_range(len: nat, selected: nat, keys: FrameKeys)
    requires
        0 < len,
        selected < len,
    ensures
        moved_selection(len, selected, keys) < len,
        keys.delete ==> ({
            let m = moved_selection(len, selected, keys);
            let after = if m + 1 < len {
                m
            } else if len >= 2 {
                (len - 2) as nat
            } else {
                0
            };
            len - 1 > 0 ==> after < len - 1
        }),
{
}

} // verus!

verus! {

/// An edit from the frame list of the animation clip editor.
#[derive(Debug, Clone, Copy, PartialEq, Eq, Structural)]
pub enum FrameEdit {
    /// A frame dragged from position `from` and dropped before position `to` (`to` may be
    /// the length, for the end of the list).
    Move { from: usize, to: usize },
    /// The frames at `index` and `index + 1` trade places (the up and down buttons).
    SwapWithNext(usize),
    /// The frame at `index` is repeated right after itself.
    Duplicate(usize),
    /// The frame at `index` is dropped; the selection stays where it was.
    Remove(usize),
}

/// Where a dragged frame lands once it has been taken out of the list.
pub open spec fn move_target(from: usize, to: usize) -> int {
    if to > from { to - 1 } else { to as int }
}

/// Whether a drop changes the order: dropping a frame just before or just after itself
/// leaves it in place.
pub open spec fn move_changes(from: usize, to: usize) -> bool {
    to != from && to != from + 1
}

/// The index of the selection after `SwapWithNext(index)`: it follows the frame it was on.
pub open spec fn swapped_selection(selected: usize, index: usize) -> usize {
    if selected == index {
        (index + 1) as usize
    } else if selected == index + 1 {
        index
    } else {
        selected
    }
}

/// The positions an edit names lie in the list, as the frame list only offers such edits.
pub open spec fn frame_edit_in_range(len: nat, edit: FrameEdit) -> bool {
    match edit {
        FrameEdit::Move { from, to } => from < len && to <= len,
        FrameEdit::SwapWithNext(i) => i + 1 < len,
        FrameEdit::Duplicate(i) => i < len,
        FrameEdit::Remove(i) => i < len,
    }
}

/// Applies an edit of the frame list to the frames and the selected frame. Returns whether
/// the frames changed.
pub fn apply_frame_edit<T: Copy>(frames: &mut Vec<T>, selected: &mut usize, edit: FrameEdit) -> (changed: bool)
    requires
        frame_edit_in_range(old(frames)@.len(), edit),
    ensures
        match edit {
            FrameEdit::Move { from, to } => if move_changes(from, to) {
                &&& changed
                &&& final(frames)@ == old(frames)@.remove(from as int).insert(move_target(from, to), old(frames)@[from as int])
                &&& *final(selected) == move_target(from, to)
            } else {
                !changed && final(frames)@ == old(frames)@ && *final(selected) == *old(selected)
            },
            FrameEdit::SwapWithNext(i) => {
                &&& changed
                &&& final(frames)@ == old(frames)@.update(i as int, old(frames)@[i + 1]).update(i + 1, old(frames)@[i as int])
                &&& *final(selected) == swapped_selection(*old(selected), i)
            },
            FrameEdit::Duplicate(i) => {
                &&& changed
                &&& final(frames)@ == old(frames)@.insert(i + 1, old(frames)@[i as int])
                &&& *final(selected) == i + 1
            },
            FrameEdit::Remove(i) => {
                &&& changed
                &&& final(frames)@ == old(frames)@.remove(i as int)
                &&& *final(selected) == *old(selected)
            },
        },
{
    let len = frames.len();
    assert(len == old(frames)@.len());
    match edit {
        FrameEdit::Move { from, to } => {
            if to == from || to == from + 1 {
                return false;
            }
            let moved = frames.remove(from);
            let target = if to > from { to - 1 } else { to };
            frames.insert(target, moved);
            *selected = target;
            true
        },
        FrameEdit::SwapWithNext(i) => {
            let a = frames[i];
            let b = frames[i + 1];
            frames.set(i, b);
            frames.set(i + 1, a);
            *selected = if *selected == i {
                i + 1
            } else if *selected == i + 1 {
                i
            } else {
                *selected
            };
            true
        },
        FrameEdit::Duplicate(i) => {
            let f = frames[i];
            frames.insert(i + 1, f);
            *selected = i + 1;
            true
        },
        FrameEdit::Remove(i) => {
            frames.remove(i);
            true
        },
    }
}

} // verus!

verus! {

/// The 1-based positions at which `cell` occurs in the clip's frames, increasing.
pub open spec fn frame_ordinals(frames: Seq<u32>, cell: u32) -> Seq<nat>
    decreases frames.len(),
{
    if frames.len() == 0 {
        seq![]
    } else {
        let r = frame_ordinals(frames.drop_last(), cell);
        if frames.last() == cell {
            r.push(frames.len())
        } else {
            r
        }
    }
}

/// Positions written in decimal, separated by commas.
pub open spec fn ordinal_label(ps: Seq<nat>) -> Seq<char>
    decreases ps.len(),
{
    if ps.len() == 0 {
        seq![]
    } else if ps.len() == 1 {
        decimal(ps[0])
    } else {
        ordinal_label(ps.drop_last()) + seq![','] + decimal(ps.last())
    }
}

/// The badge drawn on a grid cell of the clip viewport: the 1-based positions at which the
/// cell occurs in the clip (a cell may repeat), comma-separated; `None` for a cell the clip
/// does not use.
pub fn cell_ordinal_label(frames: &Vec<u32>, cell: u32) -> (label: Option<String>)
    ensures
        frame_ordinals(frames@, cell).len() == 0 ==> label is None,
        frame_ordinals(frames@, cell).len() > 0 ==> (label matches Some(l) && l@ == ordinal_label(
            frame_ordinals(frames@, cell),
        )),
{
    let mut out: Vec<char> = Vec::new();
    let mut any = false;
    let mut i: usize = 0;
    while i < frames.len()
        invariant
            i <= frames@.len(),
            any == (frame_ordinals(frames@.take(i as int), cell).len() > 0),
            out@ == ordinal_label(frame_ordinals(frames@.take(i as int), cell)),
        decreases frames@.len() - i,
    {
        let ghost prev = frame_ordinals(frames@.take(i as int), cell);
        proof {
            assert(frames@.take(i + 1).drop_last() =~= frames@.take(i as int));
        }
        if frames[i] == cell {
            if any {
                out.push(',');
            }
            push_decimal(&mut out, (i + 1) as u64);
            any = true;
            proof {
                let now = frame_ordinals(frames@.take(i + 1), cell);
                assert(now == prev.push((i + 1) as nat));
                assert(now.drop_last() =~= prev);
                if prev.len() == 0 {
                    assert(ordinal_label(prev) =~= Seq::<char>::empty());
                    assert(out@ =~= decimal((i + 1) as nat));
                }
            }
        }
        i = i + 1;
    }
    assert(frames@.take(frames@.len() as int) =~= frames@);
    if any {
        Some(string_of(out.as_slice()))
    } else {
        None
    }
}

/// A click on the clip viewport appends the picked grid cell to the clip, when there is one
/// and it has content (a trim). Returns whether the frames changed.
pub fn append_clicked_cell(frames: &mut Vec<u32>, picked: Option<u32>, cells: &Vec<crate::sheet::GridCell>) -> (changed: bool)
    ensures
        changed == (picked is Some && picked.unwrap() < cells@.len() && cells@[picked.unwrap() as int].trim is Some),
        changed ==> final(frames)@ == old(frames)@.push(picked.unwrap()),
        !changed ==> final(frames)@ == old(frames)@,
{
    match picked {
        Some(i) => {
            if (i as usize) < cells.len() && cells[i as usize].trim.is_some() {
                frames.push(i);
                true
            } else {
                false
            }
        },
        None => false,
    }
}

} // verus!
