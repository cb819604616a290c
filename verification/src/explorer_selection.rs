//! Which files are selected in the foreground Explorer window, decided over
//! what the shell reported for each of its open windows. Querying the shell
//! (its window list, each window's handle, view and selected items) is
//! platform work; the choice of window and of paths is made here.
use crate::convert::string_views;
use crate::launch_request::selection_views;
use vstd::prelude::*;

verus! {

/// What the view of one folder window reported.
pub enum FolderView {
    /// Its document, folder view or selection could not be read.
    Unreadable,
    /// The selection was read, its item count could not be.
    CountUnreadable,
    /// The selected items in order: each one's path, or `None` where that
    /// item or its path could not be read.
    Items(Vec<Option<String>>),
}

/// One of the shell's open windows, in the order the shell lists them.
pub enum ShellWindow {
    /// Not a folder browser, or its window handle could not be read.
    Unreadable,
    /// A folder browser: its window handle and what its view reported.
    Folder { handle: u64, view: FolderView },
}

/// The paths among `items` that could be read, in order.
pub open spec fn readable_paths(items: Seq<Option<String>>) -> Seq<Seq<char>>
    decreases items.len(),
{
    if items.len() == 0 {
        Seq::empty()
    } else {
        let rest = readable_paths(items.drop_last());
        match items.last() {
            Some(p) => rest.push(p@),
            None => rest,
        }
    }
}

/// The selection for the foreground window `foreground` (0 when there is
/// none): the first folder window with that handle whose view could be
/// read decides. An unreadable item count or an empty selection gives
/// nothing; otherwise its readable paths. No such window gives nothing.
pub open spec fn spec_selection(foreground: u64, windows: Seq<ShellWindow>) -> Option<Seq<Seq<char>>>
    decreases windows.len(),
{
    if foreground == 0 || windows.len() == 0 {
        None
    } else {
        match windows[0] {
            ShellWindow::Folder { handle, view } => {
                if handle != foreground {
                    spec_selection(foreground, windows.skip(1))
                } else {
                    match view {
                        FolderView::Unreadable => spec_selection(foreground, windows.skip(1)),
                        FolderView::CountUnreadable => None,
                        FolderView::Items(items) => if items@.len() == 0 {
                            None
                        } else {
                            Some(readable_paths(items@))
                        },
                    }
                }
            },
            ShellWindow::Unreadable => spec_selection(foreground, windows.skip(1)),
        }
    }
}

/// The readable paths among `items`.
fn collect_readable(items: &Vec<Option<String>>) -> (r: Vec<String>)
    ensures
        string_views(r@) == readable_paths(items@),
{
    let mut paths: Vec<String> = Vec::new();
    proof {
        assert(items@.take(0) =~= Seq::<Option<String>>::empty());
        assert(string_views(paths@) =~= Seq::<Seq<char>>::empty());
    }
    for j in 0..items.len()
        invariant
            string_views(paths@) == readable_paths(items@.take(j as int)),
    {
        proof {
            assert(items@.take(j + 1).drop_last() =~= items@.take(j as int));
            assert(items@.take(j + 1).last() == items@[j as int]);
        }
        match &items[j] {
            Some(p) => {
                paths.push(p.clone());
                proof {
                    assert(string_views(paths@) =~= readable_paths(items@.take(j as int)).push(p@));
                }
            },
            None => {},
        }
    }
    proof {
        assert(items@.take(items@.len() as int) =~= items@);
    }
    paths
}

/// The paths selected in the foreground Explorer window `foreground` (0
/// when no window is in the foreground), given what the shell reported for
/// each of its open windows.
pub fn foreground_explorer_selection(foreground: u64, windows: &[ShellWindow]) -> (r: Option<Vec<String>>)
    ensures
        selection_views(r) == spec_selection(foreground, windows@),
{
    if foreground == 0 {
        return None;
    }
    proof {
        assert(windows@.skip(0) =~= windows@);
    }
    for i in 0..windows.len()
        invariant
            foreground != 0,
            spec_selection(foreground, windows@) == spec_selection(foreground, windows@.skip(i as int)),
    {
        proof {
            assert(windows@.skip(i as int)[0] == windows@[i as int]);
            assert(windows@.skip(i as int).skip(1) =~= windows@.skip(i + 1));
        }
        match &windows[i] {
            ShellWindow::Folder { handle, view } => {
                if *handle == foreground {
                    match view {
                        FolderView::Unreadable => {},
                        FolderView::CountUnreadable => {
                            return None;
                        },
                        FolderView::Items(items) => {
                            if items.len() == 0 {
                                return None;
                            }
                            return Some(collect_readable(items));
                        },
                    }
                }
            },
            ShellWindow::Unreadable => {},
        }
    }
    proof {
        assert(windows@.skip(windows@.len() as int) =~= Seq::<ShellWindow>::empty());
    }
    None
}

} // verus!
