//! Parsing of `--mode=formats|tools <path>...` launch arguments into a
//! [`LaunchRequest`], shared by the context-menu launcher and the
//! selection overlay path.
use crate::convert::string_views;
use crate::file_type::{detect_category, spec_detect_category, FileCategory};
use crate::text::{chars_of, has_prefix, starts_with, str_is};
use vstd::prelude::*;

verus! {

/// Which wedge menu to open: convertible formats, or advanced tools.
#[derive(Clone, Copy, Debug, PartialEq, Eq, Structural)]
pub enum MenuMode {
    /// Convertible output formats for the dropped/selected file(s).
    Formats,
    /// Advanced tools (compress, crop, trim, split, merge).
    Tools,
}

/// A request to open the wedge menu for a set of files, arriving from
/// outside the normal drag-and-drop flow.
#[derive(Clone, Debug, PartialEq, Eq)]
pub struct LaunchRequest {
    /// Which wedge menu to open.
    pub mode: MenuMode,
    /// The file path(s) the request was made for, in the order given.
    pub paths: Vec<String>,
    /// Category of `paths[0]`.
    pub category: FileCategory,
}

/// The flag prefix `--mode=`.
pub open spec fn mode_prefix() -> Seq<char> {
    seq!['-', '-', 'm', 'o', 'd', 'e', '=']
}

/// `--mode=tools`.
pub open spec fn tools_flag() -> Seq<char> {
    mode_prefix() + seq!['t', 'o', 'o', 'l', 's']
}

/// `--mode=formats`.
pub open spec fn formats_flag() -> Seq<char> {
    mode_prefix() + seq!['f', 'o', 'r', 'm', 'a', 't', 's']
}

/// An argument that is a mode flag (recognized value or not) rather than a path.
pub open spec fn is_mode_arg(a: Seq<char>) -> bool {
    starts_with(a, mode_prefix())
}

/// The mode selected by `args`: the last recognized `--mode=` flag wins;
/// without one, `Formats`.
pub open spec fn spec_mode(args: Seq<Seq<char>>) -> MenuMode
    decreases args.len(),
{
    if args.len() == 0 {
        MenuMode::Formats
    } else if args.last() == tools_flag() {
        MenuMode::Tools
    } else if args.last() == formats_flag() {
        MenuMode::Formats
    } else {
        spec_mode(args.drop_last())
    }
}

/// The arguments of `args` that are paths, in order.
pub open spec fn spec_paths(args: Seq<Seq<char>>) -> Seq<Seq<char>>
    decreases args.len(),
{
    if args.len() == 0 {
        Seq::empty()
    } else if is_mode_arg(args.last()) {
        spec_paths(args.drop_last())
    } else {
        spec_paths(args.drop_last()).push(args.last())
    }
}

/// What [`parse_launch_args`] returns for `args`, as
/// `(mode, paths, category)`; `None` when no path was given.
pub open spec fn spec_launch(args: Seq<Seq<char>>) -> Option<(MenuMode, Seq<Seq<char>>, FileCategory)> {
    let paths = spec_paths(args);
    if paths.len() == 0 {
        None
    } else {
        Some((spec_mode(args), paths, spec_detect_category(paths[0])))
    }
}

/// Parses `--mode=formats|tools` plus one or more file paths out of process
/// arguments (excluding the program name). Returns `None` if no paths were
/// given. `--mode` defaults to `formats`, may appear anywhere, and an
/// unrecognized value is ignored.
pub fn parse_launch_args(args: &[String]) -> (r: Option<LaunchRequest>)
    ensures
        match spec_launch(string_views(args@)) {
            None => r is None,
            Some((mode, paths, category)) => r matches Some(req) && req.mode == mode
                && string_views(req.paths@) == paths && req.category == category,
        },
{
    let mut mode = MenuMode::Formats;
    let mut paths: Vec<String> = Vec::new();
    let prefix = chars_of("--mode=");
    proof {
        reveal_strlit("--mode=");
        reveal_strlit("--mode=tools");
        reveal_strlit("--mode=formats");
        assert(prefix@ =~= mode_prefix());
        assert("--mode=tools"@ =~= tools_flag());
        assert("--mode=formats"@ =~= formats_flag());
    }
    let n = args.len();
    for i in 0..n
        invariant
            n == args@.len(),
            prefix@ == mode_prefix(),
            "--mode=tools"@ == tools_flag(),
            "--mode=formats"@ == formats_flag(),
            mode == spec_mode(string_views(args@).take(i as int)),
            string_views(paths@) == spec_paths(string_views(args@).take(i as int)),
    {
        let ghost pre = string_views(args@).take(i as int);
        let ghost next = string_views(args@).take(i + 1);
        proof {
            assert(next.drop_last() =~= pre);
            assert(next.last() == args@[i as int]@);
        }
        let arg = &args[i];
        let a = chars_of(arg.as_str());
        if str_is(arg.as_str(), "--mode=tools") {
            mode = MenuMode::Tools;
        } else if str_is(arg.as_str(), "--mode=formats") {
            mode = MenuMode::Formats;
        }
        if !has_prefix(&a, &prefix) {
            paths.push(arg.clone());
            proof {
                assert(string_views(paths@) =~= spec_paths(pre).push(arg@));
            }
        }
        proof {
            if next.last() == tools_flag() || next.last() == formats_flag() {
                assert(tools_flag().take(7) =~= mode_prefix());
                assert(formats_flag().take(7) =~= mode_prefix());
            }
        }
    }
    proof {
        assert(string_views(args@).take(n as int) =~= string_views(args@));
    }
    if paths.len() == 0 {
        None
    } else {
        let category = detect_category(paths[0].as_str());
        Some(LaunchRequest { mode, paths, category })
    }
}

/// What [`trigger_request`] returns for a selection, as
/// `(mode, paths, category)`.
pub open spec fn spec_trigger(mode: MenuMode, selection: Option<Seq<Seq<char>>>) -> Option<
    (MenuMode, Seq<Seq<char>>, FileCategory),
> {
    match selection {
        Some(paths) => if paths.len() > 0 && spec_detect_category(paths[0]) != FileCategory::Unknown {
            Some((mode, paths, spec_detect_category(paths[0])))
        } else {
            None
        },
        None => None,
    }
}

/// A selection by the views of its paths.
pub open spec fn selection_views(selection: Option<Vec<String>>) -> Option<Seq<Seq<char>>> {
    match selection {
        Some(v) => Some(string_views(v@)),
        None => None,
    }
}

/// The request a modifier-key trigger raises for the files selected in the
/// foreground file manager window: none when nothing is selected, and none
/// when the first file's category is unknown, since the overlay would have
/// no options to show for it.
pub fn trigger_request(mode: MenuMode, selection: Option<Vec<String>>) -> (r: Option<LaunchRequest>)
    ensures
        match spec_trigger(mode, selection_views(selection)) {
            None => r is None,
            Some((m, paths, category)) => r matches Some(req) && req.mode == m && string_views(req.paths@)
                == paths && req.category == category,
        },
{
    match selection {
        Some(paths) => {
            if paths.len() == 0 {
                return None;
            }
            let category = detect_category(paths[0].as_str());
            if category == FileCategory::Unknown {
                None
            } else {
                Some(LaunchRequest { mode, paths, category })
            }
        },
        None => None,
    }
}

/// `--autostart`, the flag the login entry starts the program with.
pub open spec fn autostart_flag() -> Seq<char> {
    seq!['-', '-', 'a', 'u', 't', 'o', 's', 't', 'a', 'r', 't']
}

/// `args` with every `--autostart` flag taken out.
pub open spec fn without_autostart(args: Seq<Seq<char>>) -> Seq<Seq<char>>
    decreases args.len(),
{
    if args.len() == 0 {
        Seq::empty()
    } else {
        let rest = without_autostart(args.drop_last());
        if args.last() == autostart_flag() {
            rest
        } else {
            rest.push(args.last())
        }
    }
}

/// How the process was started, from its arguments (the program name left
/// out): whether the login entry started it (`--autostart` is among them),
/// and the launch request the other arguments make, if any. A second
/// instance forwards its arguments through the same reading.
pub fn startup_launch(args: &[String]) -> (r: (bool, Option<LaunchRequest>))
    ensures
        r.0 == string_views(args@).contains(autostart_flag()),
        match spec_launch(without_autostart(string_views(args@))) {
            None => r.1 is None,
            Some((mode, paths, category)) => r.1 matches Some(req) && req.mode == mode && string_views(req.paths@)
                == paths && req.category == category,
        },
{
    let mut autostart = false;
    let mut rest: Vec<String> = Vec::new();
    proof {
        reveal_strlit("--autostart");
        assert("--autostart"@ =~= autostart_flag());
        assert(string_views(args@).take(0) =~= Seq::<Seq<char>>::empty());
        assert(string_views(rest@) =~= Seq::<Seq<char>>::empty());
    }
    for i in 0..args.len()
        invariant
            "--autostart"@ == autostart_flag(),
            autostart == string_views(args@).take(i as int).contains(autostart_flag()),
            string_views(rest@) == without_autostart(string_views(args@).take(i as int)),
    {
        let ghost pre = string_views(args@).take(i as int);
        let ghost next = string_views(args@).take(i + 1);
        proof {
            assert(next.drop_last() =~= pre);
            assert(next.last() == args@[i as int]@);
            assert(next =~= pre.push(args@[i as int]@));
        }
        if str_is(args[i].as_str(), "--autostart") {
            autostart = true;
            proof {
                assert(next.contains(autostart_flag())) by {
                    assert(next[i as int] == autostart_flag());
                }
            }
        } else {
            rest.push(args[i].clone());
            proof {
                assert(string_views(rest@) =~= without_autostart(pre).push(args@[i as int]@));
                assert(next.contains(autostart_flag()) == pre.contains(autostart_flag())) by {
                    if next.contains(autostart_flag()) {
                        let k = choose|k: int| 0 <= k < next.len() && next[k] == autostart_flag();
                        assert(k < i);
                        assert(pre[k] == next[k]);
                    }
                    if pre.contains(autostart_flag()) {
                        let k = choose|k: int| 0 <= k < pre.len() && pre[k] == autostart_flag();
                        assert(next[k] == pre[k]);
                    }
                }
            }
        }
    }
    proof {
        assert(string_views(args@).take(args@.len() as int) =~= string_views(args@));
    }
    (autostart, parse_launch_args(&rest))
}

/// What the program shows once it has started.
#[derive(Clone, Copy, Debug, PartialEq, Eq, Structural)]
pub enum StartupView {
    /// The overlay, for the launch request it was started with.
    Overlay,
    /// The overlay stays hidden: the request's first file has no category,
    /// so there would be no options to show.
    HiddenOverlay,
    /// The main window.
    MainWindow,
    /// Nothing: the login entry started it in the background.
    Nothing,
}

/// The view at start: a launch request opens the overlay (kept hidden for
/// a file of no known category); otherwise the main window shows, unless
/// the login entry started the program.
pub fn startup_view(autostarted: bool, request: &Option<LaunchRequest>) -> (r: StartupView)
    ensures
        r == match request {
            Some(req) => if req.category == FileCategory::Unknown {
                StartupView::HiddenOverlay
            } else {
                StartupView::Overlay
            },
            None => if autostarted {
                StartupView::Nothing
            } else {
                StartupView::MainWindow
            },
        },
{
    match request {
        Some(req) => if req.category == FileCategory::Unknown {
            StartupView::HiddenOverlay
        } else {
            StartupView::Overlay
        },
        None => if autostarted {
            StartupView::Nothing
        } else {
            StartupView::MainWindow
        },
    }
}

} // verus!
