//! The command line of the bridge.
use crate::device_identifier::DeviceType;
use crate::paths::{dir_of, is_plain, join_path, joined_path, parent_of, parent_path};
use crate::text::{joined, same_text, views};
use vstd::prelude::*;
use vstd::string::*;

verus! {

/// What the bridge is asked for.
#[derive(Debug)]
pub enum BridgeArgs {
    Usage,
    Version,
    /// Run a bridge of this kind, for this device, if one is named.
    Run {
        bridge: DeviceType,
        device: Option<String>,
    },
}

/// What the bridge is asked for, by its view.
pub enum ArgsView {
    Usage,
    Version,
    Run {
        bridge: DeviceType,
        device: Option<Seq<char>>,
    },
}

impl View for BridgeArgs {
    type V = ArgsView;

    open spec fn view(&self) -> ArgsView {
        match self {
            BridgeArgs::Usage => ArgsView::Usage,
            BridgeArgs::Version => ArgsView::Version,
            BridgeArgs::Run { bridge, device } => ArgsView::Run {
                bridge: *bridge,
                device: match device {
                    Some(d) => Some(d@),
                    None => None,
                },
            },
        }
    }
}

/// The kind of bridge of a name.
pub open spec fn bridge_named(s: Seq<char>) -> Option<DeviceType> {
    if s == "mpd"@ {
        Some(DeviceType::Mpd)
    } else if s == "cava"@ {
        Some(DeviceType::Cava)
    } else if s == "hybrid"@ {
        Some(DeviceType::Hybrid)
    } else if s == "sysinfo"@ {
        Some(DeviceType::Sysinfo)
    } else {
        None
    }
}

/// What the words of the command line ask for, without the name of the program: the kind of the
/// bridge, or a device and then the kind, or the version.
pub open spec fn args_of(words: Seq<Seq<char>>) -> ArgsView {
    if words.len() == 0 {
        ArgsView::Usage
    } else {
        match bridge_named(words[0]) {
            Some(bridge) => ArgsView::Run { bridge, device: None },
            None => if words[0] == "--version"@ || words[0] == "-v"@ {
                ArgsView::Version
            } else if words.len() < 2 {
                ArgsView::Usage
            } else {
                match bridge_named(words[1]) {
                    Some(bridge) => ArgsView::Run { bridge, device: Some(words[0]) },
                    None => ArgsView::Usage,
                }
            },
        }
    }
}

/// The kind of bridge of a name.
pub fn bridge_kind(s: &str) -> (r: Option<DeviceType>)
    ensures
        r == bridge_named(s@),
{
    if same_text(s, "mpd") {
        Some(DeviceType::Mpd)
    } else if same_text(s, "cava") {
        Some(DeviceType::Cava)
    } else if same_text(s, "hybrid") {
        Some(DeviceType::Hybrid)
    } else if same_text(s, "sysinfo") {
        Some(DeviceType::Sysinfo)
    } else {
        None
    }
}

/// A kind of bridge is found again by the name that a device of this kind has.
pub proof fn law_kind_name(t: DeviceType)
    ensures
        bridge_named(t.text()) == Some(t),
{
    reveal_strlit("mpd");
    reveal_strlit("cava");
    reveal_strlit("hybrid");
    reveal_strlit("sysinfo");
    assert("mpd"@.len() == 3 && "cava"@.len() == 4 && "hybrid"@.len() == 6 && "sysinfo"@.len()
        == 7);
}

/// What the command line asks for. Its first word is the name of the program.
pub fn parse_args(args: &Vec<String>) -> (r: BridgeArgs)
    ensures
        r@ == args_of(
            if args@.len() > 0 {
                views(args@).drop_first()
            } else {
                Seq::empty()
            },
        ),
{
    if args.len() < 2 {
        return BridgeArgs::Usage;
    }
    let ghost words = views(args@).drop_first();
    assert(words[0] == args@[1]@);
    match bridge_kind(args[1].as_str()) {
        Some(bridge) => BridgeArgs::Run { bridge, device: None },
        None => {
            if same_text(args[1].as_str(), "--version") || same_text(args[1].as_str(), "-v") {
                BridgeArgs::Version
            } else if args.len() < 3 {
                BridgeArgs::Usage
            } else {
                assert(words[1] == args@[2]@);
                match bridge_kind(args[2].as_str()) {
                    Some(bridge) => BridgeArgs::Run {
                        bridge,
                        device: Some(args[1].as_str().to_owned()),
                    },
                    None => BridgeArgs::Usage,
                }
            }
        },
    }
}

/// How the program is used.
pub fn usage_text(program: &str) -> (r: String)
    ensures
        r@ == "Usage: "@ + program@ + " <mpd|cava|hybrid|sysinfo>"@,
{
    let mut s = joined("Usage: ", program);
    s.append(" <mpd|cava|hybrid|sysinfo>");
    s
}

/// The root of the project: the one that the environment names, or else the directory above the
/// one that holds the program, as far as its name tells.
pub open spec fn base_dir(env: Option<Seq<char>>, parent: Option<Seq<char>>) -> Seq<char> {
    match env {
        Some(e) if e.len() > 0 => e,
        _ => match parent {
            Some(dir) => join_path(dir, ".."@),
            None => ".."@,
        },
    }
}

/// The root of the project, with the directory of the program known or not.
pub fn base_dir_with(env: Option<&str>, parent: Option<&str>) -> (r: String)
    ensures
        r@ == base_dir(
            match env {
                Some(e) => Some(e@),
                None => None,
            },
            match parent {
                Some(p) => Some(p@),
                None => None,
            },
        ),
{
    match env {
        Some(e) => {
            proof {
                reveal_strlit("");
                assert(e@.len() == 0 ==> e@ =~= ""@);
            }
            if !same_text(e, "") {
                return e.to_owned();
            }
        },
        None => {},
    }
    match parent {
        Some(dir) => joined_path(dir, ".."),
        None => "..".to_owned(),
    }
}

/// The root of the project. `argv0` is the name by which the program was called.
pub fn resolve_base_dir(argv0: &str, env: Option<&str>) -> (r: String)
    ensures
        r@ == base_dir(
            match env {
                Some(e) => Some(e@),
                None => None,
            },
            parent_path(argv0@),
        ),
        is_plain(argv0@) ==> r@ == base_dir(
            match env {
                Some(e) => Some(e@),
                None => None,
            },
            Some(dir_of(argv0@)),
        ),
{
    match parent_of(argv0) {
        Some(dir) => base_dir_with(env, Some(dir.as_str())),
        None => base_dir_with(env, None),
    }
}

} // verus!
