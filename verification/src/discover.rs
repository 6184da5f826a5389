//! Locating the `grok` binary and the `cursor-sdk-bridge` sidecar.

use vstd::prelude::*;

use crate::error::CursorSdkError;
use crate::paths;
use crate::text;

verus! {

/// Override path to the sidecar binary.
pub const BRIDGE_BIN_ENV: &'static str = "CURSOR_SDK_BRIDGE_BIN";

/// `is_file` may find that `path` is a file, or that it is not.
pub open spec fn finds<F: Fn(&str) -> bool>(is_file: F, path: Seq<char>, found: bool) -> bool {
    exists|p: &str| p@ == path && #[trigger] is_file.ensures((p,), found)
}

/// `lookup` may find `found` for `name`.
pub open spec fn looks_up<L: FnOnce(&str) -> Option<String>>(
    lookup: L,
    name: Seq<char>,
    found: Option<String>,
) -> bool {
    exists|n: &str| n@ == name && #[trigger] lookup.ensures((n,), found)
}

/// `canonicalize` may resolve `path` to `resolved`; where it cannot, the path
/// stays as it is.
pub open spec fn resolves<C: FnOnce(&str) -> Option<String>>(
    canonicalize: C,
    path: Seq<char>,
    resolved: Seq<char>,
) -> bool {
    exists|p: &str, c: Option<String>|
        {
            &&& p@ == path
            &&& #[trigger] canonicalize.ensures((p,), c)
            &&& resolved == match c {
                Some(s) => s@,
                None => path,
            }
        }
}

/// `f` may be called with `name`.
pub open spec fn takes<T, F: FnOnce(&str) -> T>(f: F, name: Seq<char>) -> bool {
    forall|n: &str| n@ == name ==> #[trigger] f.requires((n,))
}

// -- The grok binary --------------------------------------------------------

/// The file name of the `grok` binary.
pub open spec fn grok_name(windows: bool) -> Seq<char> {
    if windows {
        "grok.exe"@
    } else {
        "grok"@
    }
}

/// Looking `grok` up on the path may give `bin`; where it is not found, the bare
/// name is left for whoever spawns it.
pub open spec fn grok_on_path<L: FnOnce(&str) -> Option<String>>(
    lookup_path: L,
    windows: bool,
    bin: Seq<char>,
) -> bool {
    exists|found: Option<String>| #[trigger]
        looks_up(lookup_path, grok_name(windows), found) && bin == match found {
            Some(path) => path@,
            None => grok_name(windows),
        }
}

/// Resolving the `grok` binary may give `bin`: the running executable when it is
/// a regular file, otherwise what is found on the path.
pub open spec fn grok_bin<
    C: FnOnce(&str) -> Option<String>,
    F: Fn(&str) -> bool,
    L: FnOnce(&str) -> Option<String>,
>(
    current_exe: Option<String>,
    windows: bool,
    canonicalize: C,
    is_file: F,
    lookup_path: L,
    bin: Seq<char>,
) -> bool {
    match current_exe {
        Some(exe) => exists|resolved: Seq<char>| #[trigger]
            resolves(canonicalize, exe@, resolved) && {
                ||| finds(is_file, resolved, true) && bin == resolved
                ||| finds(is_file, resolved, false) && grok_on_path(lookup_path, windows, bin)
            },
        None => grok_on_path(lookup_path, windows, bin),
    }
}

/// The running executable is unknown or was found to be no file.
pub open spec fn exe_fails<C: FnOnce(&str) -> Option<String>, F: Fn(&str) -> bool>(
    current_exe: Option<String>,
    canonicalize: C,
    is_file: F,
) -> bool {
    current_exe matches Some(exe) ==> exists|resolved: Seq<char>| #[trigger]
        resolves(canonicalize, exe@, resolved) && finds(is_file, resolved, false)
}

/// Resolve the `grok` binary Cursor should spawn for `peers-mcp`.
///
/// The running executable when it is a regular file, otherwise `grok` as found
/// on the path, otherwise the bare name `grok`. The path is searched for that name
/// only, and only when the executable is no file.
pub fn resolve_grok_bin_with<
    C: FnOnce(&str) -> Option<String>,
    F: Fn(&str) -> bool,
    L: FnOnce(&str) -> Option<String>,
>(
    current_exe: Option<String>,
    windows: bool,
    canonicalize: C,
    is_file: F,
    lookup_path: L,
) -> (r: String)
    requires
        current_exe matches Some(exe) ==> takes(canonicalize, exe@),
        forall|p: &str|
            (current_exe matches Some(exe) && resolves(canonicalize, exe@, p@))
                ==> #[trigger] is_file.requires((p,)),
        exe_fails(current_exe, canonicalize, is_file) ==> takes(lookup_path, grok_name(windows)),
    ensures
        grok_bin(current_exe, windows, canonicalize, is_file, lookup_path, r@),
{
    match &current_exe {
        Some(exe) => {
            let path: &str = exe.as_str();
            let canonical = canonicalize(path);
            let ghost c = canonical;
            assert(canonicalize.ensures((path,), c));
            let resolved = match canonical {
                Some(s) => s,
                None => exe.clone(),
            };
            assert(resolves(canonicalize, exe@, resolved@));
            let there: bool = is_file(resolved.as_str());
            assert(finds(is_file, resolved@, there));
            if there {
                return resolved;
            }
        },
        None => {},
    }
    let name = if windows {
        "grok.exe"
    } else {
        "grok"
    };
    let found = lookup_path(name);
    let ghost f = found;
    assert(looks_up(lookup_path, grok_name(windows), f));
    match found {
        Some(path) => path,
        None => name.to_owned(),
    }
}

// -- The sidecar ------------------------------------------------------------

/// The file name of the sidecar.
pub open spec fn bridge_name(windows: bool) -> Seq<char> {
    if windows {
        "cursor-sdk-bridge.exe"@
    } else {
        "cursor-sdk-bridge"@
    }
}

/// The sidecar beside the resolved executable, if that stands in a directory.
pub open spec fn sibling(resolved: Seq<char>, windows: bool) -> Option<Seq<char>> {
    match paths::parent_of(resolved, windows) {
        Some(dir) => Some(paths::joined_on(dir, bridge_name(windows), windows)),
        None => None,
    }
}

/// The sidecar in the `bin` directory of the grok home.
pub open spec fn home_bin(grok_home: Seq<char>, windows: bool) -> Seq<char> {
    paths::joined_on(
        paths::joined_on(grok_home, "bin"@, windows),
        bridge_name(windows),
        windows,
    )
}

/// `r` is the sidecar `path`.
pub open spec fn found_at(r: Result<String, CursorSdkError>, path: Seq<char>) -> bool {
    r is Ok && r->Ok_0@ == path
}

/// `r` says that the sidecar was not found, for the reason `why`.
pub open spec fn not_found(r: Result<String, CursorSdkError>, why: Seq<char>) -> bool {
    r matches Err(CursorSdkError::BridgeNotFound(m)) && m@ == why
}

/// What is shown when the sidecar is nowhere.
pub const INSTALL_HINT: &'static str =
    "install the sidecar next to grok (or run the fetch script), or set CURSOR_SDK_BRIDGE_BIN";

/// The last place to look: the path.
pub open spec fn bridge_on_path<L: FnOnce(&str) -> Option<String>>(
    lookup_path: L,
    windows: bool,
    r: Result<String, CursorSdkError>,
) -> bool {
    exists|found: Option<String>| #[trigger]
        looks_up(lookup_path, bridge_name(windows), found) && match found {
            Some(path) => found_at(r, path@),
            None => not_found(r, INSTALL_HINT@),
        }
}

/// The third place to look: the grok home, and then what follows.
pub open spec fn bridge_from_home<F: Fn(&str) -> bool, L: FnOnce(&str) -> Option<String>>(
    grok_home: Seq<char>,
    windows: bool,
    is_file: F,
    lookup_path: L,
    r: Result<String, CursorSdkError>,
) -> bool {
    ||| finds(is_file, home_bin(grok_home, windows), true) && found_at(
        r,
        home_bin(grok_home, windows),
    )
    ||| finds(is_file, home_bin(grok_home, windows), false) && bridge_on_path(
        lookup_path,
        windows,
        r,
    )
}

/// The second place to look: beside the running executable, and then what
/// follows.
pub open spec fn bridge_from_exe<
    C: FnOnce(&str) -> Option<String>,
    F: Fn(&str) -> bool,
    L: FnOnce(&str) -> Option<String>,
>(
    exe: Seq<char>,
    grok_home: Seq<char>,
    windows: bool,
    canonicalize: C,
    is_file: F,
    lookup_path: L,
    r: Result<String, CursorSdkError>,
) -> bool {
    exists|resolved: Seq<char>| #[trigger]
        resolves(canonicalize, exe, resolved) && match sibling(resolved, windows) {
            Some(path) => {
                ||| finds(is_file, path, true) && found_at(r, path)
                ||| finds(is_file, path, false) && bridge_from_home(
                    grok_home,
                    windows,
                    is_file,
                    lookup_path,
                    r,
                )
            },
            None => bridge_from_home(grok_home, windows, is_file, lookup_path, r),
        }
}

/// Locating the sidecar may end with `r`: an override decides alone; otherwise
/// the first place that has it counts.
pub open spec fn discovers<
    C: FnOnce(&str) -> Option<String>,
    F: Fn(&str) -> bool,
    L: FnOnce(&str) -> Option<String>,
>(
    env_override: Option<String>,
    current_exe: Option<String>,
    grok_home: Seq<char>,
    windows: bool,
    canonicalize: C,
    is_file: F,
    lookup_path: L,
    r: Result<String, CursorSdkError>,
) -> bool {
    match env_override {
        Some(path) => {
            ||| finds(is_file, path@, true) && found_at(r, path@)
            ||| finds(is_file, path@, false) && not_found(
                r,
                BRIDGE_BIN_ENV@ + "="@ + path@ + " is not a file"@,
            )
        },
        None => match current_exe {
            Some(exe) => bridge_from_exe(
                exe@,
                grok_home,
                windows,
                canonicalize,
                is_file,
                lookup_path,
                r,
            ),
            None => bridge_from_home(grok_home, windows, is_file, lookup_path, r),
        },
    }
}

/// The sidecar is not beside the running executable, as far as that is known.
pub open spec fn sibling_fails<C: FnOnce(&str) -> Option<String>, F: Fn(&str) -> bool>(
    current_exe: Option<String>,
    windows: bool,
    canonicalize: C,
    is_file: F,
) -> bool {
    current_exe matches Some(exe) ==> exists|resolved: Seq<char>| #[trigger]
        resolves(canonicalize, exe@, resolved) && (sibling(resolved, windows) matches Some(path)
            ==> finds(is_file, path, false))
}

/// `is_file` is asked about `path` when the sidecar is searched for: about the
/// override where there is one, otherwise about the place beside the executable,
/// and, when that fails, about the one in the grok home.
pub open spec fn is_place<C: FnOnce(&str) -> Option<String>, F: Fn(&str) -> bool>(
    env_override: Option<String>,
    current_exe: Option<String>,
    grok_home: Seq<char>,
    windows: bool,
    canonicalize: C,
    is_file: F,
    path: Seq<char>,
) -> bool {
    match env_override {
        Some(at) => path == at@,
        None => {
            ||| current_exe matches Some(exe) && exists|resolved: Seq<char>| #[trigger]
                resolves(canonicalize, exe@, resolved) && sibling(resolved, windows) == Some(path)
            ||| path == home_bin(grok_home, windows) && sibling_fails(
                current_exe,
                windows,
                canonicalize,
                is_file,
            )
        },
    }
}

/// There is no override, and every place but the path failed.
pub open spec fn places_fail<C: FnOnce(&str) -> Option<String>, F: Fn(&str) -> bool>(
    env_override: Option<String>,
    current_exe: Option<String>,
    grok_home: Seq<char>,
    windows: bool,
    canonicalize: C,
    is_file: F,
) -> bool {
    &&& env_override is None
    &&& sibling_fails(current_exe, windows, canonicalize, is_file)
    &&& finds(is_file, home_bin(grok_home, windows), false)
}

fn look_on_path<L: FnOnce(&str) -> Option<String>>(name: &str, windows: bool, lookup_path: L) -> (r:
    Result<String, CursorSdkError>)
    requires
        takes(lookup_path, bridge_name(windows)),
        name@ == bridge_name(windows),
    ensures
        bridge_on_path(lookup_path, windows, r),
{
    let found = lookup_path(name);
    let ghost f = found;
    assert(looks_up(lookup_path, bridge_name(windows), f));
    match found {
        Some(path) => Ok(path),
        None => Err(CursorSdkError::BridgeNotFound(INSTALL_HINT.to_owned())),
    }
}

fn look_in_home<F: Fn(&str) -> bool, L: FnOnce(&str) -> Option<String>>(
    name: &str,
    grok_home: &str,
    windows: bool,
    is_file: F,
    lookup_path: L,
) -> (r: Result<String, CursorSdkError>)
    requires
        forall|p: &str|
            p@ == home_bin(grok_home@, windows) ==> #[trigger] is_file.requires((p,)),
        finds(is_file, home_bin(grok_home@, windows), false) ==> takes(
            lookup_path,
            bridge_name(windows),
        ),
        name@ == bridge_name(windows),
    ensures
        bridge_from_home(grok_home@, windows, is_file, lookup_path, r),
{
    proof {
        reveal_strlit("bin");
        reveal_strlit("cursor-sdk-bridge");
        reveal_strlit("cursor-sdk-bridge.exe");
    }
    let bin_dir = paths::join_path_on(grok_home, "bin", windows);
    let path = paths::join_path_on(bin_dir.as_str(), name, windows);
    let there: bool = is_file(path.as_str());
    assert(finds(is_file, path@, there));
    if there {
        return Ok(path);
    }
    look_on_path(name, windows, lookup_path)
}

/// Locate `cursor-sdk-bridge`: override → sibling of the executable → `bin` of
/// the grok home → path. Each place is looked at only when those before it failed,
/// and the path is searched for the sidecar's file name only.
pub fn discover_bridge_bin_with<
    C: FnOnce(&str) -> Option<String>,
    F: Fn(&str) -> bool,
    L: FnOnce(&str) -> Option<String>,
>(
    env_override: Option<String>,
    current_exe: Option<String>,
    grok_home: &str,
    windows: bool,
    canonicalize: C,
    is_file: F,
    lookup_path: L,
) -> (r: Result<String, CursorSdkError>)
    requires
        env_override is None ==> (current_exe matches Some(exe) ==> takes(canonicalize, exe@)),
        forall|p: &str|
            is_place(
                env_override,
                current_exe,
                grok_home@,
                windows,
                canonicalize,
                is_file,
                p@,
            ) ==> #[trigger] is_file.requires((p,)),
        places_fail(env_override, current_exe, grok_home@, windows, canonicalize, is_file) ==> takes(
            lookup_path,
            bridge_name(windows),
        ),
    ensures
        discovers(
            env_override,
            current_exe,
            grok_home@,
            windows,
            canonicalize,
            is_file,
            lookup_path,
            r,
        ),
{
    proof {
        reveal_strlit("cursor-sdk-bridge");
        reveal_strlit("cursor-sdk-bridge.exe");
    }
    let name = if windows {
        "cursor-sdk-bridge.exe"
    } else {
        "cursor-sdk-bridge"
    };
    match env_override {
        Some(path) => {
            let there: bool = is_file(path.as_str());
            assert(finds(is_file, path@, there));
            if there {
                return Ok(path);
            }
            let mut why = BRIDGE_BIN_ENV.to_owned();
            why.append("=");
            why.append(path.as_str());
            why.append(" is not a file");
            return Err(CursorSdkError::BridgeNotFound(why));
        },
        None => {},
    }
    match &current_exe {
        Some(exe) => {
            let path: &str = exe.as_str();
            let canonical = canonicalize(path);
            let ghost c = canonical;
            assert(canonicalize.ensures((path,), c));
            let resolved = match canonical {
                Some(s) => s,
                None => exe.clone(),
            };
            assert(resolves(canonicalize, exe@, resolved@));
            match paths::parent(resolved.as_str(), windows) {
                Some(dir) => {
                    let beside = paths::join_path_on(dir.as_str(), name, windows);
                    let there: bool = is_file(beside.as_str());
                    assert(finds(is_file, beside@, there));
                    if there {
                        return Ok(beside);
                    }
                },
                None => {},
            }
        },
        None => {},
    }
    look_in_home(name, grok_home, windows, is_file, lookup_path)
}

// -- Laws -------------------------------------------------------------------

/// `is_file` always finds a file at `path`.
pub open spec fn always_finds<F: Fn(&str) -> bool>(is_file: F, path: Seq<char>) -> bool {
    !finds(is_file, path, false)
}

/// An override decides alone: the sidecar is there, or nowhere.
pub proof fn override_decides_alone<
    C: FnOnce(&str) -> Option<String>,
    F: Fn(&str) -> bool,
    L: FnOnce(&str) -> Option<String>,
>(
    path: String,
    current_exe: Option<String>,
    grok_home: Seq<char>,
    windows: bool,
    canonicalize: C,
    is_file: F,
    lookup_path: L,
    r: Result<String, CursorSdkError>,
)
    requires
        discovers(
            Some(path),
            current_exe,
            grok_home,
            windows,
            canonicalize,
            is_file,
            lookup_path,
            r,
        ),
    ensures
        r matches Ok(found) ==> found@ == path@,
        always_finds(is_file, path@) ==> found_at(r, path@),
{
}

/// Without an override the sidecar beside the executable comes first, whatever
/// else there is.
pub proof fn sibling_comes_first<
    C: FnOnce(&str) -> Option<String>,
    F: Fn(&str) -> bool,
    L: FnOnce(&str) -> Option<String>,
>(
    exe: String,
    beside: Seq<char>,
    grok_home: Seq<char>,
    windows: bool,
    canonicalize: C,
    is_file: F,
    lookup_path: L,
    r: Result<String, CursorSdkError>,
)
    requires
        discovers(
            None,
            Some(exe),
            grok_home,
            windows,
            canonicalize,
            is_file,
            lookup_path,
            r,
        ),
        forall|resolved: Seq<char>| #[trigger]
            resolves(canonicalize, exe@, resolved) ==> sibling(resolved, windows) == Some(beside),
        always_finds(is_file, beside),
    ensures
        found_at(r, beside),
{
}

/// The sidecar in the grok home comes before the path.
pub proof fn home_comes_before_path<F: Fn(&str) -> bool, L: FnOnce(&str) -> Option<String>>(
    grok_home: Seq<char>,
    windows: bool,
    is_file: F,
    lookup_path: L,
    r: Result<String, CursorSdkError>,
)
    requires
        bridge_from_home(grok_home, windows, is_file, lookup_path, r),
        always_finds(is_file, home_bin(grok_home, windows)),
    ensures
        found_at(r, home_bin(grok_home, windows)),
{
}

/// The binaries are looked for under their own names, with `.exe` on Windows. The
/// sidecar stands in the directory of the executable, or in `bin` below the grok
/// home.
pub proof fn places_of_the_sidecar(dir: Seq<char>, exe: Seq<char>, home: Seq<char>)
    requires
        dir.len() > 2,
        dir.last() != '/',
        dir.last() != '.',
        exe.len() > 0,
        forall|i: int| 0 <= i < exe.len() ==> #[trigger] exe[i] != '/',
        exe != seq!['.'],
        home.len() > 0,
        home.last() != '/',
    ensures
        sibling(dir + seq!['/'] + exe, false) == Some(dir + "/cursor-sdk-bridge"@),
        home_bin(home, false) == home + "/bin/cursor-sdk-bridge"@,
        bridge_name(true) == "cursor-sdk-bridge.exe"@,
        bridge_name(false) == "cursor-sdk-bridge"@,
        grok_name(true) == "grok.exe"@,
        grok_name(false) == "grok"@,
{
    reveal_strlit("/cursor-sdk-bridge");
    reveal_strlit("cursor-sdk-bridge");
    reveal_strlit("/bin/cursor-sdk-bridge");
    reveal_strlit("bin");
    assert forall|i: int| 0 <= i < exe.len() implies !paths::separates(#[trigger] exe[i], false) by {}
    paths::parent_undoes_joining(dir, exe, false);
    paths::names_are_joined_by_one_separator(dir, exe);
    paths::names_are_joined_by_one_separator(dir, "cursor-sdk-bridge"@);
    assert(dir + seq!['/'] + "cursor-sdk-bridge"@ =~= dir + "/cursor-sdk-bridge"@);
    let bin = paths::joined_on(home, "bin"@, false);
    paths::names_are_joined_by_one_separator(home, "bin"@);
    assert(bin.last() == 'n');
    paths::names_are_joined_by_one_separator(bin, "cursor-sdk-bridge"@);
    assert(bin + seq!['/'] + "cursor-sdk-bridge"@ =~= home + "/bin/cursor-sdk-bridge"@);
}

/// The path is searched last, under the sidecar's name; where it is not there
/// either, the sidecar is not found.
pub proof fn path_comes_last<F: Fn(&str) -> bool, L: FnOnce(&str) -> Option<String>>(
    grok_home: Seq<char>,
    windows: bool,
    is_file: F,
    lookup_path: L,
    r: Result<String, CursorSdkError>,
)
    requires
        bridge_from_home(grok_home, windows, is_file, lookup_path, r),
        !finds(is_file, home_bin(grok_home, windows), true),
    ensures
        exists|name: &str, found: Option<String>|
            {
                &&& name@ == bridge_name(windows)
                &&& #[trigger] lookup_path.ensures((name,), found)
                &&& found matches Some(path) ==> (r matches Ok(bin) && bin@ == path@)
                &&& found is None ==> r is Err
            },
{
    let found = choose|found: Option<String>| #[trigger]
        looks_up(lookup_path, bridge_name(windows), found) && match found {
            Some(path) => found_at(r, path@),
            None => not_found(r, INSTALL_HINT@),
        };
    let name = choose|n: &str|
        n@ == bridge_name(windows) && #[trigger] lookup_path.ensures((n,), found);
    assert(lookup_path.ensures((name,), found));
}

/// The running executable is the `grok` binary where it is a file; otherwise it is
/// what the path has under that name, or the bare name.
pub proof fn executable_comes_first<
    C: FnOnce(&str) -> Option<String>,
    F: Fn(&str) -> bool,
    L: FnOnce(&str) -> Option<String>,
>(
    exe: String,
    windows: bool,
    canonicalize: C,
    is_file: F,
    lookup_path: L,
    resolved: Seq<char>,
    bin: Seq<char>,
)
    requires
        grok_bin(Some(exe), windows, canonicalize, is_file, lookup_path, bin),
        forall|other: Seq<char>| #[trigger]
            resolves(canonicalize, exe@, other) ==> other == resolved,
    ensures
        always_finds(is_file, resolved) ==> bin == resolved,
        !finds(is_file, resolved, true) ==> exists|name: &str, found: Option<String>|
            {
                &&& name@ == grok_name(windows)
                &&& #[trigger] lookup_path.ensures((name,), found)
                &&& found matches Some(path) ==> bin == path@
                &&& found is None ==> bin == grok_name(windows)
            },
{
    if !finds(is_file, resolved, true) {
        assert(grok_on_path(lookup_path, windows, bin));
        let found = choose|found: Option<String>| #[trigger]
            looks_up(lookup_path, grok_name(windows), found) && bin == match found {
                Some(path) => path@,
                None => grok_name(windows),
            };
        let name = choose|n: &str|
            n@ == grok_name(windows) && #[trigger] lookup_path.ensures((n,), found);
        assert(lookup_path.ensures((name,), found));
    }
}

/// An override that is no file is an error that names it.
pub proof fn wrong_override_is_named<
    C: FnOnce(&str) -> Option<String>,
    F: Fn(&str) -> bool,
    L: FnOnce(&str) -> Option<String>,
>(
    path: String,
    current_exe: Option<String>,
    grok_home: Seq<char>,
    windows: bool,
    canonicalize: C,
    is_file: F,
    lookup_path: L,
    r: Result<String, CursorSdkError>,
)
    requires
        discovers(
            Some(path),
            current_exe,
            grok_home,
            windows,
            canonicalize,
            is_file,
            lookup_path,
            r,
        ),
        !finds(is_file, path@, true),
    ensures
        r matches Err(CursorSdkError::BridgeNotFound(m)) && text::has_text(m@, path@),
{
    let start = BRIDGE_BIN_ENV@ + "="@;
    text::lemma_text_between(start, path@, " is not a file"@);
}

/// The sidecar is taken from the first place that has it. With `files` the files that
/// there are, `resolved` the real path of the executable and `on_path` what the path
/// has under the sidecar's name: an override counts alone; without one, the file
/// beside the executable comes first, that below the grok home second, and the path
/// last.
pub proof fn first_place_with_the_sidecar_counts<
    C: FnOnce(&str) -> Option<String>,
    F: Fn(&str) -> bool,
    L: FnOnce(&str) -> Option<String>,
>(
    env_override: Option<String>,
    exe: String,
    grok_home: Seq<char>,
    windows: bool,
    canonicalize: C,
    is_file: F,
    lookup_path: L,
    r: Result<String, CursorSdkError>,
    files: Set<Seq<char>>,
    resolved: Seq<char>,
    on_path: Option<Seq<char>>,
)
    requires
        discovers(
            env_override,
            Some(exe),
            grok_home,
            windows,
            canonicalize,
            is_file,
            lookup_path,
            r,
        ),
        forall|p: &str, b: bool| #[trigger] is_file.ensures((p,), b) ==> b == files.contains(p@),
        forall|p: &str, c: Option<String>|
            p@ == exe@ && #[trigger] canonicalize.ensures((p,), c) ==> resolved == match c {
                Some(s) => s@,
                None => exe@,
            },
        forall|n: &str, found: Option<String>|
            n@ == bridge_name(windows) && #[trigger] lookup_path.ensures((n,), found)
                ==> text::opt_view(found) == on_path,
    ensures
        env_override matches Some(path) ==> if files.contains(path@) {
            r matches Ok(found) && found@ == path@
        } else {
            r is Err
        },
        env_override is None ==> if sibling(resolved, windows) matches Some(beside)
            && files.contains(beside) {
            r matches Ok(found) && found@ == sibling(resolved, windows)->0
        } else if files.contains(home_bin(grok_home, windows)) {
            r matches Ok(found) && found@ == home_bin(grok_home, windows)
        } else if on_path is Some {
            r matches Ok(found) && found@ == on_path->0
        } else {
            r is Err
        },
{
    if env_override is None {
        let whole = choose|whole: Seq<char>| #[trigger]
            resolves(canonicalize, exe@, whole) && match sibling(whole, windows) {
                Some(path) => {
                    ||| finds(is_file, path, true) && found_at(r, path)
                    ||| finds(is_file, path, false) && bridge_from_home(
                        grok_home,
                        windows,
                        is_file,
                        lookup_path,
                        r,
                    )
                },
                None => bridge_from_home(grok_home, windows, is_file, lookup_path, r),
            };
        assert(whole == resolved);
    }
}

/// The `grok` binary is the running executable, by its real path, if that is a file;
/// otherwise it is what the path has under that name, or the bare name.
pub proof fn running_executable_counts<
    C: FnOnce(&str) -> Option<String>,
    F: Fn(&str) -> bool,
    L: FnOnce(&str) -> Option<String>,
>(
    exe: String,
    windows: bool,
    canonicalize: C,
    is_file: F,
    lookup_path: L,
    bin: Seq<char>,
    files: Set<Seq<char>>,
    resolved: Seq<char>,
    on_path: Option<Seq<char>>,
)
    requires
        grok_bin(Some(exe), windows, canonicalize, is_file, lookup_path, bin),
        forall|p: &str, b: bool| #[trigger] is_file.ensures((p,), b) ==> b == files.contains(p@),
        forall|p: &str, c: Option<String>|
            p@ == exe@ && #[trigger] canonicalize.ensures((p,), c) ==> resolved == match c {
                Some(s) => s@,
                None => exe@,
            },
        forall|n: &str, found: Option<String>|
            n@ == grok_name(windows) && #[trigger] lookup_path.ensures((n,), found)
                ==> text::opt_view(found) == on_path,
    ensures
        bin == if files.contains(resolved) {
            resolved
        } else {
            match on_path {
                Some(path) => path,
                None => grok_name(windows),
            }
        },
{
    let whole = choose|whole: Seq<char>| #[trigger]
        resolves(canonicalize, exe@, whole) && {
            ||| finds(is_file, whole, true) && bin == whole
            ||| finds(is_file, whole, false) && grok_on_path(lookup_path, windows, bin)
        };
    assert(whole == resolved);
}

}
