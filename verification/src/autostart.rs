//! Starting with the computer.
//!
//! Registered per user, not per machine. It needs no elevation, it follows the
//! person rather than the box, and it starts in a desktop session, which is where
//! input capture has to live.
//!
//! Every platform writes the same thing in its own idiom: "run this executable at
//! login". Nothing is written unless the user asked for it.

use vstd::prelude::*;

use crate::model::Platform;
use crate::text;

verus! {

/// The name the entry is filed under. Stable, so toggling the setting updates the
/// existing entry instead of leaving a trail of orphans.
pub const ENTRY_NAME: &'static str = "InputShare";

/// What turning the login entry on or off comes to.
#[derive(Debug)]
pub enum EntryChange {
    /// Write the entry with this content.
    Write(String),
    /// Remove the entry; that it is not there is fine.
    Remove,
}

/// The text in front of the executable in an entry.
pub open spec fn entry_head(platform: Platform) -> Seq<char> {
    match platform {
        Platform::Windows => "\""@,
        Platform::MacOs => "<?xml version=\"1.0\" encoding=\"UTF-8\"?>\n<!DOCTYPE plist PUBLIC \"-//Apple//DTD PLIST 1.0//EN\" \"http://www.apple.com/DTDs/PropertyList-1.0.dtd\">\n<plist version=\"1.0\">\n<dict>\n    <key>Label</key>\n    <string>dev.inputshare.agent</string>\n    <key>ProgramArguments</key>\n    <array>\n        <string>"@,
        _ => "[Desktop Entry]\nType=Application\nName="@ + ENTRY_NAME@ + "\nExec="@,
    }
}

/// The text behind the executable in an entry.
pub open spec fn entry_tail(platform: Platform) -> Seq<char> {
    match platform {
        Platform::Windows => "\""@,
        Platform::MacOs => "</string>\n    </array>\n    <key>RunAtLoad</key>\n    <true/>\n    <key>KeepAlive</key>\n    <true/>\n</dict>\n</plist>\n"@,
        _ => "\nX-GNOME-Autostart-enabled=true\n"@,
    }
}

/// The content of the login entry that runs `executable`.
pub open spec fn entry_text(platform: Platform, executable: Seq<char>) -> Seq<char> {
    entry_head(platform) + executable + entry_tail(platform)
}

/// Whether `change` is what turning the login entry on or off comes to.
pub open spec fn sets(
    enabled: bool,
    platform: Platform,
    executable: Seq<char>,
    change: EntryChange,
) -> bool {
    if enabled {
        change matches EntryChange::Write(content) && content@ == entry_text(platform, executable)
    } else {
        change == EntryChange::Remove
    }
}

/// The content of the login entry that runs `executable`.
///
/// On Windows it is the path in quotes: the path routinely contains spaces, and an
/// unquoted one makes Windows try to run the first word as the program. On macOS
/// the agent is kept alive rather than merely started once: it is meant to be up
/// whenever the user is logged in.
pub fn entry(platform: Platform, executable: &str) -> (r: String)
    ensures
        r@ == entry_text(platform, executable@),
{
    let mut out = match platform {
        Platform::Windows => String::from_str("\""),
        Platform::MacOs => String::from_str(
            "<?xml version=\"1.0\" encoding=\"UTF-8\"?>\n<!DOCTYPE plist PUBLIC \"-//Apple//DTD PLIST 1.0//EN\" \"http://www.apple.com/DTDs/PropertyList-1.0.dtd\">\n<plist version=\"1.0\">\n<dict>\n    <key>Label</key>\n    <string>dev.inputshare.agent</string>\n    <key>ProgramArguments</key>\n    <array>\n        <string>",
        ),
        _ => {
            let mut head = text::joined("[Desktop Entry]\nType=Application\nName=", ENTRY_NAME);
            head.append("\nExec=");
            head
        },
    };
    out.append(executable);
    out.append(
        match platform {
            Platform::Windows => "\"",
            Platform::MacOs => "</string>\n    </array>\n    <key>RunAtLoad</key>\n    <true/>\n    <key>KeepAlive</key>\n    <true/>\n</dict>\n</plist>\n",
            _ => "\nX-GNOME-Autostart-enabled=true\n",
        },
    );
    out
}

/// Turns the login entry on or off, pointing at `executable`.
pub fn set(enabled: bool, platform: Platform, executable: &str) -> (r: EntryChange)
    ensures
        sets(enabled, platform, executable@, r),
{
    if enabled {
        EntryChange::Write(entry(platform, executable))
    } else {
        EntryChange::Remove
    }
}

/// Whether a login entry counts, given whether the place for it could be found and
/// whether it is there.
pub open spec fn counts(place_found: bool, present: bool) -> bool {
    place_found && present
}

/// Whether this machine starts at login, given whether the place for the entry
/// could be found and whether the entry is there.
pub fn is_enabled(place_found: bool, present: bool) -> (r: bool)
    ensures
        r == counts(place_found, present),
{
    place_found && present
}

/// A path below a directory: the two with a slash between them, unless the
/// directory is empty or ends in one.
pub open spec fn below(dir: Seq<char>, path: Seq<char>) -> Seq<char> {
    if dir.len() == 0 || dir.last() == '/' {
        dir + path
    } else {
        dir + "/"@ + path
    }
}

fn path_below(dir: &str, path: &str) -> (r: String)
    ensures
        r@ == below(dir@, path@),
{
    let len: usize = dir.unicode_len();
    if len == 0 || dir.get_char(len - 1) == '/' {
        text::joined(dir, path)
    } else {
        let mut out = text::joined(dir, "/");
        out.append(path);
        out
    }
}

/// Where the login entry goes, given the configuration directory and the home
/// directory that the environment names. `None` where the one that is needed is
/// not set, and on Windows, where the entry is not a file.
pub open spec fn path_of(
    platform: Platform,
    config_home: Option<Seq<char>>,
    home: Option<Seq<char>>,
) -> Option<Seq<char>> {
    match platform {
        Platform::Windows => None,
        Platform::MacOs => match home {
            Some(dir) => Some(below(dir, "Library/LaunchAgents/dev.inputshare.agent.plist"@)),
            None => None,
        },
        _ => match config_home {
            Some(dir) => Some(below(dir, "autostart/inputshare.desktop"@)),
            None => match home {
                Some(dir) => Some(
                    below(below(dir, ".config"@), "autostart/inputshare.desktop"@),
                ),
                None => None,
            },
        },
    }
}

/// Where the login entry stands among the entries of the user: under its path, or
/// under its name on Windows. `None` where that cannot be told.
pub open spec fn place_of(
    platform: Platform,
    config_home: Option<Seq<char>>,
    home: Option<Seq<char>>,
) -> Option<Seq<char>> {
    match platform {
        Platform::Windows => Some(ENTRY_NAME@),
        _ => path_of(platform, config_home, home),
    }
}

/// The entries of the user, by their places, once `change` was made at `place`.
pub open spec fn entries_after(
    entries: Map<Seq<char>, Seq<char>>,
    place: Seq<char>,
    change: EntryChange,
) -> Map<Seq<char>, Seq<char>> {
    match change {
        EntryChange::Write(content) => entries.insert(place, content@),
        EntryChange::Remove => entries.remove(place),
    }
}

/// Whether this machine starts at login, going by the entries of the user.
pub open spec fn starts_at_login(
    entries: Map<Seq<char>, Seq<char>>,
    place: Option<Seq<char>>,
) -> bool {
    counts(place is Some, place is Some && entries.contains_key(place->0))
}

/// Toggling the setting leaves no trail: turning the entry on leaves one entry, which
/// runs the executable named last, whatever was set before; turning it off leaves
/// none; no other entry is touched; and doing the same twice is doing it once.
pub proof fn the_last_setting_counts(
    entries: Map<Seq<char>, Seq<char>>,
    place: Seq<char>,
    platform: Platform,
    first_enabled: bool,
    first_executable: Seq<char>,
    first: EntryChange,
    enabled: bool,
    executable: Seq<char>,
    change: EntryChange,
)
    requires
        sets(first_enabled, platform, first_executable, first),
        sets(enabled, platform, executable, change),
    ensures
        ({
            let once = entries_after(entries, place, change);
            &&& entries_after(entries_after(entries, place, first), place, change) == once
            &&& entries_after(once, place, change) == once
            &&& once == (if enabled {
                entries.insert(place, entry_text(platform, executable))
            } else {
                entries.remove(place)
            })
        }),
{
    let once = entries_after(entries, place, change);
    assert(entries_after(entries_after(entries, place, first), place, change) =~= once);
    assert(entries_after(once, place, change) =~= once);
}

/// After the login entry was turned on or off, this machine starts at login or does
/// not, as was asked. It does not where the place of the entry cannot be told.
pub proof fn the_setting_can_be_seen(
    entries: Map<Seq<char>, Seq<char>>,
    platform: Platform,
    config_home: Option<Seq<char>>,
    home: Option<Seq<char>>,
    enabled: bool,
    executable: Seq<char>,
    change: EntryChange,
)
    requires
        sets(enabled, platform, executable, change),
    ensures
        ({
            let place = place_of(platform, config_home, home);
            &&& place is Some ==> starts_at_login(
                entries_after(entries, place->0, change),
                place,
            ) == enabled
            &&& place is None ==> !starts_at_login(entries, place)
        }),
{
}

/// An optional text taken by its view.
pub open spec fn optional_text(text: Option<&str>) -> Option<Seq<char>> {
    match text {
        Some(text) => Some(text@),
        None => None,
    }
}

/// Where the login entry goes: on Linux under the configuration directory, or
/// under `.config` in the home directory where that is not set; on macOS under
/// the home directory.
pub fn entry_path(platform: Platform, config_home: Option<&str>, home: Option<&str>) -> (r: Option<
    String,
>)
    ensures
        r is Some == path_of(platform, optional_text(config_home), optional_text(home)) is Some,
        r matches Some(path) ==> path_of(
            platform,
            optional_text(config_home),
            optional_text(home),
        ) == Some(path@),
{
    match platform {
        Platform::Windows => None,
        Platform::MacOs => match home {
            Some(dir) => Some(path_below(dir, "Library/LaunchAgents/dev.inputshare.agent.plist")),
            None => None,
        },
        _ => match config_home {
            Some(dir) => Some(path_below(dir, "autostart/inputshare.desktop")),
            None => match home {
                Some(dir) => Some(
                    path_below(
                        path_below(dir, ".config").as_str(),
                        "autostart/inputshare.desktop",
                    ),
                ),
                None => None,
            },
        },
    }
}

/// An entry runs just the executable: on Windows in quotes, so that a path with spaces
/// is one program, and elsewhere as it stands.
pub proof fn an_entry_runs_the_executable(platform: Platform, executable: Seq<char>)
    ensures
        entry_text(Platform::Windows, executable) == seq!['"'] + executable + seq!['"'],
        ({
            let entry = entry_text(platform, executable);
            let from = entry_head(platform).len() as int;
            entry.subrange(from, from + executable.len()) == executable
        }),
{
    reveal_strlit("\"");
    assert("\""@ =~= seq!['"']);
    let entry = entry_text(platform, executable);
    let from = entry_head(platform).len() as int;
    assert(entry.subrange(from, from + executable.len()) =~= executable);
}

/// The entry of a Linux user is below their configuration directory, and below `.config`
/// in their home directory only where that is not set; that of a Mac user is below their
/// home directory, wherever the configuration is.
pub proof fn the_configuration_directory_goes_first(
    config_home: Seq<char>,
    home: Seq<char>,
    other: Option<Seq<char>>,
)
    ensures
        path_of(Platform::Linux, Some(config_home), other) == Some(
            below(config_home, "autostart/inputshare.desktop"@),
        ),
        path_of(Platform::Linux, None, Some(home)) == Some(
            below(below(home, ".config"@), "autostart/inputshare.desktop"@),
        ),
        path_of(Platform::Linux, None, None) is None,
        path_of(Platform::MacOs, other, Some(home)) == Some(
            below(home, "Library/LaunchAgents/dev.inputshare.agent.plist"@),
        ),
        path_of(Platform::MacOs, other, None) is None,
{
}

/// A path below a directory is the two with exactly one slash between them.
pub proof fn one_slash_goes_between(dir: Seq<char>, path: Seq<char>)
    requires
        dir.len() > 0,
    ensures
        dir.last() != '/' ==> below(dir, path) == dir.push('/') + path,
        dir.last() == '/' ==> below(dir, path) == dir + path,
        below(Seq::empty(), path) == path,
{
    reveal_strlit("/");
    assert(below(dir, path) =~= if dir.last() == '/' {
        dir + path
    } else {
        dir.push('/') + path
    });
    assert(below(Seq::empty(), path) =~= path);
}

} // verus!
