//! The command line: what was asked for, and what is printed about the workspace.

use std::collections::HashSet;

use vstd::prelude::*;

use crate::bytes;
use crate::clock::now_ms;
use crate::document;
use crate::geometry::Point;
use crate::identity;
use crate::identity::{Identity, PubKey};
use crate::ids;
use crate::ids::MachineId;
use crate::layout;
use crate::layout::{resolve_cursor, Resolution};
use crate::model;
use crate::model::{
    DisplayInfo,
    DisplayView,
    DocView,
    InputAssignment,
    MachineRecord,
    Platform,
    RecordView,
    Scale,
    WorkspaceDoc,
    WorkspaceUpdate,
};
use crate::order;
use crate::text;

verus! {

/// What the user asked for.
#[derive(Debug)]
pub enum Command {
    Demo,
    Status,
    Init(String),
    Add { name: String, at: Point },
    Route(Point),
    /// Explain the commands, after saying what was wrong; nothing was where the
    /// text is empty.
    Usage(String),
}

/// The value of a decimal digit.
pub open spec fn digit_value(c: char) -> Option<nat> {
    if '0' <= c && c <= '9' {
        Some((c as int - '0' as int) as nat)
    } else {
        None
    }
}

/// The number that decimal digits spell, `None` where anything else is among them.
pub open spec fn digits_value(s: Seq<char>) -> Option<nat>
    decreases s.len(),
{
    if s.len() == 0 {
        Some(0)
    } else {
        match digits_value(s.drop_last()) {
            Some(init) => match digit_value(s.last()) {
                Some(last) => Some(10 * init + last),
                None => None,
            },
            None => None,
        }
    }
}

/// The integer that a text spells: digits, at least one of them, behind a sign or
/// none, and in the range of a 32-bit number.
pub open spec fn integer(s: Seq<char>) -> Option<int> {
    let signed = s.len() > 0 && (s[0] == '-' || s[0] == '+');
    let digits = if signed {
        s.drop_first()
    } else {
        s
    };
    if digits.len() == 0 {
        None
    } else {
        match digits_value(digits) {
            Some(n) => {
                let v = if signed && s[0] == '-' {
                    -n
                } else {
                    n as int
                };
                if i32::MIN <= v <= i32::MAX {
                    Some(v)
                } else {
                    None
                }
            },
            None => None,
        }
    }
}

/// What follows a digit that is not one is not one either.
proof fn digits_stay_spoiled(s: Seq<char>, n: int)
    requires
        0 <= n <= s.len(),
    ensures
        digits_value(s.take(n)) is None ==> digits_value(s) is None,
        digits_value(s) is Some ==> digits_value(s.take(n)) is Some && digits_value(s)->0
            >= digits_value(s.take(n))->0,
    decreases s.len() - n,
{
    if n < s.len() {
        digits_stay_spoiled(s, n + 1);
        assert(s.take(n + 1).drop_last() =~= s.take(n));
    } else {
        assert(s.take(n) =~= s);
    }
}

/// The integer that a text spells.
pub fn parse_integer(s: &str) -> (r: Option<i32>)
    ensures
        match integer(s@) {
            Some(v) => r == Some(v as i32) && i32::MIN <= v <= i32::MAX,
            None => r is None,
        },
{
    let len: usize = s.unicode_len();
    let signed = len > 0 && (s.get_char(0) == '-' || s.get_char(0) == '+');
    let negative = signed && s.get_char(0) == '-';
    let from: usize = if signed {
        1
    } else {
        0
    };
    let ghost digits = s@.skip(from as int);
    assert(digits =~= if signed {
        s@.drop_first()
    } else {
        s@
    });
    if from == len {
        return None;
    }
    let mut value: i64 = 0;
    let mut i: usize = from;
    assert(digits.take(0) =~= Seq::empty());
    while i < len
        invariant
            from <= i <= len,
            len == s@.len(),
            digits == s@.skip(from as int),
            digits == (if signed {
                s@.drop_first()
            } else {
                s@
            }),
            signed == (s@.len() > 0 && (s@[0] == '-' || s@[0] == '+')),
            from < len,
            digits_value(digits.take(i - from)) == Some(value as nat),
            0 <= value <= 0x8000_0000,
        decreases len - i,
    {
        let c = s.get_char(i);
        assert(digits.take(i - from + 1).drop_last() =~= digits.take(i - from));
        assert(digits.take(i - from + 1).last() == c);
        proof {
            digits_stay_spoiled(digits, i - from + 1);
        }
        if !('0' <= c && c <= '9') {
            return None;
        }
        let digit: u32 = c as u32 - '0' as u32;
        value = 10 * value + digit as i64;
        if value > 0x8000_0000 {
            return None;
        }
        i = i + 1;
    }
    assert(digits.take(i - from) =~= digits);
    if negative {
        Some((-value) as i32)
    } else if value == 0x8000_0000 {
        None
    } else {
        Some(value as i32)
    }
}

/// Whether `r` is what the arguments ask for.
pub open spec fn asks(args: Seq<Seq<char>>, r: Command) -> bool {
    let command = if args.len() > 0 {
        args[0]
    } else {
        "demo"@
    };
    if command == "demo"@ {
        r == Command::Demo
    } else if command == "status"@ {
        r == Command::Status
    } else if command == "init"@ {
        if args.len() > 1 {
            r is Init && r->Init_0@ == args[1]
        } else {
            r is Usage && r->Usage_0@ == "init needs a workspace name"@
        }
    } else if command == "add"@ {
        if args.len() > 3 {
            if integer(args[2]) is Some && integer(args[3]) is Some {
                &&& r is Add
                &&& r->Add_name@ == args[1]
                &&& r->Add_at.x == integer(args[2])->0
                &&& r->Add_at.y == integer(args[3])->0
            } else {
                r is Usage && r->Usage_0@ == "add needs integer x and y"@
            }
        } else {
            r is Usage && r->Usage_0@ == "add needs a name, an x and a y"@
        }
    } else if command == "route"@ {
        if args.len() > 2 {
            if integer(args[1]) is Some && integer(args[2]) is Some {
                &&& r is Route
                &&& r->Route_0.x == integer(args[1])->0
                &&& r->Route_0.y == integer(args[2])->0
            } else {
                r is Usage && r->Usage_0@ == "route needs integer x and y"@
            }
        } else {
            r is Usage && r->Usage_0@ == "route needs an x and a y"@
        }
    } else if command == "help"@ || command == "--help"@ || command == "-h"@ {
        r is Usage && r->Usage_0@ == ""@
    } else {
        r is Usage && r->Usage_0@ == "unknown command: "@ + command
    }
}

fn usage(problem: &str) -> (r: Command)
    ensures
        r is Usage,
        r->Usage_0@ == problem@,
{
    Command::Usage(String::from_str(problem))
}

/// What the arguments ask for. With none, the demonstration.
pub fn parse_command(args: &Vec<String>) -> (r: Command)
    ensures
        asks(model::texts_view(args@), r),
{
    let ghost seen = model::texts_view(args@);
    assert(forall|i: int| 0 <= i < args@.len() ==> seen[i] == (#[trigger] args@[i])@);
    let command = if args.len() > 0 {
        args[0].as_str()
    } else {
        "demo"
    };
    if text::same_text(command, "demo") {
        Command::Demo
    } else if text::same_text(command, "status") {
        Command::Status
    } else if text::same_text(command, "init") {
        if args.len() > 1 {
            Command::Init(args[1].clone())
        } else {
            usage("init needs a workspace name")
        }
    } else if text::same_text(command, "add") {
        if args.len() > 3 {
            match (parse_integer(args[2].as_str()), parse_integer(args[3].as_str())) {
                (Some(x), Some(y)) => Command::Add {
                    name: args[1].clone(),
                    at: Point::new(x, y),
                },
                _ => usage("add needs integer x and y"),
            }
        } else {
            usage("add needs a name, an x and a y")
        }
    } else if text::same_text(command, "route") {
        if args.len() > 2 {
            match (parse_integer(args[1].as_str()), parse_integer(args[2].as_str())) {
                (Some(x), Some(y)) => Command::Route(Point::new(x, y)),
                _ => usage("route needs integer x and y"),
            }
        } else {
            usage("route needs an x and a y")
        }
    } else if text::same_text(command, "help") || text::same_text(command, "--help")
        || text::same_text(command, "-h") {
        usage("")
    } else {
        Command::Usage(text::joined("unknown command: ", command))
    }
}

/// The display of a machine whose displays are not known yet.
pub open spec fn stand_in_display() -> DisplayView {
    DisplayView {
        id: "display-0"@,
        name: "Primary (placeholder)"@,
        x: 0,
        y: 0,
        width: 1920,
        height: 1080,
        scale: Scale { bits: 0x3f80_0000 },
        primary: true,
    }
}

/// A stand-in display, until the real ones are reported.
pub fn placeholder_display() -> (r: DisplayInfo)
    ensures
        r@ == stand_in_display(),
{
    DisplayInfo {
        id: String::from_str("display-0"),
        name: String::from_str("Primary (placeholder)"),
        x: 0,
        y: 0,
        width: 1920,
        height: 1080,
        scale: Scale::one(),
        primary: true,
    }
}

/// A machine with a stand-in display that shares its keyboard and its mouse.
pub open spec fn member(
    id: MachineId,
    name: Seq<char>,
    position: Point,
    key: Seq<u8>,
    platform: Platform,
    paired_at_ms: u64,
) -> RecordView {
    RecordView {
        id,
        display_name: name,
        platform,
        public_key: key,
        position,
        displays: seq![stand_in_display()],
        input: InputAssignment { provides_keyboard: true, provides_mouse: true },
        paired_at_ms,
    }
}

/// Whether `key` is the public key of `secret`.
pub open spec fn is_secret_of(secret: Seq<u8>, key: Seq<u8>) -> bool {
    secret.len() == 32 && key == identity::public_key_of(secret)
}

/// Whether `key` is the public key of some secret key.
pub open spec fn is_public_key(key: Seq<u8>) -> bool {
    exists|secret: Seq<u8>| is_secret_of(secret, key)
}

/// A machine with a stand-in display that shares its keyboard and its mouse, paired
/// now.
pub fn record(
    id: MachineId,
    name: &str,
    position: Point,
    key: PubKey,
    platform: Platform,
) -> (r: MachineRecord)
    ensures
        r@ == member(id, name@, position, key@, platform, r.paired_at_ms),
{
    let mut displays: Vec<DisplayInfo> = Vec::new();
    displays.push(placeholder_display());
    assert(model::displays_view(displays@) =~= seq![stand_in_display()]);
    MachineRecord {
        id,
        display_name: String::from_str(name),
        platform,
        public_key: key,
        position,
        displays,
        input: InputAssignment { provides_keyboard: true, provides_mouse: true },
        paired_at_ms: now_ms(),
    }
}

/// The name of this machine: the computer's, else the host's, else a phrase.
pub fn local_name(computer: Option<String>, host: Option<String>) -> (r: String)
    ensures
        match computer {
            Some(name) => r == name,
            None => match host {
                Some(name) => r == name,
                None => r@ == "This machine"@,
            },
        },
{
    match computer {
        Some(name) => name,
        None => match host {
            Some(name) => name,
            None => String::from_str("This machine"),
        },
    }
}

/// `s` with spaces behind it, up to `width` characters.
pub open spec fn padded(s: Seq<char>, width: int) -> Seq<char> {
    s + Seq::new(
        if s.len() < width {
            (width - s.len()) as nat
        } else {
            0
        },
        |i: int| ' ',
    )
}

fn pad(s: &str, width: usize) -> (r: String)
    ensures
        r@ == padded(s@, width as int),
{
    proof {
        reveal_strlit(" ");
    }
    let len: usize = s.unicode_len();
    let mut out = String::from_str(s);
    let mut i: usize = len;
    assert(out@ =~= s@ + Seq::new(0, |k: int| ' '));
    while i < width
        invariant
            len == s@.len(),
            len <= i,
            i <= width || i == len,
            " "@ =~= seq![' '],
            out@ =~= s@ + Seq::new((i - len) as nat, |k: int| ' '),
        decreases width - i,
    {
        out.append(" ");
        i = i + 1;
    }
    assert(out@ =~= padded(s@, width as int));
    out
}

/// What a machine covers, in words.
pub open spec fn extent_text(record: RecordView) -> Seq<char> {
    match record.bounds() {
        Some(b) => "x "@ + text::signed_decimal(b.x as int) + ".."@ + text::signed_decimal(
            b.right(),
        ) + ", y "@ + text::signed_decimal(b.y as int) + ".."@ + text::signed_decimal(b.bottom()),
        None => "no displays reported"@,
    }
}

/// The line about one machine.
pub open spec fn machine_line(record: RecordView, online: Set<MachineId>, local: MachineId) -> Seq<
    char,
> {
    let (glyph, state) = if online.contains(record.id) {
        ("   \u{25cf} "@, "online"@)
    } else {
        ("   \u{25cb} "@, "offline"@)
    };
    let here = if record.id == local {
        "  (this machine)"@
    } else {
        ""@
    };
    glyph + padded(record.display_name, 14) + " "@ + padded(state, 8) + " "@ + extent_text(record)
        + here
}

fn describe_machine(record: &MachineRecord, online: &HashSet<MachineId>, local: MachineId) -> (r:
    String)
    ensures
        r@ == machine_line(record@, online@, local),
{
    let up = online.contains(&record.id);
    let mut out = String::from_str(
        if up {
            "   \u{25cf} "
        } else {
            "   \u{25cb} "
        },
    );
    out.append(pad(record.display_name.as_str(), 14).as_str());
    out.append(" ");
    out.append(
        pad(
            if up {
                "online"
            } else {
                "offline"
            },
            8,
        ).as_str(),
    );
    out.append(" ");
    match record.bounds() {
        Some(b) => {
            let mut covers = text::joined("x ", text::signed_decimal_text(b.x as i64).as_str());
            covers.append("..");
            covers.append(text::signed_decimal_text(b.max_x() as i64).as_str());
            covers.append(", y ");
            covers.append(text::signed_decimal_text(b.y as i64).as_str());
            covers.append("..");
            covers.append(text::signed_decimal_text(b.max_y() as i64).as_str());
            out.append(covers.as_str());
        },
        None => {
            out.append("no displays reported");
        },
    }
    out.append(
        if record.id == local {
            "  (this machine)"
        } else {
            ""
        },
    );
    out
}

/// Where the machines are put.
pub open spec fn positions(records: Seq<RecordView>) -> Seq<Point> {
    Seq::new(records.len(), |i: int| records[i].position)
}

/// A line about each machine of the workspace, in reading order rather than by
/// identifier, so the list resembles the desk. The topology stays visible whatever
/// is up.
pub open spec fn topology(doc: DocView, online: Set<MachineId>, local: MachineId) -> Seq<
    Seq<char>,
> {
    let records = doc.present();
    let listed = order::reading_order(positions(records), records.len() as int);
    Seq::new(listed.len(), |i: int| machine_line(records[listed[i]], online, local))
}

/// A line about each machine of the workspace.
pub fn topology_lines(doc: &WorkspaceDoc, online: &HashSet<MachineId>, local: MachineId) -> (r: Vec<
    String,
>)
    ensures
        model::texts_view(r@) == topology(doc@, online@, local),
{
    let present = doc.machines_present();
    let ghost records = document::records_view(present@);
    let mut places: Vec<Point> = Vec::new();
    let mut i: usize = 0;
    while i < present.len()
        invariant
            i <= present@.len(),
            records == document::records_view(present@),
            places@ =~= positions(records).take(i as int),
        decreases present@.len() - i,
    {
        places.push(present[i].position);
        assert(records[i as int] == present@[i as int]@);
        i = i + 1;
    }
    assert(places@ =~= positions(records));
    let listed = order::in_reading_order(&places);
    proof {
        order::reading_order_is_sorted_and_complete(places@, places@.len() as int);
    }
    let ghost list = order::indices(listed@);
    let mut out: Vec<String> = Vec::new();
    let mut j: usize = 0;
    while j < listed.len()
        invariant
            j <= listed@.len(),
            records == document::records_view(present@),
            list == order::indices(listed@),
            forall|x: int| list.contains(x) ==> 0 <= x < present@.len(),
            out@.len() == j,
            forall|k: int|
                0 <= k < j ==> (#[trigger] out@[k])@ == machine_line(
                    records[list[k]],
                    online@,
                    local,
                ),
        decreases listed@.len() - j,
    {
        assert(list[j as int] == listed@[j as int]);
        assert(list.contains(list[j as int]));
        out.push(describe_machine(present[listed[j]], online, local));
        j = j + 1;
    }
    assert(model::texts_view(out@) =~= topology(doc@, online@, local));
    out
}

/// Every machine of the workspace has its line, whatever is up.
pub proof fn every_machine_is_listed(doc: DocView, online: Set<MachineId>, local: MachineId)
    ensures
        topology(doc, online, local).len() == doc.present().len(),
        forall|i: int|
            0 <= i < doc.present().len() ==> topology(doc, online, local).contains(
                machine_line(#[trigger] doc.present()[i], online, local),
            ),
{
    let records = doc.present();
    let n = records.len() as int;
    order::reading_order_is_sorted_and_complete(positions(records), n);
    let listed = order::reading_order(positions(records), n);
    assert forall|i: int| 0 <= i < n implies topology(doc, online, local).contains(
        machine_line(#[trigger] records[i], online, local),
    ) by {
        assert(listed.contains(i));
        let m = choose|m: int| 0 <= m < n && listed[m] == i;
        assert(topology(doc, online, local)[m] == machine_line(records[i], online, local));
    }
}

/// A point in words.
pub open spec fn point_text(p: Point) -> Seq<char> {
    "("@ + text::signed_decimal(p.x as int) + ", "@ + text::signed_decimal(p.y as int) + ")"@
}

pub(crate) fn show_point(p: Point) -> (r: String)
    ensures
        r@ == point_text(p),
{
    let mut out = text::joined("(", text::signed_decimal_text(p.x as i64).as_str());
    out.append(", ");
    out.append(text::signed_decimal_text(p.y as i64).as_str());
    out.append(")");
    out
}

/// What a machine is called: its name, or its identifier where it is not in the
/// workspace.
pub open spec fn called(doc: DocView, id: MachineId) -> Seq<char> {
    match doc.record(id) {
        Some(record) => record.display_name,
        None => ids::id_text(id),
    }
}

fn name_of(doc: &WorkspaceDoc, id: MachineId) -> (r: String)
    ensures
        r@ == called(doc@, id),
{
    match doc.machine(id) {
        Some(record) => record.display_name.clone(),
        None => ids::format_id(id),
    }
}

/// What becomes of a pointer on the machine `from` that heads for `target`.
pub open spec fn route_line(
    doc: DocView,
    online: Set<MachineId>,
    from: MachineId,
    target: Point,
) -> Seq<char> {
    match layout::resolved(doc, online, from, target) {
        Resolution::Stay(point) => "   cursor to "@ + point_text(target) + " -> stays on "@
            + called(doc, from) + " at "@ + point_text(point),
        Resolution::Move { machine, point } => "   cursor to "@ + point_text(target)
            + " -> hands off to "@ + called(doc, machine) + " at "@ + point_text(point),
    }
}

/// What becomes of a pointer on the machine `from` that heads for `target`.
pub fn describe_route(
    doc: &WorkspaceDoc,
    online: &HashSet<MachineId>,
    from: MachineId,
    target: Point,
) -> (r: String)
    ensures
        r@ == route_line(doc@, online@, from, target),
{
    let mut out = text::joined("   cursor to ", show_point(target).as_str());
    match resolve_cursor(doc, online, from, target) {
        Resolution::Stay(point) => {
            out.append(" -> stays on ");
            out.append(name_of(doc, from).as_str());
            out.append(" at ");
            out.append(show_point(point).as_str());
        },
        Resolution::Move { machine, point } => {
            out.append(" -> hands off to ");
            out.append(name_of(doc, machine).as_str());
            out.append(" at ");
            out.append(show_point(point).as_str());
        },
    }
    out
}

/// Adds a line.
pub(crate) fn say(out: &mut Vec<String>, line: String)
    ensures
        model::texts_view(final(out)@) == model::texts_view(old(out)@).push(line@),
{
    out.push(line);
    assert(model::texts_view(out@) =~= model::texts_view(old(out)@).push(line@));
}

/// Adds lines.
pub(crate) fn say_all(out: &mut Vec<String>, lines: Vec<String>)
    ensures
        model::texts_view(final(out)@) == model::texts_view(old(out)@) + model::texts_view(lines@),
{
    let mut i: usize = 0;
    let ghost all = model::texts_view(lines@);
    let ghost was = model::texts_view(out@);
    assert(was + all.take(0) =~= was);
    while i < lines.len()
        invariant
            i <= lines@.len(),
            all == model::texts_view(lines@),
            model::texts_view(out@) == was + all.take(i as int),
        decreases lines@.len() - i,
    {
        say(out, lines[i].clone());
        assert((was + all.take(i as int)).push(all[i as int]) =~= was + all.take(i + 1));
        i = i + 1;
    }
    assert(all.take(i as int) =~= all);
}

/// The workspace by its name and identifier.
pub open spec fn titled(doc: DocView) -> Seq<char> {
    "\""@ + doc.name.value + "\" ("@ + ids::id_text(doc.workspace_id) + ")"@
}

pub(crate) fn title(doc: &WorkspaceDoc) -> (r: String)
    ensures
        r@ == titled(doc@),
{
    let mut out = text::joined("\"", doc.name.value.as_str());
    out.append("\" (");
    out.append(ids::format_id(doc.workspace_id).as_str());
    out.append(")");
    out
}

/// The lines about this machine and the stored workspace. Only this machine can be
/// known to be online.
pub open spec fn status_of(
    id: MachineId,
    key: Seq<u8>,
    config_dir: Seq<char>,
    doc: Option<DocView>,
) -> Seq<Seq<char>> {
    let head = seq![
        "machine   "@ + ids::id_text(id),
        "key       "@ + bytes::hex_text(key.take(4)),
        "config    "@ + config_dir,
    ];
    match doc {
        None => head.push("\nnot in a workspace yet \u{2014} run `inputshare init <name>`"@),
        Some(doc) => (head.push(
            "\nworkspace "@ + titled(doc) + ", revision "@ + text::decimal(doc.lamport as nat),
        ) + topology(doc, set![id], id)).push(
            "\nPeers show offline because discovery is not implemented yet."@,
        ),
    }
}

/// The lines about this machine and the stored workspace.
pub fn status(identity: &Identity, config_dir: &str, doc: Option<&WorkspaceDoc>) -> (r: Vec<String>)
    ensures
        model::texts_view(r@) == status_of(
            identity.machine_id,
            identity::public_key_of(identity.secret()),
            config_dir@,
            match doc {
                Some(doc) => Some(doc@),
                None => None,
            },
        ),
{
    let mut out: Vec<String> = Vec::new();
    assert(model::texts_view(out@) =~= Seq::empty());
    say(&mut out, text::joined("machine   ", ids::format_id(identity.machine_id).as_str()));
    say(&mut out, text::joined("key       ", identity.public_key().fingerprint().as_str()));
    say(&mut out, text::joined("config    ", config_dir));
    assert(model::texts_view(out@) =~= seq![
        "machine   "@ + ids::id_text(identity.machine_id),
        "key       "@ + bytes::hex_text(
            identity::public_key_of(identity.secret()).take(4),
        ),
        "config    "@ + config_dir@,
    ]);
    match doc {
        None => say(
            &mut out,
            String::from_str("\nnot in a workspace yet \u{2014} run `inputshare init <name>`"),
        ),
        Some(doc) => {
            let mut head = text::joined("\nworkspace ", title(doc).as_str());
            head.append(", revision ");
            head.append(text::decimal_text(doc.lamport).as_str());
            say(&mut out, head);
            let online = only(identity.machine_id);
            say_all(&mut out, topology_lines(doc, &online, identity.machine_id));
            say(
                &mut out,
                String::from_str("\nPeers show offline because discovery is not implemented yet."),
            );
        },
    }
    out
}

/// The set of one machine.
fn only(id: MachineId) -> (r: HashSet<MachineId>)
    ensures
        r@ == set![id],
{
    let mut out: HashSet<MachineId> = HashSet::new();
    let _ = out.insert(id);
    assert(out@ =~= set![id]);
    out
}

/// What making this machine the first member of a workspace comes to.
pub enum Founding {
    /// It is in one already; this is what to say.
    Already(String),
    Created(WorkspaceDoc),
}

/// Makes this machine the first member of a workspace, unless it is in one.
pub fn init(
    name: &str,
    existing: Option<&WorkspaceDoc>,
    identity: &Identity,
    local_name: &str,
    platform: Platform,
) -> (r: Founding)
    ensures
        match existing {
            Some(doc) => r is Already && r->Already_0@ == "already in workspace "@ + titled(doc@)
                + ". Nothing to do."@,
            None => {
                let founder = member(
                    identity.machine_id,
                    local_name@,
                    Point { x: 0, y: 0 },
                    identity::public_key_of(identity.secret()),
                    platform,
                    r->Created_0@.record(identity.machine_id)->0.paired_at_ms,
                );
                &&& r is Created
                &&& r->Created_0.name.stamp.lamport == 1
                &&& r->Created_0.name.stamp.origin == identity.machine_id
                &&& ids::is_minted(r->Created_0.workspace_id)
                &&& r->Created_0@ == document::founded(
                    r->Created_0.workspace_id,
                    name@,
                    founder,
                    r->Created_0.name.stamp,
                )
            },
        },
{
    match existing {
        Some(doc) => {
            let mut line = text::joined("already in workspace ", title(doc).as_str());
            line.append(". Nothing to do.");
            Founding::Already(line)
        },
        None => {
            let me = record(
                identity.machine_id,
                local_name,
                Point::new(0, 0),
                identity.public_key(),
                platform,
            );
            Founding::Created(WorkspaceDoc::create(name, me))
        },
    }
}

/// The lines that tell of a new workspace.
pub fn created_lines(doc: &WorkspaceDoc, config_dir: &str) -> (r: Vec<String>)
    ensures
        model::texts_view(r@) == seq![
            "created workspace "@ + titled(doc@),
            "stored in "@ + config_dir@,
        ],
{
    let mut out: Vec<String> = Vec::new();
    assert(model::texts_view(out@) =~= Seq::empty());
    say(&mut out, text::joined("created workspace ", title(doc).as_str()));
    say(&mut out, text::joined("stored in ", config_dir));
    assert(model::texts_view(out@) =~= seq![
        "created workspace "@ + titled(doc@),
        "stored in "@ + config_dir@,
    ]);
    out
}

/// Adds a machine at a position.
///
/// A real pairing exchanges keys with the other machine. This mints a placeholder
/// identity, of a platform that is unknown, so the topology can be laid out before
/// the machine is there.
pub fn add(doc: &mut WorkspaceDoc, me: MachineId, name: &str, position: Point) -> (r: WorkspaceUpdate)
    requires
        old(doc).lamport < u64::MAX,
    ensures
        r@.op is UpsertMachine,
        ids::is_minted(r@.op->UpsertMachine_0.id),
        r@.op->UpsertMachine_0 == member(
            r@.op->UpsertMachine_0.id,
            name@,
            position,
            r@.op->UpsertMachine_0.public_key,
            Platform::Other,
            r@.op->UpsertMachine_0.paired_at_ms,
        ),
        is_public_key(r@.op->UpsertMachine_0.public_key),
        r.stamp.lamport == old(doc).lamport + 1,
        r.stamp.origin == me,
        final(doc)@ == old(doc)@.edited(r.stamp, r@.op),
{
    let peer = Identity::generate();
    assert(is_secret_of(peer.secret(), identity::public_key_of(peer.secret())));
    let peer_record = record(peer.machine_id, name, position, peer.public_key(), Platform::Other);
    doc.upsert_machine(me, peer_record)
}

/// The line that tells of a machine that was added.
pub fn added_line(name: &str, position: Point) -> (r: String)
    ensures
        r@ == "added \""@ + name@ + "\" at "@ + point_text(position),
{
    let mut out = text::joined("added \"", name);
    out.append("\" at ");
    out.append(show_point(position).as_str());
    out
}

/// The digits of a number spell it.
proof fn decimals_spell_their_number(n: nat)
    ensures
        digits_value(text::decimal(n)) == Some(n),
    decreases n,
{
    reveal_with_fuel(digits_value, 2);
    let s = text::decimal(n);
    if n >= 10 {
        decimals_spell_their_number(n / 10);
        assert(s.drop_last() =~= text::decimal(n / 10));
        assert(s.last() == text::digit(n % 10));
    } else {
        assert(s.drop_last() =~= Seq::<char>::empty());
        assert(s.last() == text::digit(n));
    }
}

/// A number that is written out is read as that number, with its sign; a plus in front
/// changes nothing; and one beyond thirty-two bits is not read at all.
pub proof fn numbers_read_as_they_are_written(n: int)
    ensures
        i32::MIN <= n <= i32::MAX <==> integer(text::signed_decimal(n)) is Some,
        i32::MIN <= n <= i32::MAX ==> integer(text::signed_decimal(n)) == Some(n),
        0 <= n <= i32::MAX ==> integer(seq!['+'] + text::signed_decimal(n)) == Some(n),
        integer(Seq::<char>::empty()) is None,
        integer(seq!['-']) is None,
{
    let size = (if n < 0 {
        -n
    } else {
        n
    }) as nat;
    text::decimals_are_digits(size);
    decimals_spell_their_number(size);
    let digits = text::decimal(size);
    assert('0' <= digits[0] <= '9');
    assert((seq!['-'] + digits).drop_first() =~= digits);
    assert((seq!['+'] + digits).drop_first() =~= digits);
    assert(seq!['-'].drop_first() =~= Seq::<char>::empty());
}

/// What is asked for on the command line is done to the machine and the point that are
/// given: `add` takes a name and then the two coordinates, `route` just those, and
/// nothing at all asks for the demonstration.
pub proof fn commands_take_their_arguments_in_order(name: Seq<char>, x: i32, y: i32, r: Command)
    ensures
        asks(
            seq![
                "add"@,
                name,
                text::signed_decimal(x as int),
                text::signed_decimal(y as int),
            ],
            r,
        ) ==> r is Add && r->Add_name@ == name && r->Add_at == (Point { x, y }),
        asks(
            seq!["route"@, text::signed_decimal(x as int), text::signed_decimal(y as int)],
            r,
        ) ==> r == Command::Route(Point { x, y }),
        asks(seq!["init"@, name], r) ==> r is Init && r->Init_0@ == name,
        asks(seq!["status"@], r) ==> r == Command::Status,
        asks(Seq::<Seq<char>>::empty(), r) ==> r == Command::Demo,
        asks(seq!["add"@, name], r) || asks(seq!["route"@], r) || asks(seq!["init"@], r)
            ==> r is Usage && r->Usage_0@.len() > 0,
{
    numbers_read_as_they_are_written(x as int);
    numbers_read_as_they_are_written(y as int);
    reveal_strlit("demo");
    reveal_strlit("status");
    reveal_strlit("init");
    reveal_strlit("add");
    reveal_strlit("route");
    reveal_strlit("add needs a name, an x and a y");
    reveal_strlit("route needs an x and a y");
    reveal_strlit("init needs a workspace name");
    assert("init"@[0] != "demo"@[0]);
    let added = seq![
        "add"@,
        name,
        text::signed_decimal(x as int),
        text::signed_decimal(y as int),
    ];
    let routed = seq!["route"@, text::signed_decimal(x as int), text::signed_decimal(y as int)];
    assert(added[0].len() == 3 && routed[0].len() == 5);
    assert(added[2] == text::signed_decimal(x as int) && added[3] == text::signed_decimal(
        y as int,
    ));
    assert(routed[1] == text::signed_decimal(x as int) && routed[2] == text::signed_decimal(
        y as int,
    ));
}

/// Names that fit are padded to one width with spaces behind them; those that do not
/// are left whole.
pub proof fn padding_only_adds_spaces_behind(s: Seq<char>, width: int, i: int)
    requires
        0 <= i < padded(s, width).len(),
    ensures
        padded(s, width).len() >= width,
        s.len() >= width ==> padded(s, width) == s,
        s.len() < width ==> padded(s, width).len() == width,
        i < s.len() ==> padded(s, width)[i] == s[i],
        i >= s.len() ==> padded(s, width)[i] == ' ',
{
    if s.len() >= width {
        assert(padded(s, width) =~= s);
    }
}

/// A line about a machine says whether it is online: by a filled circle if it is and an
/// empty one if it is not.
pub proof fn a_line_says_who_is_online(
    record: RecordView,
    online: Set<MachineId>,
    local: MachineId,
)
    ensures
        machine_line(record, online, local).len() > 5,
        machine_line(record, online, local)[3] == '\u{25cf}' <==> online.contains(record.id),
        machine_line(record, online, local)[3] == '\u{25cb}' <==> !online.contains(record.id),
{
    reveal_strlit("   \u{25cf} ");
    reveal_strlit("   \u{25cb} ");
}

/// A line about a route starts with where the pointer heads for and ends with where it
/// ends up.
pub proof fn a_route_line_says_where_it_leads(
    doc: DocView,
    online: Set<MachineId>,
    from: MachineId,
    target: Point,
)
    ensures
        ({
            let line = route_line(doc, online, from, target);
            let head = "   cursor to "@ + point_text(target);
            let end = point_text(
                match layout::resolved(doc, online, from, target) {
                    Resolution::Stay(point) => point,
                    Resolution::Move { machine, point } => point,
                },
            );
            &&& line.len() >= head.len() + end.len()
            &&& line.take(head.len() as int) == head
            &&& line.skip(line.len() - end.len()) == end
        }),
{
    let line = route_line(doc, online, from, target);
    let head = "   cursor to "@ + point_text(target);
    let end = point_text(
        match layout::resolved(doc, online, from, target) {
            Resolution::Stay(point) => point,
            Resolution::Move { machine, point } => point,
        },
    );
    assert(line.take(head.len() as int) =~= head);
    assert(line.skip(line.len() - end.len()) =~= end);
}

/// A point is written with its horizontal coordinate first.
pub proof fn points_are_written_across_first(p: Point)
    ensures
        point_text(p) == seq!['('] + text::signed_decimal(p.x as int) + seq![',', ' ']
            + text::signed_decimal(p.y as int) + seq![')'],
{
    reveal_strlit("(");
    reveal_strlit(", ");
    reveal_strlit(")");
    assert("("@ =~= seq!['(']);
    assert(", "@ =~= seq![',', ' ']);
    assert(")"@ =~= seq![')']);
}

} // verus!
