//! The tables that the tool prints: devices (with chosen columns),
//! devices with their lock keys, users, contacts, and the details of one
//! device. Each is laid out with an exact contract, then rendered.

use vstd::prelude::*;

use crate::clock::utc_now;
use crate::models::{
    devices_view, locked_out, online_at, owner_text, strings_view, users_view, Contact,
    ContactsResponse, Device, DeviceView, User, UserView,
};
use crate::style::{green, green_code, red, red_code, styled};
use crate::table::{
    draws_table, header_view, render_layout, row_view, rows_view, Borders, CellColor, StyledText, TableLayout,
};
use crate::tags::{format_tags, join_strings, joined, renders_tags};
use crate::text::{
    chars_between, chars_in_bytes, chars_of, cut_at_byte, decimal_text, is_byte_boundary,
    lowercase, str_eq, string_from_chars, to_lowercase, u32_to_text, utf8_len, utf8_longer_than,
};

verus! {

/// A styled text from a literal.
fn text_cell(text: &str, color: Option<CellColor>) -> (r: StyledText)
    ensures
        r.text@ == text@,
        r.color == color,
{
    StyledText { text: String::from_str(text), color }
}


// ---------------------------------------------------------------------
// Key display
// ---------------------------------------------------------------------

/// A key can be shown: it has at most 20 bytes, or byte 20 falls between
/// two of its characters (where it is cut).
pub open spec fn key_fits(k: Seq<char>) -> bool {
    utf8_len(k) <= 20 || is_byte_boundary(k, 20)
}

/// A key as the devices table shows it: cut after 20 bytes, with `...`
/// appended, when it is longer.
pub open spec fn shown_key(k: Seq<char>) -> Seq<char> {
    if utf8_len(k) > 20 {
        k.take(chars_in_bytes(k, 20)) + "..."@
    } else {
        k
    }
}

fn display_key(key: &str) -> (r: Option<String>)
    ensures
        r is Some <==> key_fits(key@),
        r matches Some(s) ==> s@ == shown_key(key@),
{
    let cs = chars_of(key);
    if !utf8_longer_than(cs.as_slice(), 20) {
        return Some(String::from_str(key));
    }
    match cut_at_byte(cs.as_slice(), 20) {
        Some(k) => {
            let head = string_from_chars(chars_between(cs.as_slice(), 0, k).as_slice());
            assert(head@ =~= key@.take(k as int));
            Some(head.concat("..."))
        },
        None => None,
    }
}

// ---------------------------------------------------------------------
// The devices table
// ---------------------------------------------------------------------

/// The columns of the devices table.
#[derive(Clone, Copy, PartialEq, Eq, Structural)]
pub enum Column {
    Id,
    Hostname,
    Name,
    Owner,
    Os,
    Status,
    Locked,
    Tags,
    LastSeen,
    NodeKey,
    LockKey,
    LockError,
    BlocksIncoming,
}

/// The column that a lower-cased column name selects, if any.
pub open spec fn column_named(n: Seq<char>) -> Option<Column> {
    if n == "id"@ {
        Some(Column::Id)
    } else if n == "hostname"@ {
        Some(Column::Hostname)
    } else if n == "name"@ {
        Some(Column::Name)
    } else if n == "owner"@ || n == "user"@ {
        Some(Column::Owner)
    } else if n == "os"@ {
        Some(Column::Os)
    } else if n == "status"@ {
        Some(Column::Status)
    } else if n == "locked"@ {
        Some(Column::Locked)
    } else if n == "tags"@ {
        Some(Column::Tags)
    } else if n == "last_seen"@ || n == "lastseen"@ {
        Some(Column::LastSeen)
    } else if n == "node_key"@ || n == "nodekey"@ {
        Some(Column::NodeKey)
    } else if n == "tailnet_lock_key"@ || n == "tailnetlockkey"@ || n == "lock_key"@ || n
        == "lockkey"@ {
        Some(Column::LockKey)
    } else if n == "tailnet_lock_error"@ || n == "tailnetlockerror"@ || n == "lock_error"@ || n
        == "lockerror"@ {
        Some(Column::LockError)
    } else if n == "blocks_incoming_connections"@ || n == "blocksincomingconnections"@ || n
        == "blocks_incoming"@ {
        Some(Column::BlocksIncoming)
    } else {
        None
    }
}

fn column_from_name(n: &str) -> (r: Option<Column>)
    ensures
        r == column_named(n@),
{
    if str_eq(n, "id") {
        Some(Column::Id)
    } else if str_eq(n, "hostname") {
        Some(Column::Hostname)
    } else if str_eq(n, "name") {
        Some(Column::Name)
    } else if str_eq(n, "owner") || str_eq(n, "user") {
        Some(Column::Owner)
    } else if str_eq(n, "os") {
        Some(Column::Os)
    } else if str_eq(n, "status") {
        Some(Column::Status)
    } else if str_eq(n, "locked") {
        Some(Column::Locked)
    } else if str_eq(n, "tags") {
        Some(Column::Tags)
    } else if str_eq(n, "last_seen") || str_eq(n, "lastseen") {
        Some(Column::LastSeen)
    } else if str_eq(n, "node_key") || str_eq(n, "nodekey") {
        Some(Column::NodeKey)
    } else if str_eq(n, "tailnet_lock_key") || str_eq(n, "tailnetlockkey") || str_eq(n, "lock_key")
        || str_eq(n, "lockkey") {
        Some(Column::LockKey)
    } else if str_eq(n, "tailnet_lock_error") || str_eq(n, "tailnetlockerror") || str_eq(
        n,
        "lock_error",
    ) || str_eq(n, "lockerror") {
        Some(Column::LockError)
    } else if str_eq(n, "blocks_incoming_connections") || str_eq(n, "blocksincomingconnections")
        || str_eq(n, "blocks_incoming") {
        Some(Column::BlocksIncoming)
    } else {
        None
    }
}

/// The header title of a column.
pub open spec fn column_title(c: Column) -> Seq<char> {
    match c {
        Column::Id => "ID"@,
        Column::Hostname => "Hostname"@,
        Column::Name => "Name"@,
        Column::Owner => "Owner"@,
        Column::Os => "OS"@,
        Column::Status => "Status"@,
        Column::Locked => "Locked"@,
        Column::Tags => "Tags"@,
        Column::LastSeen => "Last Seen"@,
        Column::NodeKey => "Node Key"@,
        Column::LockKey => "Tailnet Lock Key"@,
        Column::LockError => "Tailnet Lock Error"@,
        Column::BlocksIncoming => "Blocks Incoming"@,
    }
}

fn column_title_text(c: Column) -> (r: &'static str)
    ensures
        r@ == column_title(c),
{
    match c {
        Column::Id => "ID",
        Column::Hostname => "Hostname",
        Column::Name => "Name",
        Column::Owner => "Owner",
        Column::Os => "OS",
        Column::Status => "Status",
        Column::Locked => "Locked",
        Column::Tags => "Tags",
        Column::LastSeen => "Last Seen",
        Column::NodeKey => "Node Key",
        Column::LockKey => "Tailnet Lock Key",
        Column::LockError => "Tailnet Lock Error",
        Column::BlocksIncoming => "Blocks Incoming",
    }
}

/// The columns that a list of column names selects, in its order; names
/// that select no column (after lower-casing) are skipped.
pub open spec fn chosen_columns(names: Seq<Seq<char>>) -> Seq<Column>
    decreases names.len(),
{
    if names.len() == 0 {
        seq![]
    } else {
        let prev = chosen_columns(names.drop_last());
        match column_named(lowercase(names.last())) {
            Some(c) => prev.push(c),
            None => prev,
        }
    }
}

/// The names of `names` that select a column (after lower-casing), in
/// their order.
pub open spec fn known_column_names(names: Seq<Seq<char>>) -> Seq<Seq<char>>
    decreases names.len(),
{
    if names.len() == 0 {
        seq![]
    } else {
        let prev = known_column_names(names.drop_last());
        if column_named(lowercase(names.last())) is Some {
            prev.push(names.last())
        } else {
            prev
        }
    }
}

/// Column names are matched ignoring case: two lists of names that agree
/// once lower-cased choose the same columns.
pub proof fn law_columns_ignore_case(a: Seq<Seq<char>>, b: Seq<Seq<char>>)
    requires
        a.len() == b.len(),
        forall|k: int| 0 <= k < a.len() ==> lowercase(#[trigger] a[k]) == lowercase(b[k]),
    ensures
        chosen_columns(a) == chosen_columns(b),
    decreases a.len(),
{
    if a.len() > 0 {
        assert forall|k: int| 0 <= k < a.drop_last().len() implies lowercase(#[trigger] a.drop_last()[k])
            == lowercase(b.drop_last()[k]) by {
            assert(a.drop_last()[k] == a[k]);
            assert(b.drop_last()[k] == b[k]);
        }
        law_columns_ignore_case(a.drop_last(), b.drop_last());
        assert(lowercase(a[a.len() - 1]) == lowercase(b[b.len() - 1]));
    }
}

/// Unknown column names are dropped: the columns chosen are those of the
/// known names alone, one per known name, in their order.
pub proof fn law_unknown_columns_dropped(names: Seq<Seq<char>>)
    ensures
        chosen_columns(names) == chosen_columns(known_column_names(names)),
        chosen_columns(names).len() == known_column_names(names).len(),
        forall|k: int|
            0 <= k < chosen_columns(names).len() ==> column_named(lowercase(known_column_names(names)[k]))
                == Some(#[trigger] chosen_columns(names)[k]),
    decreases names.len(),
{
    if names.len() > 0 {
        let front = names.drop_last();
        law_unknown_columns_dropped(front);
        let kf = known_column_names(front);
        let kn = known_column_names(names);
        if column_named(lowercase(names.last())) is Some {
            assert(kn == kf.push(names.last()));
            assert(kn.drop_last() =~= kf);
            assert(kn.last() == names.last());
        } else {
            assert(kn == kf);
        }
        let cn = chosen_columns(names);
        assert forall|k: int| 0 <= k < cn.len() implies column_named(lowercase(kn[k])) == Some(
            #[trigger] cn[k],
        ) by {
            if k < chosen_columns(front).len() {
                assert(cn[k] == chosen_columns(front)[k]);
                assert(kn[k] == kf[k]);
            }
        }
    }
}

/// Giving no columns is the same as giving the default column list: the
/// same columns are chosen, so at the same instant and for the same
/// terminal the devices table is the same text.
pub proof fn law_no_columns_means_defaults(
    r: Seq<char>,
    ds: Seq<DeviceView>,
    now: (i64, u32),
    tty: bool,
    width: Option<u16>,
)
    ensures
        chosen_columns(column_names(None)) == chosen_columns(column_names(Some(default_column_names()))),
        draws_devices_table(r, ds, chosen_columns(column_names(None)), now, tty, width) <==> draws_devices_table(
            r,
            ds,
            chosen_columns(column_names(Some(default_column_names()))),
            now,
            tty,
            width,
        ),
{
}

/// The column names used when none are given.
pub open spec fn default_column_names() -> Seq<Seq<char>> {
    seq!["hostname"@, "owner"@, "os"@, "status"@, "locked"@, "tags"@]
}

/// The column names in effect: the given ones, or the default ones.
pub open spec fn column_names(columns: Option<Seq<Seq<char>>>) -> Seq<Seq<char>> {
    match columns {
        Some(c) => c,
        None => default_column_names(),
    }
}

/// The status cell of a device.
pub open spec fn status_cell(online: bool) -> (Seq<char>, Option<CellColor>) {
    if online {
        ("● online"@, Some(CellColor::Green))
    } else {
        ("○ offline"@, Some(CellColor::DarkGrey))
    }
}

/// A grey dash, shown for a missing value.
pub open spec fn grey_dash() -> (Seq<char>, Option<CellColor>) {
    ("-"@, Some(CellColor::DarkGrey))
}

/// The cell of device `d` in column `c`, `online` telling whether the
/// device is online.
pub open spec fn device_cell(d: DeviceView, c: Column, online: bool) -> (Seq<char>, Option<CellColor>) {
    match c {
        Column::Id => (d.id, None),
        Column::Hostname => (d.hostname, None),
        Column::Name => (d.name, None),
        Column::Owner => (owner_text(d), None),
        Column::Os => (d.os, None),
        Column::Status => status_cell(online),
        Column::Locked => if locked_out(d) {
            ("✗ locked"@, Some(CellColor::Red))
        } else {
            grey_dash()
        },
        Column::Tags => if d.tags.len() == 0 {
            ("-"@, None)
        } else {
            (joined(d.tags, ", "@), None)
        },
        Column::LastSeen => if d.last_seen.len() == 0 {
            grey_dash()
        } else {
            (d.last_seen, None)
        },
        Column::NodeKey => if d.node_key.len() == 0 {
            grey_dash()
        } else {
            (shown_key(d.node_key), None)
        },
        Column::LockKey => if d.tailnet_lock_key.len() == 0 {
            grey_dash()
        } else {
            (shown_key(d.tailnet_lock_key), None)
        },
        Column::LockError => if d.tailnet_lock_error.len() == 0 {
            grey_dash()
        } else {
            (d.tailnet_lock_error, Some(CellColor::Red))
        },
        Column::BlocksIncoming => if d.blocks_incoming_connections {
            ("✓ yes"@, Some(CellColor::Yellow))
        } else {
            grey_dash()
        },
    }
}

/// Device `d` can be shown in column `c`: a key column needs a key that
/// can be cut after 20 bytes.
pub open spec fn cell_fits(d: DeviceView, c: Column) -> bool {
    &&& c == Column::NodeKey ==> key_fits(d.node_key)
    &&& c == Column::LockKey ==> key_fits(d.tailnet_lock_key)
}

/// Every device can be shown in every chosen column.
pub open spec fn all_cells_fit(ds: Seq<DeviceView>, cs: Seq<Column>) -> bool {
    forall|i: int, j: int| 0 <= i < ds.len() && 0 <= j < cs.len() ==> cell_fits(ds[i], cs[j])
}

/// The header of the devices table: the titles of the chosen columns, in
/// cyan.
pub open spec fn devices_header(cs: Seq<Column>) -> Seq<(Seq<char>, Option<CellColor>)> {
    cs.map_values(|c: Column| (column_title(c), Some(CellColor::Cyan)))
}

/// The row of device `d`: its cell in each chosen column.
pub open spec fn device_row(d: DeviceView, cs: Seq<Column>, now: (i64, u32)) -> Seq<
    (Seq<char>, Option<CellColor>),
> {
    cs.map_values(|c: Column| device_cell(d, c, online_at(d.last_seen, now)))
}

/// The rows of the devices table, one per device in order.
pub open spec fn device_rows(ds: Seq<DeviceView>, cs: Seq<Column>, now: (i64, u32)) -> Seq<
    Seq<(Seq<char>, Option<CellColor>)>,
> {
    ds.map_values(|d: DeviceView| device_row(d, cs, now))
}

fn device_cell_exec(d: &Device, c: Column, online: bool) -> (r: Option<StyledText>)
    ensures
        r is Some <==> cell_fits(d@, c),
        r matches Some(s) ==> (s.text@, s.color) == device_cell(d@, c, online),
{
    match c {
        Column::Id => Some(StyledText { text: d.id.clone(), color: None }),
        Column::Hostname => Some(StyledText { text: d.hostname.clone(), color: None }),
        Column::Name => Some(StyledText { text: d.name.clone(), color: None }),
        Column::Owner => Some(text_cell(d.owner(), None)),
        Column::Os => Some(StyledText { text: d.os.clone(), color: None }),
        Column::Status => Some(
            if online {
                text_cell("● online", Some(CellColor::Green))
            } else {
                text_cell("○ offline", Some(CellColor::DarkGrey))
            },
        ),
        Column::Locked => Some(
            if d.is_locked_out() {
                text_cell("✗ locked", Some(CellColor::Red))
            } else {
                text_cell("-", Some(CellColor::DarkGrey))
            },
        ),
        Column::Tags => Some(
            if d.tags.len() == 0 {
                text_cell("-", None)
            } else {
                StyledText { text: join_strings(d.tags.as_slice(), ", "), color: None }
            },
        ),
        Column::LastSeen => Some(
            if d.last_seen.as_str().is_empty() {
                text_cell("-", Some(CellColor::DarkGrey))
            } else {
                StyledText { text: d.last_seen.clone(), color: None }
            },
        ),
        Column::NodeKey => if d.node_key.as_str().is_empty() {
            Some(text_cell("-", Some(CellColor::DarkGrey)))
        } else {
            match display_key(d.node_key.as_str()) {
                Some(k) => Some(StyledText { text: k, color: None }),
                None => None,
            }
        },
        Column::LockKey => if d.tailnet_lock_key.as_str().is_empty() {
            Some(text_cell("-", Some(CellColor::DarkGrey)))
        } else {
            match display_key(d.tailnet_lock_key.as_str()) {
                Some(k) => Some(StyledText { text: k, color: None }),
                None => None,
            }
        },
        Column::LockError => Some(
            if d.tailnet_lock_error.as_str().is_empty() {
                text_cell("-", Some(CellColor::DarkGrey))
            } else {
                StyledText { text: d.tailnet_lock_error.clone(), color: Some(CellColor::Red) }
            },
        ),
        Column::BlocksIncoming => Some(
            if d.blocks_incoming_connections {
                text_cell("✓ yes", Some(CellColor::Yellow))
            } else {
                text_cell("-", Some(CellColor::DarkGrey))
            },
        ),
    }
}

fn default_columns() -> (r: Vec<String>)
    ensures
        strings_view(r@) == default_column_names(),
{
    let mut r: Vec<String> = Vec::new();
    r.push(String::from_str("hostname"));
    r.push(String::from_str("owner"));
    r.push(String::from_str("os"));
    r.push(String::from_str("status"));
    r.push(String::from_str("locked"));
    r.push(String::from_str("tags"));
    assert(strings_view(r@) =~= default_column_names());
    r
}

fn columns_of(names: &[String]) -> (r: Vec<Column>)
    ensures
        r@ == chosen_columns(strings_view(names@)),
{
    let ghost ns = strings_view(names@);
    let mut r: Vec<Column> = Vec::new();
    let mut i: usize = 0;
    assert(ns.take(0) =~= Seq::<Seq<char>>::empty());
    while i < names.len()
        invariant
            ns == strings_view(names@),
            i <= names@.len(),
            r@ == chosen_columns(ns.take(i as int)),
        decreases names@.len() - i,
    {
        assert(ns.take(i + 1).drop_last() =~= ns.take(i as int));
        assert(ns.take(i + 1).last() == names@[i as int]@);
        let lower = to_lowercase(names[i].as_str());
        match column_from_name(lower.as_str()) {
            Some(c) => r.push(c),
            None => {},
        }
        i += 1;
    }
    assert(ns.take(names@.len() as int) =~= ns);
    r
}

/// The column names given, as their characters.
pub open spec fn given_names(columns: Option<&[String]>) -> Option<Seq<Seq<char>>> {
    match columns {
        Some(c) => Some(strings_view(c@)),
        None => None,
    }
}

/// Lays out the devices table at the instant `now`: a cyan header with the
/// title of each chosen column, then one row per device with its cell in
/// each column. Column names are matched after lower-casing, unknown ones
/// skipped; without names, hostname, owner, os, status, locked and tags
/// are shown. `None` when a key column holds a key that cannot be cut
/// after 20 bytes.
pub fn devices_table_layout(devices: &[Device], columns: Option<&[String]>, now: (i64, u32)) -> (r:
    Option<TableLayout>)
    ensures
        r is Some <==> all_cells_fit(
            devices_view(devices@),
            chosen_columns(column_names(given_names(columns))),
        ),
        r matches Some(l) ==> header_view(l.header) == Some(
            devices_header(chosen_columns(column_names(given_names(columns)))),
        ) && rows_view(l.rows@) == device_rows(
            devices_view(devices@),
            chosen_columns(column_names(given_names(columns))),
            now,
        ),
{
    let ghost ds = devices_view(devices@);
    let defaults = default_columns();
    let names: &[String] = match columns {
        Some(c) => c,
        None => defaults.as_slice(),
    };
    let cols = columns_of(names);
    let ghost cs = cols@;
    assert(cs == chosen_columns(column_names(given_names(columns))));
    let mut header: Vec<StyledText> = Vec::new();
    let mut j: usize = 0;
    while j < cols.len()
        invariant
            cs == cols@,
            j <= cols@.len(),
            header@.len() == j,
            forall|k: int|
                0 <= k < j ==> (#[trigger] header@[k]).text@ == column_title(cs[k]) && header@[k].color
                    == Some(CellColor::Cyan),
        decreases cols@.len() - j,
    {
        header.push(text_cell(column_title_text(cols[j]), Some(CellColor::Cyan)));
        j += 1;
    }
    assert(row_view(header@) =~= devices_header(cs));
    let mut rows: Vec<Vec<StyledText>> = Vec::new();
    let mut i: usize = 0;
    while i < devices.len()
        invariant
            ds == devices_view(devices@),
            cs == cols@,
            cs == chosen_columns(column_names(given_names(columns))),
            i <= devices@.len(),
            rows@.len() == i,
            forall|a: int| 0 <= a < i ==> row_view((#[trigger] rows@[a])@) == device_row(ds[a], cs, now),
            forall|a: int, b: int| 0 <= a < i && 0 <= b < cs.len() ==> cell_fits(ds[a], cs[b]),
        decreases devices@.len() - i,
    {
        let d = &devices[i];
        let online = d.is_online_at(now);
        let mut row: Vec<StyledText> = Vec::new();
        let mut j: usize = 0;
        while j < cols.len()
            invariant
                ds == devices_view(devices@),
                cs == cols@,
                i < devices@.len(),
                *d == devices@[i as int],
                cs == chosen_columns(column_names(given_names(columns))),
                online == online_at(d@.last_seen, now),
                j <= cols@.len(),
                row@.len() == j,
                forall|b: int|
                    0 <= b < j ==> ((#[trigger] row@[b]).text@, row@[b].color) == device_cell(
                        d@,
                        cs[b],
                        online,
                    ),
                forall|b: int| 0 <= b < j ==> cell_fits(d@, cs[b]),
            decreases cols@.len() - j,
        {
            match device_cell_exec(d, cols[j], online) {
                Some(cell) => row.push(cell),
                None => {
                    assert(!cell_fits(ds[i as int], cs[j as int]));
                    assert(!all_cells_fit(ds, cs));
                    assert(cs == chosen_columns(column_names(given_names(columns))));
                    return None;
                },
            }
            j += 1;
        }
        assert(row_view(row@) =~= device_row(d@, cs, now));
        assert(d@ == ds[i as int]);
        rows.push(row);
        i += 1;
    }
    assert(rows_view(rows@) =~= device_rows(ds, cs, now));
    assert(all_cells_fit(ds, cs));
    Some(TableLayout { header: Some(header), rows })
}

/// The columns that the devices table shows for the given column names
/// (the default ones when there are none).
pub open spec fn shown_columns(columns: Option<&[String]>) -> Seq<Column> {
    chosen_columns(column_names(given_names(columns)))
}

/// What each column of the devices table shows for a device, `online`
/// telling whether it is online: the ID, hostname, name and OS as they
/// are; the user or `-`; a green "● online" or a grey "○ offline"; a red
/// "✗ locked" exactly when the device has both a tailnet lock key and a
/// tailnet lock error, else a grey `-`; the tags joined by `, ` or `-`;
/// the last-seen time, a red lock error and a yellow "✓ yes" for blocked
/// incoming connections where there are some, else a grey `-`; keys in
/// full up to 20 bytes, else cut after 20 bytes with `...` appended.
pub proof fn law_device_cells(d: DeviceView, online: bool)
    ensures
        device_cell(d, Column::Id, online) == (d.id, None::<CellColor>),
        device_cell(d, Column::Hostname, online) == (d.hostname, None::<CellColor>),
        device_cell(d, Column::Name, online) == (d.name, None::<CellColor>),
        device_cell(d, Column::Os, online) == (d.os, None::<CellColor>),
        device_cell(d, Column::Owner, online) == (if d.user.len() == 0 {
            "-"@
        } else {
            d.user
        }, None::<CellColor>),
        device_cell(d, Column::Status, online) == if online {
            ("● online"@, Some(CellColor::Green))
        } else {
            ("○ offline"@, Some(CellColor::DarkGrey))
        },
        device_cell(d, Column::Locked, online) == if d.tailnet_lock_key.len() > 0
            && d.tailnet_lock_error.len() > 0 {
            ("✗ locked"@, Some(CellColor::Red))
        } else {
            ("-"@, Some(CellColor::DarkGrey))
        },
        device_cell(d, Column::Tags, online) == if d.tags.len() == 0 {
            ("-"@, None::<CellColor>)
        } else {
            (joined(d.tags, ", "@), None::<CellColor>)
        },
        device_cell(d, Column::LastSeen, online) == if d.last_seen.len() == 0 {
            ("-"@, Some(CellColor::DarkGrey))
        } else {
            (d.last_seen, None::<CellColor>)
        },
        device_cell(d, Column::LockError, online) == if d.tailnet_lock_error.len() == 0 {
            ("-"@, Some(CellColor::DarkGrey))
        } else {
            (d.tailnet_lock_error, Some(CellColor::Red))
        },
        device_cell(d, Column::BlocksIncoming, online) == if d.blocks_incoming_connections {
            ("✓ yes"@, Some(CellColor::Yellow))
        } else {
            ("-"@, Some(CellColor::DarkGrey))
        },
        device_cell(d, Column::NodeKey, online) == if d.node_key.len() == 0 {
            ("-"@, Some(CellColor::DarkGrey))
        } else if utf8_len(d.node_key) <= 20 {
            (d.node_key, None::<CellColor>)
        } else {
            (d.node_key.take(chars_in_bytes(d.node_key, 20)) + "..."@, None::<CellColor>)
        },
        device_cell(d, Column::LockKey, online) == if d.tailnet_lock_key.len() == 0 {
            ("-"@, Some(CellColor::DarkGrey))
        } else if utf8_len(d.tailnet_lock_key) <= 20 {
            (d.tailnet_lock_key, None::<CellColor>)
        } else {
            (d.tailnet_lock_key.take(chars_in_bytes(d.tailnet_lock_key, 20)) + "..."@, None::<CellColor>)
        },
{
    reveal_strlit("-");
}

/// The devices table has one row per device, in order, and one cell per
/// chosen column, in order: the cell of that device in that column, with
/// the device's online status judged at the table's instant.
pub proof fn law_device_rows(ds: Seq<DeviceView>, cs: Seq<Column>, now: (i64, u32))
    ensures
        device_rows(ds, cs, now).len() == ds.len(),
        forall|i: int, j: int|
            0 <= i < ds.len() && 0 <= j < cs.len() ==> #[trigger] device_rows(ds, cs, now)[i][j]
                == device_cell(ds[i], cs[j], online_at(ds[i].last_seen, now)),
        forall|i: int| 0 <= i < ds.len() ==> (#[trigger] device_rows(ds, cs, now)[i]).len() == cs.len(),
{
}

/// `r` is the devices table of `ds` in columns `cs` at the instant `now`,
/// drawn for a terminal as `tty` and `width` describe it.
pub open spec fn draws_devices_table(
    r: Seq<char>,
    ds: Seq<DeviceView>,
    cs: Seq<Column>,
    now: (i64, u32),
    tty: bool,
    width: Option<u16>,
) -> bool {
    draws_table(r, Some(devices_header(cs)), device_rows(ds, cs, now), Borders::Condensed, tty, width)
}

/// `r` is the devices table of `ds` in columns `cs`, at some instant and
/// for some terminal.
pub open spec fn devices_table_drawn(r: Seq<char>, ds: Seq<DeviceView>, cs: Seq<Column>) -> bool {
    exists|now: (i64, u32), tty: bool, width: Option<u16>|
        #[trigger] draws_devices_table(r, ds, cs, now, tty, width)
}

/// The text of the devices table for the given columns (the default ones
/// when there are none). The devices' online status is judged against the
/// clock, once. When a key column holds a key that cannot be cut after 20
/// bytes, there is no table (`None`).
pub fn try_build_devices_table(devices: &[Device], columns: Option<&[String]>) -> (r: Option<String>)
    ensures
        r is Some <==> all_cells_fit(devices_view(devices@), shown_columns(columns)),
        r matches Some(s) ==> devices_table_drawn(s@, devices_view(devices@), shown_columns(columns)),
{
    let now = utc_now();
    match devices_table_layout(devices, columns, now) {
        Some(layout) => {
            let s = render_layout(&layout, Borders::Condensed);
            proof {
                let (tty, w): (bool, Option<u16>) = choose|tty: bool, w: Option<u16>|
                    draws_table(s@, header_view(layout.header), rows_view(layout.rows@), Borders::Condensed, tty, w);
                assert(draws_devices_table(s@, devices_view(devices@), shown_columns(columns), now, tty, w));
            }
            Some(s)
        },
        None => None,
    }
}

/// The text of the devices table for the given columns (the default ones
/// when there are none); every key shown must be one that can be cut after
/// 20 bytes.
pub fn build_devices_table(devices: &[Device], columns: Option<&[String]>) -> (r: String)
    requires
        all_cells_fit(devices_view(devices@), shown_columns(columns)),
    ensures
        devices_table_drawn(r@, devices_view(devices@), shown_columns(columns)),
{
    match try_build_devices_table(devices, columns) {
        Some(s) => s,
        None => String::new(),
    }
}

// ---------------------------------------------------------------------
// Devices with their lock keys
// ---------------------------------------------------------------------

/// The header of the lock-key table.
pub open spec fn lock_header() -> Seq<(Seq<char>, Option<CellColor>)> {
    seq![
        ("Hostname"@, Some(CellColor::Cyan)),
        ("Name"@, Some(CellColor::Cyan)),
        ("Status"@, Some(CellColor::Cyan)),
        ("Node Key"@, Some(CellColor::Cyan)),
        ("Tailnet Lock Key"@, Some(CellColor::Cyan)),
    ]
}

/// A full key, or a grey dash when there is none.
pub open spec fn key_cell(k: Seq<char>) -> (Seq<char>, Option<CellColor>) {
    if k.len() == 0 {
        grey_dash()
    } else {
        (k, None)
    }
}

/// The row of device `d` in the lock-key table.
pub open spec fn lock_row(d: DeviceView, now: (i64, u32)) -> Seq<(Seq<char>, Option<CellColor>)> {
    seq![
        (d.hostname, None),
        (d.name, None),
        status_cell(online_at(d.last_seen, now)),
        key_cell(d.node_key),
        key_cell(d.tailnet_lock_key),
    ]
}

fn key_cell_exec(k: &String) -> (r: StyledText)
    ensures
        (r.text@, r.color) == key_cell(k@),
{
    if k.as_str().is_empty() {
        text_cell("-", Some(CellColor::DarkGrey))
    } else {
        StyledText { text: k.clone(), color: None }
    }
}

fn status_cell_exec(online: bool) -> (r: StyledText)
    ensures
        (r.text@, r.color) == status_cell(online),
{
    if online {
        text_cell("● online", Some(CellColor::Green))
    } else {
        text_cell("○ offline", Some(CellColor::DarkGrey))
    }
}

fn header_of(titles: &[&str]) -> (r: Vec<StyledText>)
    ensures
        r@.len() == titles@.len(),
        forall|k: int|
            0 <= k < titles@.len() ==> (#[trigger] r@[k]).text@ == titles@[k]@ && r@[k].color == Some(
                CellColor::Cyan,
            ),
{
    let mut r: Vec<StyledText> = Vec::new();
    let mut i: usize = 0;
    while i < titles.len()
        invariant
            i <= titles@.len(),
            r@.len() == i,
            forall|k: int|
                0 <= k < i ==> (#[trigger] r@[k]).text@ == titles@[k]@ && r@[k].color == Some(
                    CellColor::Cyan,
                ),
        decreases titles@.len() - i,
    {
        r.push(text_cell(titles[i], Some(CellColor::Cyan)));
        i += 1;
    }
    r
}

/// Lays out the lock-key table at the instant `now`: hostname, name,
/// status, node key and tailnet lock key of each device, keys in full.
pub fn devices_lock_layout(devices: &[Device], now: (i64, u32)) -> (r: TableLayout)
    ensures
        header_view(r.header) == Some(lock_header()),
        rows_view(r.rows@) == lock_rows(devices_view(devices@), now),
{
    let ghost ds = devices_view(devices@);
    let titles = ["Hostname", "Name", "Status", "Node Key", "Tailnet Lock Key"];
    let header = header_of(&titles);
    assert(row_view(header@) =~= lock_header());
    let mut rows: Vec<Vec<StyledText>> = Vec::new();
    let mut i: usize = 0;
    while i < devices.len()
        invariant
            ds == devices_view(devices@),
            i <= devices@.len(),
            rows@.len() == i,
            forall|a: int| 0 <= a < i ==> row_view((#[trigger] rows@[a])@) == lock_row(ds[a], now),
        decreases devices@.len() - i,
    {
        let d = &devices[i];
        let online = d.is_online_at(now);
        let mut row: Vec<StyledText> = Vec::new();
        row.push(StyledText { text: d.hostname.clone(), color: None });
        row.push(StyledText { text: d.name.clone(), color: None });
        row.push(status_cell_exec(online));
        row.push(key_cell_exec(&d.node_key));
        row.push(key_cell_exec(&d.tailnet_lock_key));
        assert(row_view(row@) =~= lock_row(ds[i as int], now));
        rows.push(row);
        i += 1;
    }
    assert(rows_view(rows@) =~= lock_rows(ds, now));
    TableLayout { header: Some(header), rows }
}

/// The rows of the lock-key table of `ds` at the instant `now`.
pub open spec fn lock_rows(ds: Seq<DeviceView>, now: (i64, u32)) -> Seq<Seq<(Seq<char>, Option<CellColor>)>> {
    ds.map_values(|d: DeviceView| lock_row(d, now))
}

/// `r` is the lock-key table of `ds` at the instant `now`, drawn for a
/// terminal as `tty` and `width` describe it.
pub open spec fn draws_lock_table(r: Seq<char>, ds: Seq<DeviceView>, now: (i64, u32), tty: bool, width: Option<u16>) -> bool {
    draws_table(r, Some(lock_header()), lock_rows(ds, now), Borders::Condensed, tty, width)
}

/// The text of the table of devices with their lock keys; online status
/// is judged against the clock, once.
pub fn build_devices_with_lock_info(devices: &[Device]) -> (r: String)
    ensures
        exists|now: (i64, u32), tty: bool, width: Option<u16>|
            #[trigger] draws_lock_table(r@, devices_view(devices@), now, tty, width),
{
    let now = utc_now();
    let layout = devices_lock_layout(devices, now);
    let r = render_layout(&layout, Borders::Condensed);
    proof {
        let (tty, w): (bool, Option<u16>) = choose|tty: bool, w: Option<u16>|
            draws_table(r@, header_view(layout.header), rows_view(layout.rows@), Borders::Condensed, tty, w);
        assert(draws_lock_table(r@, devices_view(devices@), now, tty, w));
    }
    r
}

// ---------------------------------------------------------------------
// Users
// ---------------------------------------------------------------------

/// The header of the users table.
pub open spec fn users_header() -> Seq<(Seq<char>, Option<CellColor>)> {
    seq![
        ("Login Name"@, Some(CellColor::Cyan)),
        ("Display Name"@, Some(CellColor::Cyan)),
        ("Role"@, Some(CellColor::Cyan)),
        ("Status"@, Some(CellColor::Cyan)),
        ("Devices"@, Some(CellColor::Cyan)),
        ("Active"@, Some(CellColor::Cyan)),
    ]
}

/// The status cell of a user: green when active, red when suspended,
/// yellow otherwise, a grey dash when unknown.
pub open spec fn user_status_cell(status: Seq<char>) -> (Seq<char>, Option<CellColor>) {
    if status.len() == 0 {
        grey_dash()
    } else if status == "active"@ {
        (status, Some(CellColor::Green))
    } else if status == "suspended"@ {
        (status, Some(CellColor::Red))
    } else {
        (status, Some(CellColor::Yellow))
    }
}

/// The row of user `u` in the users table.
pub open spec fn user_row(u: UserView) -> Seq<(Seq<char>, Option<CellColor>)> {
    seq![
        (u.login_name, None),
        (if u.display_name.len() == 0 {
            "-"@
        } else {
            u.display_name
        }, Some(CellColor::DarkGrey)),
        (u.role, None),
        user_status_cell(u.status),
        (decimal_text(u.device_count as nat), None),
        if u.currently_active {
            ("● yes"@, Some(CellColor::Green))
        } else {
            ("○ no"@, Some(CellColor::DarkGrey))
        },
    ]
}

fn user_status_exec(status: &String) -> (r: StyledText)
    ensures
        (r.text@, r.color) == user_status_cell(status@),
{
    if status.as_str().is_empty() {
        text_cell("-", Some(CellColor::DarkGrey))
    } else if str_eq(status.as_str(), "active") {
        StyledText { text: status.clone(), color: Some(CellColor::Green) }
    } else if str_eq(status.as_str(), "suspended") {
        StyledText { text: status.clone(), color: Some(CellColor::Red) }
    } else {
        StyledText { text: status.clone(), color: Some(CellColor::Yellow) }
    }
}

/// Lays out the users table: login name, display name, role, status,
/// device count and whether the user is connected.
pub fn users_layout(users: &[User]) -> (r: TableLayout)
    ensures
        header_view(r.header) == Some(users_header()),
        rows_view(r.rows@) == user_rows(users_view(users@)),
{
    let ghost us = users_view(users@);
    let titles = ["Login Name", "Display Name", "Role", "Status", "Devices", "Active"];
    let header = header_of(&titles);
    assert(row_view(header@) =~= users_header());
    let mut rows: Vec<Vec<StyledText>> = Vec::new();
    let mut i: usize = 0;
    while i < users.len()
        invariant
            us == users_view(users@),
            i <= users@.len(),
            rows@.len() == i,
            forall|a: int| 0 <= a < i ==> row_view((#[trigger] rows@[a])@) == user_row(us[a]),
        decreases users@.len() - i,
    {
        let u = &users[i];
        let mut row: Vec<StyledText> = Vec::new();
        row.push(StyledText { text: u.login_name.clone(), color: None });
        if u.display_name.as_str().is_empty() {
            row.push(text_cell("-", Some(CellColor::DarkGrey)));
        } else {
            row.push(StyledText { text: u.display_name.clone(), color: Some(CellColor::DarkGrey) });
        }
        row.push(StyledText { text: u.role.clone(), color: None });
        row.push(user_status_exec(&u.status));
        row.push(StyledText { text: u32_to_text(u.device_count), color: None });
        if u.currently_active {
            row.push(text_cell("● yes", Some(CellColor::Green)));
        } else {
            row.push(text_cell("○ no", Some(CellColor::DarkGrey)));
        }
        assert(row_view(row@) =~= user_row(us[i as int]));
        rows.push(row);
        i += 1;
    }
    assert(rows_view(rows@) =~= user_rows(us));
    TableLayout { header: Some(header), rows }
}

/// The rows of the users table of `us`.
pub open spec fn user_rows(us: Seq<UserView>) -> Seq<Seq<(Seq<char>, Option<CellColor>)>> {
    us.map_values(|u: UserView| user_row(u))
}

/// `r` is the users table of `us`, drawn for a terminal as `tty` and
/// `width` describe it.
pub open spec fn draws_users_table(r: Seq<char>, us: Seq<UserView>, tty: bool, width: Option<u16>) -> bool {
    draws_table(r, Some(users_header()), user_rows(us), Borders::Condensed, tty, width)
}

/// The text of the users table.
pub fn build_users_table(users: &[User]) -> (r: String)
    ensures
        exists|tty: bool, width: Option<u16>| #[trigger] draws_users_table(r@, users_view(users@), tty, width),
{
    let layout = users_layout(users);
    let r = render_layout(&layout, Borders::Condensed);
    proof {
        let (tty, w): (bool, Option<u16>) = choose|tty: bool, w: Option<u16>|
            draws_table(r@, header_view(layout.header), rows_view(layout.rows@), Borders::Condensed, tty, w);
        assert(draws_users_table(r@, users_view(users@), tty, w));
    }
    r
}

// ---------------------------------------------------------------------
// Contacts
// ---------------------------------------------------------------------

/// The header of the contacts table.
pub open spec fn contacts_header() -> Seq<(Seq<char>, Option<CellColor>)> {
    seq![
        ("Type"@, Some(CellColor::Cyan)),
        ("Email"@, Some(CellColor::Cyan)),
        ("Fallback Email"@, Some(CellColor::Cyan)),
    ]
}

/// The row of a contact of the given kind.
pub open spec fn contact_row(kind: Seq<char>, email: Seq<char>, fallback: Seq<char>) -> Seq<
    (Seq<char>, Option<CellColor>),
> {
    seq![
        (kind, None),
        (email, None),
        (if fallback.len() == 0 {
            "-"@
        } else {
            fallback
        }, Some(CellColor::DarkGrey)),
    ]
}

fn contact_row_exec(kind: &str, c: &Contact) -> (r: Vec<StyledText>)
    ensures
        row_view(r@) == contact_row(kind@, c.email@, c.fallback_email@),
{
    let mut row: Vec<StyledText> = Vec::new();
    row.push(text_cell(kind, None));
    row.push(StyledText { text: c.email.clone(), color: None });
    if c.fallback_email.as_str().is_empty() {
        row.push(text_cell("-", Some(CellColor::DarkGrey)));
    } else {
        row.push(StyledText { text: c.fallback_email.clone(), color: Some(CellColor::DarkGrey) });
    }
    assert(row_view(row@) =~= contact_row(kind@, c.email@, c.fallback_email@));
    row
}

/// Lays out the contacts table: the account, support and security
/// contacts, each with its e-mail and fallback e-mail.
pub fn contacts_layout(contacts: &ContactsResponse) -> (r: TableLayout)
    ensures
        header_view(r.header) == Some(contacts_header()),
        rows_view(r.rows@) == seq![
            contact_row("Account"@, contacts.account.email@, contacts.account.fallback_email@),
            contact_row("Support"@, contacts.support.email@, contacts.support.fallback_email@),
            contact_row("Security"@, contacts.security.email@, contacts.security.fallback_email@),
        ],
{
    let titles = ["Type", "Email", "Fallback Email"];
    let header = header_of(&titles);
    assert(row_view(header@) =~= contacts_header());
    let mut rows: Vec<Vec<StyledText>> = Vec::new();
    rows.push(contact_row_exec("Account", &contacts.account));
    rows.push(contact_row_exec("Support", &contacts.support));
    rows.push(contact_row_exec("Security", &contacts.security));
    let ghost expected = seq![
        contact_row("Account"@, contacts.account.email@, contacts.account.fallback_email@),
        contact_row("Support"@, contacts.support.email@, contacts.support.fallback_email@),
        contact_row("Security"@, contacts.security.email@, contacts.security.fallback_email@),
    ];
    assert(rows_view(rows@) =~= expected);
    TableLayout { header: Some(header), rows }
}

/// The rows of the contacts table: the account, support and security
/// contacts.
pub open spec fn contact_rows(c: ContactsResponse) -> Seq<Seq<(Seq<char>, Option<CellColor>)>> {
    seq![
        contact_row("Account"@, c.account.email@, c.account.fallback_email@),
        contact_row("Support"@, c.support.email@, c.support.fallback_email@),
        contact_row("Security"@, c.security.email@, c.security.fallback_email@),
    ]
}

/// `r` is the contacts table of `c`, drawn for a terminal as `tty` and
/// `width` describe it.
pub open spec fn draws_contacts_table(r: Seq<char>, c: ContactsResponse, tty: bool, width: Option<u16>) -> bool {
    draws_table(r, Some(contacts_header()), contact_rows(c), Borders::Condensed, tty, width)
}

/// The text of the contacts table.
pub fn build_contacts_table(contacts: &ContactsResponse) -> (r: String)
    ensures
        exists|tty: bool, width: Option<u16>| #[trigger] draws_contacts_table(r@, *contacts, tty, width),
{
    let layout = contacts_layout(contacts);
    let r = render_layout(&layout, Borders::Condensed);
    proof {
        let (tty, w): (bool, Option<u16>) = choose|tty: bool, w: Option<u16>|
            draws_table(r@, header_view(layout.header), rows_view(layout.rows@), Borders::Condensed, tty, w);
        assert(rows_view(layout.rows@) == contact_rows(*contacts));
        assert(draws_contacts_table(r@, *contacts, tty, w));
    }
    r
}

// ---------------------------------------------------------------------
// The details of one device
// ---------------------------------------------------------------------

/// The lines of the device details.
pub enum InfoField {
    Name,
    Hostname,
    Owner,
    Os,
    Status,
    Locked,
    Tags,
    LastSeen,
    BlocksIncoming,
    NodeKey,
    LockKey,
    LockError,
}

/// The lines shown for device `d`: name, hostname, owner, OS and status
/// always; then the lock state if it is locked out, its tags if it has
/// any, when it was last seen if known, whether it blocks incoming
/// connections if it does, and its node key, tailnet lock key and lock
/// error where present.
pub open spec fn info_fields(d: DeviceView) -> Seq<InfoField> {
    let base = seq![
        InfoField::Name,
        InfoField::Hostname,
        InfoField::Owner,
        InfoField::Os,
        InfoField::Status,
    ];
    let a = if locked_out(d) {
        base.push(InfoField::Locked)
    } else {
        base
    };
    let b = if d.tags.len() > 0 {
        a.push(InfoField::Tags)
    } else {
        a
    };
    let c = if d.last_seen.len() > 0 {
        b.push(InfoField::LastSeen)
    } else {
        b
    };
    let e = if d.blocks_incoming_connections {
        c.push(InfoField::BlocksIncoming)
    } else {
        c
    };
    let f = if d.node_key.len() > 0 {
        e.push(InfoField::NodeKey)
    } else {
        e
    };
    let g = if d.tailnet_lock_key.len() > 0 {
        f.push(InfoField::LockKey)
    } else {
        f
    };
    if d.tailnet_lock_error.len() > 0 {
        g.push(InfoField::LockError)
    } else {
        g
    }
}

/// The label of a line of the device details.
pub open spec fn info_label(f: InfoField) -> Seq<char> {
    match f {
        InfoField::Name => "Name:"@,
        InfoField::Hostname => "Hostname:"@,
        InfoField::Owner => "Owner:"@,
        InfoField::Os => "OS:"@,
        InfoField::Status => "Status:"@,
        InfoField::Locked => "Locked:"@,
        InfoField::Tags => "Tags:"@,
        InfoField::LastSeen => "Last Seen:"@,
        InfoField::BlocksIncoming => "Blocks Incoming:"@,
        InfoField::NodeKey => "Node Key:"@,
        InfoField::LockKey => "Tailnet Lock Key:"@,
        InfoField::LockError => "Lock Error:"@,
    }
}

/// `cell` is a value that the line `f` of the details of `d` may show:
/// exact for plain values; for the status, the lock state and the tags,
/// text as the `colored` crate writes it.
pub open spec fn info_value_ok(f: InfoField, d: DeviceView, online: bool, cell: (Seq<char>, Option<CellColor>)) -> bool {
    match f {
        InfoField::Name => cell == (d.name, None::<CellColor>),
        InfoField::Hostname => cell == (d.hostname, None::<CellColor>),
        InfoField::Owner => cell == (owner_text(d), None::<CellColor>),
        InfoField::Os => cell == (d.os, None::<CellColor>),
        InfoField::Status => cell.1 is None && (if online {
            styled(cell.0, "● online"@, green_code())
        } else {
            cell.0 == "○ offline"@
        }),
        InfoField::Locked => cell.1 is None && styled(cell.0, "✗ yes"@, red_code()),
        InfoField::Tags => cell.1 is None && renders_tags(cell.0, d.tags),
        InfoField::LastSeen => cell == (d.last_seen, None::<CellColor>),
        InfoField::BlocksIncoming => cell == ("yes"@, Some(CellColor::Yellow)),
        InfoField::NodeKey => cell == (d.node_key, Some(CellColor::DarkGrey)),
        InfoField::LockKey => cell == (d.tailnet_lock_key, Some(CellColor::DarkGrey)),
        InfoField::LockError => cell == (d.tailnet_lock_error, Some(CellColor::Red)),
    }
}

/// The rows show the lines `fs` of the details of `d`: a cyan label, then
/// the value.
pub open spec fn info_rows_match(
    rows: Seq<Seq<(Seq<char>, Option<CellColor>)>>,
    fs: Seq<InfoField>,
    d: DeviceView,
    online: bool,
) -> bool {
    &&& rows.len() == fs.len()
    &&& forall|k: int|
        0 <= k < fs.len() ==> (#[trigger] rows[k]).len() == 2 && rows[k][0] == (
            info_label(fs[k]),
            Some(CellColor::Cyan),
        ) && info_value_ok(fs[k], d, online, rows[k][1])
}

/// `row` is a details line with label `label` and value `value`.
pub open spec fn detail_line(
    row: Seq<(Seq<char>, Option<CellColor>)>,
    label: Seq<char>,
    value: (Seq<char>, Option<CellColor>),
) -> bool {
    row.len() == 2 && row[0] == (label, Some(CellColor::Cyan)) && row[1] == value
}

/// The details of a device begin with its name, hostname, owner (its user,
/// or `-`), OS and status, each under a cyan label; they show the last-seen
/// time whenever the device has one, and likewise its node key and tailnet
/// lock key (in grey), its lock error (in red), a yellow "yes" when it
/// blocks incoming connections, and a "Locked:" line when it is locked out
/// (it has both a tailnet lock key and a tailnet lock error).
pub proof fn law_device_details(rows: Seq<Seq<(Seq<char>, Option<CellColor>)>>, d: DeviceView, online: bool)
    requires
        info_rows_match(rows, info_fields(d), d, online),
    ensures
        rows.len() >= 5,
        detail_line(rows[0], "Name:"@, (d.name, None)),
        detail_line(rows[1], "Hostname:"@, (d.hostname, None)),
        detail_line(rows[2], "Owner:"@, (if d.user.len() == 0 { "-"@ } else { d.user }, None)),
        detail_line(rows[3], "OS:"@, (d.os, None)),
        rows[4].len() == 2 && rows[4][0] == ("Status:"@, Some(CellColor::Cyan)),
        rows[4][1].1 is None,
        online ==> styled(rows[4][1].0, "● online"@, green_code()),
        !online ==> rows[4][1].0 == "○ offline"@,
        d.tags.len() > 0 ==> exists|k: int|
            5 <= k < rows.len() && (#[trigger] rows[k]).len() == 2 && rows[k][0] == (
                "Tags:"@,
                Some(CellColor::Cyan),
            ) && rows[k][1].1 is None && renders_tags(rows[k][1].0, d.tags),
        d.last_seen.len() > 0 ==> exists|k: int|
            5 <= k < rows.len() && detail_line(#[trigger] rows[k], "Last Seen:"@, (d.last_seen, None)),
        d.node_key.len() > 0 ==> exists|k: int|
            5 <= k < rows.len() && detail_line(
                #[trigger] rows[k],
                "Node Key:"@,
                (d.node_key, Some(CellColor::DarkGrey)),
            ),
        d.tailnet_lock_key.len() > 0 ==> exists|k: int|
            5 <= k < rows.len() && detail_line(
                #[trigger] rows[k],
                "Tailnet Lock Key:"@,
                (d.tailnet_lock_key, Some(CellColor::DarkGrey)),
            ),
        d.tailnet_lock_error.len() > 0 ==> exists|k: int|
            5 <= k < rows.len() && detail_line(
                #[trigger] rows[k],
                "Lock Error:"@,
                (d.tailnet_lock_error, Some(CellColor::Red)),
            ),
        d.blocks_incoming_connections ==> exists|k: int|
            5 <= k < rows.len() && detail_line(
                #[trigger] rows[k],
                "Blocks Incoming:"@,
                ("yes"@, Some(CellColor::Yellow)),
            ),
        d.tailnet_lock_key.len() > 0 && d.tailnet_lock_error.len() > 0 ==> exists|k: int|
            5 <= k < rows.len() && (#[trigger] rows[k]).len() == 2 && rows[k][0] == (
                "Locked:"@,
                Some(CellColor::Cyan),
            ),
{
    reveal_strlit("-");
    let f = info_fields(d);
    let n_locked: int = if locked_out(d) { 1 } else { 0 };
    let n_tags: int = if d.tags.len() > 0 { 1 } else { 0 };
    let n_seen: int = if d.last_seen.len() > 0 { 1 } else { 0 };
    let n_blocks: int = if d.blocks_incoming_connections { 1 } else { 0 };
    let n_node: int = if d.node_key.len() > 0 { 1 } else { 0 };
    let n_lock: int = if d.tailnet_lock_key.len() > 0 { 1 } else { 0 };
    let n_err: int = if d.tailnet_lock_error.len() > 0 { 1 } else { 0 };
    assert(f.len() == 5 + n_locked + n_tags + n_seen + n_blocks + n_node + n_lock + n_err);
    assert(f[0] == InfoField::Name && f[1] == InfoField::Hostname && f[2] == InfoField::Owner);
    assert(f[3] == InfoField::Os && f[4] == InfoField::Status);
    assert(rows[0].len() == 2 && rows[1].len() == 2 && rows[2].len() == 2 && rows[3].len() == 2 && rows[4].len() == 2);
    assert("-"@ =~= seq!['-']);
    assert(info_value_ok(f[2], d, online, rows[2][1]));
    assert(rows[2][1] == (owner_text(d), None::<CellColor>));
    if locked_out(d) {
        let k = 5;
        assert(f[k] == InfoField::Locked);
        assert(rows[k].len() == 2);
    }
    assert(info_value_ok(f[4], d, online, rows[4][1]));
    if d.tags.len() > 0 {
        let k = 5 + n_locked;
        assert(f[k] == InfoField::Tags);
        assert(info_value_ok(f[k], d, online, rows[k][1]));
    }
    if d.last_seen.len() > 0 {
        let k = 5 + n_locked + n_tags;
        assert(f[k] == InfoField::LastSeen);
        assert(detail_line(rows[k], "Last Seen:"@, (d.last_seen, None)));
    }
    if d.blocks_incoming_connections {
        let k = 5 + n_locked + n_tags + n_seen;
        assert(f[k] == InfoField::BlocksIncoming);
        assert(detail_line(rows[k], "Blocks Incoming:"@, ("yes"@, Some(CellColor::Yellow))));
    }
    if d.node_key.len() > 0 {
        let k = 5 + n_locked + n_tags + n_seen + n_blocks;
        assert(f[k] == InfoField::NodeKey);
        assert(detail_line(rows[k], "Node Key:"@, (d.node_key, Some(CellColor::DarkGrey))));
    }
    if d.tailnet_lock_key.len() > 0 {
        let k = 5 + n_locked + n_tags + n_seen + n_blocks + n_node;
        assert(f[k] == InfoField::LockKey);
        assert(detail_line(rows[k], "Tailnet Lock Key:"@, (d.tailnet_lock_key, Some(CellColor::DarkGrey))));
    }
    if d.tailnet_lock_error.len() > 0 {
        let k = 5 + n_locked + n_tags + n_seen + n_blocks + n_node + n_lock;
        assert(f[k] == InfoField::LockError);
        assert(detail_line(rows[k], "Lock Error:"@, (d.tailnet_lock_error, Some(CellColor::Red))));
    }
}

proof fn lemma_info_push(
    rows: Seq<Seq<(Seq<char>, Option<CellColor>)>>,
    fs: Seq<InfoField>,
    d: DeviceView,
    online: bool,
    row: Seq<(Seq<char>, Option<CellColor>)>,
    f: InfoField,
)
    requires
        info_rows_match(rows, fs, d, online),
        row.len() == 2,
        row[0] == (info_label(f), Some(CellColor::Cyan)),
        info_value_ok(f, d, online, row[1]),
    ensures
        info_rows_match(rows.push(row), fs.push(f), d, online),
{
    assert forall|k: int| 0 <= k < fs.push(f).len() implies (#[trigger] rows.push(row)[k]).len() == 2
        && rows.push(row)[k][0] == (info_label(fs.push(f)[k]), Some(CellColor::Cyan))
        && info_value_ok(fs.push(f)[k], d, online, rows.push(row)[k][1]) by {
        if k < fs.len() {
            assert(rows.push(row)[k] == rows[k]);
            assert(fs.push(f)[k] == fs[k]);
        }
    }
}

fn push_info(
    rows: &mut Vec<Vec<StyledText>>,
    Ghost(fs): Ghost<Seq<InfoField>>,
    d: &Device,
    online: bool,
    label: &str,
    value: StyledText,
    Ghost(f): Ghost<InfoField>,
)
    requires
        info_rows_match(rows_view(old(rows)@), fs, d@, online),
        label@ == info_label(f),
        info_value_ok(f, d@, online, (value.text@, value.color)),
    ensures
        info_rows_match(rows_view(final(rows)@), fs.push(f), d@, online),
{
    let ghost before = rows@;
    let mut row: Vec<StyledText> = Vec::new();
    row.push(text_cell(label, Some(CellColor::Cyan)));
    row.push(value);
    let ghost rv = row_view(row@);
    assert(rv =~= seq![(label@, Some(CellColor::Cyan)), (value.text@, value.color)]);
    proof {
        lemma_info_push(rows_view(before), fs, d@, online, rv, f);
    }
    rows.push(row);
    assert(rows_view(rows@) =~= rows_view(before).push(rv));
}

/// Lays out the details of a device (a borderless table without header),
/// `online` telling whether it is online.
pub fn device_info_layout(d: &Device, online: bool) -> (r: TableLayout)
    ensures
        r.header is None,
        info_rows_match(rows_view(r.rows@), info_fields(d@), d@, online),
{
    let mut rows: Vec<Vec<StyledText>> = Vec::new();
    let ghost mut fs: Seq<InfoField> = seq![];
    assert(rows_view(rows@) =~= Seq::<Seq<(Seq<char>, Option<CellColor>)>>::empty());
    push_info(&mut rows, Ghost(fs), d, online, "Name:", StyledText { text: d.name.clone(), color: None }, Ghost(InfoField::Name));
    proof { fs = fs.push(InfoField::Name); }
    push_info(&mut rows, Ghost(fs), d, online, "Hostname:", StyledText { text: d.hostname.clone(), color: None }, Ghost(InfoField::Hostname));
    proof { fs = fs.push(InfoField::Hostname); }
    push_info(&mut rows, Ghost(fs), d, online, "Owner:", text_cell(d.owner(), None), Ghost(InfoField::Owner));
    proof { fs = fs.push(InfoField::Owner); }
    push_info(&mut rows, Ghost(fs), d, online, "OS:", StyledText { text: d.os.clone(), color: None }, Ghost(InfoField::Os));
    proof { fs = fs.push(InfoField::Os); }
    let status = if online {
        green("● online")
    } else {
        String::from_str("○ offline")
    };
    push_info(&mut rows, Ghost(fs), d, online, "Status:", StyledText { text: status, color: None }, Ghost(InfoField::Status));
    proof { fs = fs.push(InfoField::Status); }
    if d.is_locked_out() {
        push_info(&mut rows, Ghost(fs), d, online, "Locked:", StyledText { text: red("✗ yes"), color: None }, Ghost(InfoField::Locked));
        proof { fs = fs.push(InfoField::Locked); }
    }
    if d.tags.len() > 0 {
        push_info(&mut rows, Ghost(fs), d, online, "Tags:", StyledText { text: format_tags(d.tags.as_slice()), color: None }, Ghost(InfoField::Tags));
        proof { fs = fs.push(InfoField::Tags); }
    }
    if !d.last_seen.as_str().is_empty() {
        push_info(&mut rows, Ghost(fs), d, online, "Last Seen:", StyledText { text: d.last_seen.clone(), color: None }, Ghost(InfoField::LastSeen));
        proof { fs = fs.push(InfoField::LastSeen); }
    }
    if d.blocks_incoming_connections {
        push_info(&mut rows, Ghost(fs), d, online, "Blocks Incoming:", text_cell("yes", Some(CellColor::Yellow)), Ghost(InfoField::BlocksIncoming));
        proof { fs = fs.push(InfoField::BlocksIncoming); }
    }
    if !d.node_key.as_str().is_empty() {
        push_info(&mut rows, Ghost(fs), d, online, "Node Key:", StyledText { text: d.node_key.clone(), color: Some(CellColor::DarkGrey) }, Ghost(InfoField::NodeKey));
        proof { fs = fs.push(InfoField::NodeKey); }
    }
    if !d.tailnet_lock_key.as_str().is_empty() {
        push_info(&mut rows, Ghost(fs), d, online, "Tailnet Lock Key:", StyledText { text: d.tailnet_lock_key.clone(), color: Some(CellColor::DarkGrey) }, Ghost(InfoField::LockKey));
        proof { fs = fs.push(InfoField::LockKey); }
    }
    if !d.tailnet_lock_error.as_str().is_empty() {
        push_info(&mut rows, Ghost(fs), d, online, "Lock Error:", StyledText { text: d.tailnet_lock_error.clone(), color: Some(CellColor::Red) }, Ghost(InfoField::LockError));
        proof { fs = fs.push(InfoField::LockError); }
    }
    assert(fs =~= info_fields(d@));
    TableLayout { header: None, rows }
}

/// `r` is the borderless table of the details of `d`, whose rows are
/// `rows`, at the instant `now`, drawn for a terminal as `tty` and `width`
/// describe it.
pub open spec fn draws_info_table(
    r: Seq<char>,
    d: DeviceView,
    now: (i64, u32),
    rows: Seq<Seq<(Seq<char>, Option<CellColor>)>>,
    tty: bool,
    width: Option<u16>,
) -> bool {
    &&& info_rows_match(rows, info_fields(d), d, online_at(d.last_seen, now))
    &&& draws_table(r, None, rows, Borders::Nothing, tty, width)
}

/// The text of the details of a device; its online status is judged
/// against the clock.
pub fn build_device_info_table(d: &Device) -> (r: String)
    ensures
        exists|now: (i64, u32), rows: Seq<Seq<(Seq<char>, Option<CellColor>)>>, tty: bool, width: Option<u16>|
            #[trigger] draws_info_table(r@, d@, now, rows, tty, width),
{
    let now = utc_now();
    let online = d.is_online_at(now);
    let layout = device_info_layout(d, online);
    let r = render_layout(&layout, Borders::Nothing);
    proof {
        let (tty, w): (bool, Option<u16>) = choose|tty: bool, w: Option<u16>|
            draws_table(r@, header_view(layout.header), rows_view(layout.rows@), Borders::Nothing, tty, w);
        assert(draws_info_table(r@, d@, now, rows_view(layout.rows@), tty, w));
    }
    r
}

} // verus!
