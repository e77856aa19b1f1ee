use tsa::api::{check_response, HttpMethod, RequestBody, TailscaleClient};
use tsa::commands::{
    filter_devices, narrow_devices, plan_listing, sign_arguments, signing_candidates, single_device,
    split_signable, DeviceFilter, Listing, Narrowed, SingleMatch, TagChange,
};
use tsa::jobs::{job_step, tag_job, DeviceJob, DeviceOp, JobAction, JobEvent, JobNotice, JobState, Work};
use tsa::user_jobs::{user_step, UserAction, UserEvent, UserJob, UserOp, UserState};
use tsa::layouts::{
    build_contacts_table, build_device_info_table, build_users_table, contacts_layout,
    device_info_layout, devices_lock_layout, devices_table_layout, try_build_devices_table,
    users_layout,
};
use tsa::matching::{find_devices_by_pattern, find_user_by_pattern, resolve_device_patterns, UserLookupError};
use tsa::models::{Contact, ContactsResponse, Device, User};
use tsa::pager::{fits_on_one_page, lines_per_page, page_at, pager_step, split_lines, PagerAction, PagerKey};
use tsa::selection::{
    parse_selection, resolve_or_select_devices, select_devices, DeviceChoice, Selection,
    SelectionWarning,
};
use tsa::table::CellColor;
use tsa::tags::{add_tags, format_tags, join_strings, normalize_tag, normalize_tags, remove_tags};
use tsa::text::u32_to_text;

fn dev(id: &str, name: &str, hostname: &str) -> Device {
    Device {
        id: id.to_string(),
        name: name.to_string(),
        hostname: hostname.to_string(),
        tags: vec![],
        os: "linux".to_string(),
        user: "test@example.com".to_string(),
        last_seen: String::new(),
        node_key: String::new(),
        tailnet_lock_error: String::new(),
        tailnet_lock_key: String::new(),
        blocks_incoming_connections: false,
    }
}

fn locked(id: &str, node_key: &str, lock_key: &str) -> Device {
    let mut d = dev(id, id, id);
    d.node_key = node_key.to_string();
    d.tailnet_lock_key = lock_key.to_string();
    d.tailnet_lock_error = "signature verification failed".to_string();
    d
}

fn user(id: &str, login: &str, display: &str) -> User {
    User {
        id: id.to_string(),
        login_name: login.to_string(),
        display_name: display.to_string(),
        profile_pic_url: String::new(),
        role: "member".to_string(),
        status: "active".to_string(),
        device_count: 3,
        last_seen: String::new(),
        currently_active: true,
    }
}

fn ids(ds: &[Device]) -> Vec<String> {
    ds.iter().map(|d| d.id.clone()).collect()
}

fn strings(v: &[&str]) -> Vec<String> {
    v.iter().map(|s| s.to_string()).collect()
}

// ---------------------------------------------------------------------
// API requests
// ---------------------------------------------------------------------

#[test]
fn api_requests_have_exact_urls() {
    let c = TailscaleClient::new("tskey-1".to_string(), "example.com".to_string());
    assert_eq!(c.api_key(), "tskey-1");
    assert_eq!(c.tailnet(), "example.com");

    let r = c.list_devices_request();
    assert_eq!(r.method, HttpMethod::Get);
    assert_eq!(r.url, "https://api.tailscale.com/api/v2/tailnet/example.com/devices?fields=all");
    assert_eq!(r.auth_user, "tskey-1");
    assert!(matches!(r.body, RequestBody::Empty));

    let r = c.list_users_request();
    assert_eq!(r.url, "https://api.tailscale.com/api/v2/tailnet/example.com/users");
    let r = c.get_contacts_request();
    assert_eq!(r.url, "https://api.tailscale.com/api/v2/tailnet/example.com/contacts");

    let r = c.delete_device_request("d1");
    assert_eq!(r.method, HttpMethod::Delete);
    assert_eq!(r.url, "https://api.tailscale.com/api/v2/device/d1");
    let r = c.get_device_request("d1");
    assert_eq!(r.method, HttpMethod::Get);
    assert_eq!(r.url, "https://api.tailscale.com/api/v2/device/d1?fields=all");

    let r = c.approve_user_request("u9");
    assert_eq!(r.method, HttpMethod::Post);
    assert_eq!(r.url, "https://api.tailscale.com/api/v2/tailnet/example.com/user/u9/approve");
    let r = c.suspend_user_request("u9");
    assert_eq!(r.url, "https://api.tailscale.com/api/v2/tailnet/example.com/user/u9/suspend");
    let r = c.restore_user_request("u9");
    assert_eq!(r.url, "https://api.tailscale.com/api/v2/tailnet/example.com/user/u9/restore");
    let r = c.delete_user_request("u9");
    assert_eq!(r.method, HttpMethod::Delete);
    assert_eq!(r.url, "https://api.tailscale.com/api/v2/tailnet/example.com/user/u9");
}

#[test]
fn api_requests_carry_their_bodies() {
    let c = TailscaleClient::new("k".to_string(), "-".to_string());
    let r = c.update_tags_request("d7", strings(&["tag:a", "tag:b"]));
    assert_eq!(r.method, HttpMethod::Post);
    assert_eq!(r.url, "https://api.tailscale.com/api/v2/device/d7/tags");
    match r.body {
        RequestBody::Tags(t) => assert_eq!(t.tags, strings(&["tag:a", "tag:b"])),
        _ => panic!("expected a tags body"),
    }
    let r = c.rename_device_request("d7", "web-01".to_string());
    assert_eq!(r.url, "https://api.tailscale.com/api/v2/device/d7/name");
    match r.body {
        RequestBody::Rename(n) => assert_eq!(n.name, "web-01"),
        _ => panic!("expected a rename body"),
    }
    let r = c.list_devices_request();
    assert_eq!(r.url, "https://api.tailscale.com/api/v2/tailnet/-/devices?fields=all");
}

#[test]
fn check_response_accepts_exactly_2xx() {
    assert!(check_response(200, "200 OK", "").is_ok());
    assert!(check_response(204, "204 No Content", "").is_ok());
    assert!(check_response(299, "299", "").is_ok());
    assert!(check_response(199, "199", "").is_err());
    assert!(check_response(300, "300", "").is_err());
    assert_eq!(
        check_response(404, "404 Not Found", "{\"message\":\"not found\"}"),
        Err("API request failed with status 404 Not Found: {\"message\":\"not found\"}".to_string())
    );
}

// ---------------------------------------------------------------------
// Device matching laws on concrete values
// ---------------------------------------------------------------------

#[test]
fn exact_match_takes_precedence_over_substring() {
    let devices = vec![dev("1", "web", "h1"), dev("2", "web-2", "h2"), dev("3", "Web", "h3")];
    assert_eq!(ids(&find_devices_by_pattern("web", &devices)), vec!["1"]);
    assert_eq!(ids(&find_devices_by_pattern("WEB", &devices)), vec!["1"]);
    assert_eq!(ids(&find_devices_by_pattern("eb-", &devices)), vec!["2"]);
    // An ID match beats a name match.
    let devices = vec![dev("a", "x", "h1"), dev("b", "a", "h2")];
    assert_eq!(ids(&find_devices_by_pattern("a", &devices)), vec!["a"]);
}

#[test]
fn substring_matches_keep_order_and_search_hostnames() {
    let devices = vec![dev("1", "alpha", "db-one"), dev("2", "beta", "x"), dev("3", "gamma", "DB-two")];
    assert_eq!(ids(&find_devices_by_pattern("db", &devices)), vec!["1", "3"]);
    assert!(find_devices_by_pattern("zzz", &devices).is_empty());
}

#[test]
fn resolved_devices_are_distinct_and_repeated_pattern_changes_nothing() {
    let devices = vec![dev("1", "web-1", "a"), dev("2", "web-2", "b"), dev("3", "db", "c")];
    let once = resolve_device_patterns(&strings(&["web", "db"]), &devices);
    let twice = resolve_device_patterns(&strings(&["web", "db", "web"]), &devices);
    assert_eq!(ids(&once), vec!["1", "2", "3"]);
    assert_eq!(ids(&once), ids(&twice));
    let overlapping = resolve_device_patterns(&strings(&["web-1", "web"]), &devices);
    assert_eq!(ids(&overlapping), vec!["1", "2"]);
    assert!(resolve_device_patterns(&[], &devices).is_empty());
}

// ---------------------------------------------------------------------
// Users
// ---------------------------------------------------------------------

#[test]
fn user_lookup_by_id_login_and_case() {
    let users = vec![
        user("u1", "alice@example.com", "Alice"),
        user("u2", "Bob@Example.com", "Bob"),
        user("u3", "carol@example.com", "Carol Alice"),
    ];
    assert_eq!(find_user_by_pattern("u2", &users).ok().unwrap().id, "u2");
    assert_eq!(find_user_by_pattern("alice@example.com", &users).ok().unwrap().id, "u1");
    assert_eq!(find_user_by_pattern("bob@example.com", &users).ok().unwrap().id, "u2");
    assert_eq!(find_user_by_pattern("carol", &users).ok().unwrap().id, "u3");
}

#[test]
fn user_lookup_errors() {
    let users = vec![
        user("u1", "alice@example.com", "Alice"),
        user("u3", "carol@example.com", "Carol Alice"),
    ];
    assert!(matches!(find_user_by_pattern("nobody", &users), Err(UserLookupError::NotFound)));
    match find_user_by_pattern("ALICE", &users) {
        Err(UserLookupError::Ambiguous(us)) => {
            assert_eq!(us.len(), 2);
            assert_eq!(us[0].id, "u1");
            assert_eq!(us[1].id, "u3");
        },
        _ => panic!("expected an ambiguous lookup"),
    }
}

// ---------------------------------------------------------------------
// Tags
// ---------------------------------------------------------------------

#[test]
fn tag_arithmetic() {
    let existing = strings(&["tag:a", "tag:b"]);
    assert_eq!(add_tags(&existing, &strings(&["tag:b", "tag:c", "tag:c"])), strings(&["tag:a", "tag:b", "tag:c"]));
    assert_eq!(remove_tags(&existing, &strings(&["tag:a", "tag:z"])), strings(&["tag:b"]));
    // Removing what was added restores tags that were free of it.
    let added = add_tags(&existing, &strings(&["tag:x"]));
    assert_eq!(remove_tags(&added, &strings(&["tag:x"])), existing);
    // Adding twice is adding once.
    assert_eq!(add_tags(&added, &strings(&["tag:x"])), added);
    assert_eq!(normalize_tags(&strings(&["a", "tag:b"])), strings(&["tag:a", "tag:b"]));
    assert_eq!(normalize_tag(&normalize_tag("x")), normalize_tag("x"));
    assert_eq!(normalize_tag(""), "tag:");
}

#[test]
fn format_tags_joins_with_comma() {
    let r = format_tags(&strings(&["tag:a", "tag:b"]));
    let plain: String = strip_ansi(&r);
    assert_eq!(plain, "tag:a, tag:b");
    assert_eq!(strip_ansi(&format_tags(&[])), "none");
    assert_eq!(join_strings(&strings(&["a", "b", "c"]), "/"), "a/b/c");
    assert_eq!(join_strings(&[], "/"), "");
}

fn strip_ansi(s: &str) -> String {
    let mut out = String::new();
    let mut chars = s.chars().peekable();
    while let Some(c) = chars.next() {
        if c == '\u{1b}' {
            for d in chars.by_ref() {
                if d == 'm' {
                    break;
                }
            }
        } else {
            out.push(c);
        }
    }
    out
}

// ---------------------------------------------------------------------
// Interactive selection
// ---------------------------------------------------------------------

#[test]
fn selection_numbers_and_ranges() {
    match parse_selection(" 1 3-5 ", 6) {
        Selection::Chosen(ix, ws) => {
            assert_eq!(ix, vec![0, 2, 3, 4]);
            assert!(ws.is_empty());
        },
        _ => panic!("expected a choice"),
    }
    match parse_selection("5 2 2-3", 6) {
        Selection::Chosen(ix, _) => assert_eq!(ix, vec![1, 2, 4]),
        _ => panic!("expected a choice"),
    }
    match parse_selection("+2", 3) {
        Selection::Chosen(ix, _) => assert_eq!(ix, vec![1]),
        _ => panic!("expected a choice"),
    }
}

#[test]
fn selection_keywords() {
    assert!(matches!(parse_selection("", 3), Selection::Nothing));
    assert!(matches!(parse_selection("  ", 3), Selection::Nothing));
    assert!(matches!(parse_selection("NONE", 3), Selection::Nothing));
    assert!(matches!(parse_selection("All", 3), Selection::Everything));
    assert!(matches!(parse_selection("*", 3), Selection::Everything));
}

#[test]
fn selection_warnings() {
    match parse_selection("0 1-2-3 9-1 1-x 3-1 abc 2", 4) {
        Selection::Chosen(ix, ws) => {
            assert_eq!(ix, vec![1]);
            assert_eq!(ws.len(), 6);
            assert!(matches!(&ws[0], SelectionWarning::InvalidSelection(s) if s == "0"));
            assert!(matches!(&ws[1], SelectionWarning::InvalidRangeFormat(s) if s == "1-2-3"));
            assert!(matches!(&ws[2], SelectionWarning::InvalidRangeStart(s) if s == "9"));
            assert!(matches!(&ws[3], SelectionWarning::InvalidRangeEnd(s) if s == "x"));
            assert!(matches!(&ws[4], SelectionWarning::RangeStartAfterEnd(3, 1)));
            assert!(matches!(&ws[5], SelectionWarning::InvalidSelection(s) if s == "abc"));
        },
        _ => panic!("expected a choice"),
    }
}

#[test]
fn selected_devices_lie_within_the_list() {
    let devices = vec![dev("1", "a", "a"), dev("2", "b", "b"), dev("3", "c", "c")];
    let s = parse_selection("3 1 7", devices.len());
    assert_eq!(ids(&select_devices(&devices, &s)), vec!["1", "3"]);
    let all = parse_selection("all", devices.len());
    assert_eq!(ids(&select_devices(&devices, &all)), vec!["1", "2", "3"]);
    let none = parse_selection("none", devices.len());
    assert!(select_devices(&devices, &none).is_empty());
}

#[test]
fn prompt_or_patterns() {
    let devices = vec![dev("1", "web", "a"), dev("2", "db", "b")];
    assert!(matches!(resolve_or_select_devices(&[], &devices), DeviceChoice::Prompt));
    assert!(matches!(resolve_or_select_devices(&strings(&["-"]), &devices), DeviceChoice::Prompt));
    assert!(matches!(resolve_or_select_devices(&strings(&[""]), &devices), DeviceChoice::Prompt));
    match resolve_or_select_devices(&strings(&["db"]), &devices) {
        DeviceChoice::Matched(v) => assert_eq!(ids(&v), vec!["2"]),
        _ => panic!("expected matched devices"),
    }
    match resolve_or_select_devices(&strings(&["-", "web"]), &devices) {
        DeviceChoice::Matched(v) => assert_eq!(ids(&v), vec!["1"]),
        _ => panic!("expected matched devices"),
    }
}

// ---------------------------------------------------------------------
// Pager
// ---------------------------------------------------------------------

#[test]
fn page_sizes() {
    assert_eq!(lines_per_page(150), 40);
    assert_eq!(lines_per_page(100), 95);
    assert_eq!(lines_per_page(30), 25);
    assert_eq!(lines_per_page(11), 6);
    assert_eq!(lines_per_page(10), 10);
    assert_eq!(lines_per_page(0), 0);
    assert!(fits_on_one_page(25, 25));
    assert!(!fits_on_one_page(26, 25));
}

#[test]
fn pager_walks_the_output_page_by_page() {
    let p = page_at(23, 10, 10);
    assert_eq!((p.start, p.end, p.at_end, p.remaining), (10, 20, false, 3));
    let p = page_at(23, 10, 20);
    assert_eq!((p.start, p.end, p.at_end, p.remaining), (20, 23, true, 0));
    assert!(matches!(pager_step(23, 10, 0, PagerKey::Advance), PagerAction::ShowFrom(10)));
    assert!(matches!(pager_step(23, 10, 10, PagerKey::Advance), PagerAction::ShowFrom(20)));
    assert!(matches!(pager_step(23, 10, 20, PagerKey::Advance), PagerAction::Exit));
    assert!(matches!(pager_step(23, 10, 10, PagerKey::Quit), PagerAction::Exit));
    assert!(matches!(pager_step(23, 10, 10, PagerKey::Other), PagerAction::ShowFrom(10)));
}

#[test]
fn output_is_split_like_str_lines() {
    assert_eq!(split_lines("a\r\nb\n\nc"), strings(&["a", "b", "", "c"]));
    assert_eq!(split_lines("x\n"), strings(&["x"]));
    assert!(split_lines("").is_empty());
    let text = "l1\nl2\r\nl3\n";
    let expected: Vec<String> = text.lines().map(|l| l.to_string()).collect();
    assert_eq!(split_lines(text), expected);
}

// ---------------------------------------------------------------------
// Device commands
// ---------------------------------------------------------------------

#[test]
fn filters_and_signing_split() {
    let mut open = dev("open", "open", "open");
    open.node_key = "nodekey:1".to_string();
    let devices = vec![
        locked("l1", "nodekey:a", "tlpub:a"),
        open,
        locked("l2", "", "tlpub:b"),
        locked("l3", "nodekey:c", "tlpub:c"),
    ];
    assert_eq!(ids(&filter_devices(&devices, DeviceFilter::LockedOut)), vec!["l1", "l2", "l3"]);
    assert_eq!(ids(&signing_candidates(&devices)), vec!["l1", "l3"]);
    let split = split_signable(&devices);
    assert_eq!(ids(&split.missing_keys), vec!["open", "l2"]);
    assert_eq!(ids(&split.signable), vec!["l1", "l3"]);
    assert_eq!(split.missing_keys.len() + split.signable.len(), devices.len());
    let candidates = signing_candidates(&devices);
    assert!(split_signable(&candidates).missing_keys.is_empty());
}

#[test]
fn narrowing_and_single_device() {
    let devices = vec![dev("1", "web-1", "a"), dev("2", "web-2", "b"), dev("3", "db", "c")];
    match narrow_devices(None, &devices) {
        Narrowed::Devices(v) => assert_eq!(ids(&v), vec!["1", "2", "3"]),
        Narrowed::NoMatch => panic!("expected devices"),
    }
    let pats = strings(&["db"]);
    match narrow_devices(Some(&pats), &devices) {
        Narrowed::Devices(v) => assert_eq!(ids(&v), vec!["3"]),
        Narrowed::NoMatch => panic!("expected devices"),
    }
    let none = strings(&["zzz"]);
    assert!(matches!(narrow_devices(Some(&none), &devices), Narrowed::NoMatch));

    assert!(matches!(single_device("zzz", &devices), SingleMatch::NotFound));
    match single_device("db", &devices) {
        SingleMatch::Unique(d) => assert_eq!(d.id, "3"),
        _ => panic!("expected one device"),
    }
    match single_device("web", &devices) {
        SingleMatch::Ambiguous(v) => assert_eq!(ids(&v), vec!["1", "2"]),
        _ => panic!("expected several devices"),
    }
    assert_eq!(sign_arguments("nodekey:1", "tlpub:2"), strings(&["lock", "sign", "nodekey:1", "tlpub:2"]));
}

// ---------------------------------------------------------------------
// Table layouts
// ---------------------------------------------------------------------

fn texts(row: &[tsa::table::StyledText]) -> Vec<String> {
    row.iter().map(|c| c.text.clone()).collect()
}

#[test]
fn devices_layout_default_and_chosen_columns() {
    let mut d = dev("123", "device1", "host1");
    d.tags = strings(&["tag:a", "tag:b"]);
    d.tailnet_lock_key = "tlpub:k".to_string();
    d.tailnet_lock_error = "bad".to_string();
    let devices = vec![d];
    let now = (1704067200i64, 0u32);
    let layout = devices_table_layout(&devices, None, now).unwrap();
    let header = layout.header.unwrap();
    assert_eq!(texts(&header), strings(&["Hostname", "Owner", "OS", "Status", "Locked", "Tags"]));
    assert!(header.iter().all(|c| c.color == Some(CellColor::Cyan)));
    let row = &layout.rows[0];
    assert_eq!(texts(row), strings(&["host1", "test@example.com", "linux", "● online", "✗ locked", "tag:a, tag:b"]));
    assert!(row[3].color == Some(CellColor::Green));
    assert!(row[4].color == Some(CellColor::Red));

    let cols = strings(&["ID", "bogus", "last_seen", "user", "blocks_incoming"]);
    let layout = devices_table_layout(&devices, Some(&cols), now).unwrap();
    assert_eq!(texts(&layout.header.unwrap()), strings(&["ID", "Last Seen", "Owner", "Blocks Incoming"]));
    assert_eq!(texts(&layout.rows[0]), strings(&["123", "-", "test@example.com", "-"]));
    assert!(layout.rows[0][1].color == Some(CellColor::DarkGrey));
}

#[test]
fn long_keys_are_cut_after_twenty_bytes() {
    let mut d = dev("1", "n", "h");
    d.node_key = "nodekey:0123456789abcdef".to_string();
    d.tailnet_lock_key = "short".to_string();
    let devices = vec![d];
    let cols = strings(&["node_key", "lock_key"]);
    let layout = devices_table_layout(&devices, Some(&cols), (0, 0)).unwrap();
    assert_eq!(texts(&layout.rows[0]), strings(&["nodekey:0123456789ab...", "short"]));

    // Byte 20 falls inside a two-byte character: the key cannot be cut.
    let mut e = dev("2", "n", "h");
    e.node_key = format!("{}é{}", "k".repeat(19), "tail");
    let devices = vec![e];
    assert!(devices_table_layout(&devices, Some(&cols), (0, 0)).is_none());
    assert!(try_build_devices_table(&devices, Some(&cols)).is_none());
    assert!(try_build_devices_table(&devices, None).is_some());
}

#[test]
fn lock_users_contacts_and_info_layouts() {
    let devices = vec![locked("l1", "nodekey:a", "")];
    let layout = devices_lock_layout(&devices, (0, 0));
    assert_eq!(texts(&layout.header.unwrap()), strings(&["Hostname", "Name", "Status", "Node Key", "Tailnet Lock Key"]));
    assert_eq!(texts(&layout.rows[0]), strings(&["l1", "l1", "● online", "nodekey:a", "-"]));

    let mut quiet = user("u2", "q@x", "");
    quiet.status = "suspended".to_string();
    quiet.currently_active = false;
    quiet.device_count = 12;
    let users = vec![user("u1", "a@x", "A"), quiet];
    let layout = users_layout(&users);
    assert_eq!(texts(&layout.rows[0]), strings(&["a@x", "A", "member", "active", "3", "● yes"]));
    assert_eq!(texts(&layout.rows[1]), strings(&["q@x", "-", "member", "suspended", "12", "○ no"]));
    assert!(layout.rows[1][3].color == Some(CellColor::Red));
    assert!(layout.rows[0][3].color == Some(CellColor::Green));
    assert!(build_users_table(&users).contains("suspended"));

    let contacts = ContactsResponse {
        account: Contact { email: "acc@x".to_string(), fallback_email: String::new() },
        support: Contact { email: "sup@x".to_string(), fallback_email: "fb@x".to_string() },
        security: Contact { email: "sec@x".to_string(), fallback_email: String::new() },
    };
    let layout = contacts_layout(&contacts);
    assert_eq!(texts(&layout.header.unwrap()), strings(&["Type", "Email", "Fallback Email"]));
    assert_eq!(texts(&layout.rows[0]), strings(&["Account", "acc@x", "-"]));
    assert_eq!(texts(&layout.rows[1]), strings(&["Support", "sup@x", "fb@x"]));
    assert_eq!(texts(&layout.rows[2]), strings(&["Security", "sec@x", "-"]));
    assert!(build_contacts_table(&contacts).contains("sec@x"));

    let mut d = locked("l9", "nodekey:z", "tlpub:z");
    d.blocks_incoming_connections = true;
    let layout = device_info_layout(&d, false);
    assert!(layout.header.is_none());
    let labels: Vec<String> = layout.rows.iter().map(|r| r[0].text.clone()).collect();
    assert_eq!(
        labels,
        strings(&[
            "Name:", "Hostname:", "Owner:", "OS:", "Status:", "Locked:", "Blocks Incoming:", "Node Key:",
            "Tailnet Lock Key:", "Lock Error:",
        ])
    );
    assert_eq!(layout.rows[4][1].text, "○ offline");
    assert!(build_device_info_table(&d).contains("tlpub:z"));
}

#[test]
fn decimal_text() {
    assert_eq!(u32_to_text(0), "0");
    assert_eq!(u32_to_text(42), "42");
    assert_eq!(u32_to_text(4294967295), "4294967295");
}

// ---------------------------------------------------------------------
// Listing and command flows
// ---------------------------------------------------------------------

#[test]
fn listing_plans() {
    let devices = vec![locked("l1", "nk", "lk"), dev("2", "web", "w")];
    let web = strings(&["web"]);
    let none = strings(&["zzz"]);
    assert!(matches!(plan_listing(Some(&none), &devices, false, false), Listing::NoMatch));
    assert!(matches!(plan_listing(Some(&none), &devices, true, true), Listing::NoMatch));
    match plan_listing(None, &devices, false, false) {
        Listing::DeviceTable(v) => assert_eq!(ids(&v), vec!["l1", "2"]),
        _ => panic!("expected the devices table"),
    }
    match plan_listing(None, &devices, true, false) {
        Listing::LockTable(v) => assert_eq!(ids(&v), vec!["l1"]),
        _ => panic!("expected the lock table"),
    }
    assert!(matches!(plan_listing(Some(&web), &devices, true, false), Listing::NoLocked));
    match plan_listing(Some(&web), &devices, true, true) {
        Listing::Json(v) => assert!(v.is_empty()),
        _ => panic!("expected JSON"),
    }
    match plan_listing(Some(&web), &devices, false, true) {
        Listing::Json(v) => assert_eq!(ids(&v), vec!["2"]),
        _ => panic!("expected JSON"),
    }
}

fn step(job: &DeviceJob, c: &TailscaleClient, s: JobState, e: JobEvent) -> (JobState, JobAction) {
    job_step(job, c, s, e)
}

#[test]
fn add_tags_job_asks_before_sending() {
    let c = TailscaleClient::new("key".to_string(), "-".to_string());
    let job = tag_job(TagChange::Add, &strings(&["prod"]), Some(strings(&["web"])), false);
    let mut a = dev("1", "web-1", "a");
    a.tags = strings(&["tag:x"]);
    let devices = vec![a, dev("2", "web-2", "b"), dev("3", "db", "c")];

    let (s, act) = step(&job, &c, JobState::Start, JobEvent::Begin);
    assert!(matches!(act, JobAction::FetchDevices));
    let (s, act) = step(&job, &c, s, JobEvent::Devices(devices));
    match &act {
        JobAction::Review(v, skipped) => {
            assert_eq!(ids(v), vec!["1", "2"]);
            assert!(skipped.is_empty());
        }
        _ => panic!("expected a review"),
    }
    let (s, act) = step(&job, &c, s, JobEvent::Shown);
    assert!(matches!(act, JobAction::AskConfirmation));
    let (s, act) = step(&job, &c, s, JobEvent::Answer(true));
    match act {
        JobAction::Perform(d, Work::Api(r)) => {
            assert_eq!(d.id, "1");
            assert_eq!(r.url, "https://api.tailscale.com/api/v2/device/1/tags");
            match r.body {
                tsa::api::RequestBody::Tags(t) => assert_eq!(t.tags, strings(&["tag:x", "tag:prod"])),
                _ => panic!("expected tags"),
            }
        }
        _ => panic!("expected work on the first device"),
    }
    let (s, act) = step(&job, &c, s, JobEvent::Performed);
    match act {
        JobAction::Perform(d, Work::Api(r)) => {
            assert_eq!(d.id, "2");
            match r.body {
                tsa::api::RequestBody::Tags(t) => assert_eq!(t.tags, strings(&["tag:prod"])),
                _ => panic!("expected tags"),
            }
        }
        _ => panic!("expected work on the second device"),
    }
    let (s, act) = step(&job, &c, s, JobEvent::Performed);
    assert!(matches!(act, JobAction::Done));
    assert!(matches!(s, JobState::Finished));
}

#[test]
fn refusing_aborts_and_skip_confirm_goes_straight_on() {
    let c = TailscaleClient::new("key".to_string(), "-".to_string());
    let devices = vec![dev("1", "web-1", "a")];
    let job = DeviceJob { op: DeviceOp::Delete, patterns: None, skip_confirm: false };
    let (s, _) = step(&job, &c, JobState::Start, JobEvent::Begin);
    let (s, act) = step(&job, &c, s, JobEvent::Devices(devices.clone()));
    assert!(matches!(act, JobAction::Prompt(ref v) if v.len() == 1));
    let (s, _) = step(&job, &c, s, JobEvent::Chosen(parse_selection("1", 1)));
    let (s, _) = step(&job, &c, s, JobEvent::Shown);
    let (s, act) = step(&job, &c, s, JobEvent::Answer(false));
    assert!(matches!(act, JobAction::Stop(JobNotice::Aborted)));
    let (_, act) = step(&job, &c, s, JobEvent::Performed);
    assert!(matches!(act, JobAction::Stop(JobNotice::OutOfOrder)));

    let job = DeviceJob { op: DeviceOp::Delete, patterns: None, skip_confirm: true };
    let (s, _) = step(&job, &c, JobState::Selecting(devices.clone()), JobEvent::Chosen(Selection::Everything));
    let (_, act) = step(&job, &c, s, JobEvent::Shown);
    match act {
        JobAction::Perform(d, Work::Api(r)) => {
            assert_eq!(d.id, "1");
            assert_eq!(r.method, HttpMethod::Delete);
            assert_eq!(r.url, "https://api.tailscale.com/api/v2/device/1");
        }
        _ => panic!("expected the deletion"),
    }
    let (_, act) = step(&job, &c, JobState::Selecting(devices.clone()), JobEvent::Chosen(Selection::Nothing));
    assert!(matches!(act, JobAction::Stop(JobNotice::NoDevicesSelected)));
    // An answer that points outside the offered list is refused.
    let beyond = Selection::Chosen(vec![3], vec![]);
    let (_, act) = step(&job, &c, JobState::Selecting(devices.clone()), JobEvent::Chosen(beyond));
    assert!(matches!(act, JobAction::Stop(JobNotice::OutOfOrder)));
    let pats = Some(strings(&["zzz"]));
    let job = DeviceJob { op: DeviceOp::Delete, patterns: pats, skip_confirm: true };
    let (_, act) = step(&job, &c, JobState::Fetching, JobEvent::Devices(devices));
    assert!(matches!(act, JobAction::Stop(JobNotice::NoDevicesMatched)));
}

#[test]
fn sign_job_signs_only_devices_with_keys() {
    let c = TailscaleClient::new("key".to_string(), "-".to_string());
    let devices = vec![locked("l1", "nodekey:a", "tlpub:a"), locked("l2", "", "tlpub:b"), dev("3", "x", "y")];
    let job = DeviceJob { op: DeviceOp::Sign, patterns: None, skip_confirm: true };
    let (s, act) = step(&job, &c, JobState::Fetching, JobEvent::Devices(devices.clone()));
    match &act {
        JobAction::Prompt(v) => assert_eq!(ids(v), vec!["l1"]),
        _ => panic!("expected the prompt over signable devices"),
    }
    // The answer designates devices among those offered: only "l1" here.
    let (s, act) = step(&job, &c, s, JobEvent::Chosen(parse_selection("all", 1)));
    match &act {
        JobAction::Review(v, skipped) => {
            assert_eq!(ids(v), vec!["l1"]);
            assert!(skipped.is_empty());
        }
        _ => panic!("expected a review"),
    }
    let (s, act) = step(&job, &c, s, JobEvent::Shown);
    match act {
        JobAction::Perform(d, Work::Tailscale(args)) => {
            assert_eq!(d.id, "l1");
            assert_eq!(args, strings(&["lock", "sign", "nodekey:a", "tlpub:a"]));
        }
        _ => panic!("expected signing"),
    }
    let (_, act) = step(&job, &c, s, JobEvent::Performed);
    assert!(matches!(act, JobAction::Done));

    let offered = vec![locked("l2", "", "tlpub:b")];
    let (s, act) = step(&job, &c, JobState::Selecting(offered), JobEvent::Chosen(Selection::Everything));
    assert!(matches!(act, JobAction::Review(_, ref skipped) if skipped.len() == 1));
    let (_, act) = step(&job, &c, s, JobEvent::Shown);
    assert!(matches!(act, JobAction::Stop(JobNotice::NothingSignable)));

    let none = vec![dev("3", "x", "y")];
    let (_, act) = step(&job, &c, JobState::Fetching, JobEvent::Devices(none));
    assert!(matches!(act, JobAction::Stop(JobNotice::NoLockKeys)));
    let job = DeviceJob { op: DeviceOp::Sign, patterns: Some(strings(&["zzz"])), skip_confirm: true };
    let (_, act) = step(&job, &c, JobState::Fetching, JobEvent::Devices(devices));
    match act {
        JobAction::Stop(JobNotice::NoLockedMatch(v)) => assert_eq!(ids(&v), vec!["l1"]),
        _ => panic!("expected no locked match"),
    }
}

#[test]
fn rename_job_needs_one_device() {
    let c = TailscaleClient::new("key".to_string(), "-".to_string());
    let devices = vec![dev("1", "web-1", "a"), dev("2", "web-2", "b")];
    let rename = |p: &str| DeviceJob {
        op: DeviceOp::Rename { pattern: p.to_string(), new_name: "new".to_string() },
        patterns: None,
        skip_confirm: false,
    };
    let (_, act) = step(&rename("zzz"), &c, JobState::Fetching, JobEvent::Devices(devices.clone()));
    assert!(matches!(act, JobAction::Stop(JobNotice::NoDeviceFound)));
    let (_, act) = step(&rename("web"), &c, JobState::Fetching, JobEvent::Devices(devices.clone()));
    assert!(matches!(act, JobAction::Stop(JobNotice::SeveralDevices(ref v)) if v.len() == 2));
    let job = rename("web-2");
    let (s, _) = step(&job, &c, JobState::Fetching, JobEvent::Devices(devices));
    let (s, _) = step(&job, &c, s, JobEvent::Shown);
    let (_, act) = step(&job, &c, s, JobEvent::Answer(true));
    match act {
        JobAction::Perform(d, Work::Api(r)) => {
            assert_eq!(d.id, "2");
            assert_eq!(r.url, "https://api.tailscale.com/api/v2/device/2/name");
            assert!(matches!(r.body, tsa::api::RequestBody::Rename(ref n) if n.name == "new"));
        }
        _ => panic!("expected the rename"),
    }
}

#[test]
fn tag_jobs_prompt_without_patterns() {
    let c = TailscaleClient::new("key".to_string(), "-".to_string());
    let devices = vec![dev("1", "web-1", "a")];
    let job = tag_job(TagChange::Replace, &strings(&["a", "tag:b"]), None, false);
    match &job.op {
        DeviceOp::SetTags(t) => assert_eq!(t, &strings(&["tag:a", "tag:b"])),
        _ => panic!("expected set tags"),
    }
    let (_, act) = step(&job, &c, JobState::Fetching, JobEvent::Devices(devices.clone()));
    assert!(matches!(act, JobAction::Prompt(ref v) if v.len() == 1));
    let job = tag_job(TagChange::Remove, &strings(&["b"]), Some(strings(&["-"])), false);
    let (_, act) = step(&job, &c, JobState::Fetching, JobEvent::Devices(devices.clone()));
    assert!(matches!(act, JobAction::Prompt(_)));
    let job = tag_job(TagChange::Remove, &strings(&["b"]), Some(strings(&["zzz"])), false);
    let (_, act) = step(&job, &c, JobState::Fetching, JobEvent::Devices(devices));
    assert!(matches!(act, JobAction::Stop(JobNotice::NoDevicesSelected)));
}

#[test]
fn user_jobs() {
    let c = TailscaleClient::new("key".to_string(), "corp".to_string());
    let users = vec![user("u1", "alice@example.com", "Alice"), user("u2", "bob@example.com", "Bob")];
    let job = UserJob { op: UserOp::Suspend, pattern: "bob".to_string(), skip_confirm: false };
    let (s, act) = user_step(&job, &c, UserState::Start, UserEvent::Begin);
    assert!(matches!(act, UserAction::FetchUsers));
    let (s, act) = user_step(&job, &c, s, UserEvent::Users(users.clone()));
    assert!(matches!(act, UserAction::Review(ref u) if u.id == "u2"));
    let (s, act) = user_step(&job, &c, s, UserEvent::Shown);
    assert!(matches!(act, UserAction::AskConfirmation));
    let (s, act) = user_step(&job, &c, s, UserEvent::Answer(true));
    match act {
        UserAction::Send(u, r) => {
            assert_eq!(u.id, "u2");
            assert_eq!(r.method, HttpMethod::Post);
            assert_eq!(r.url, "https://api.tailscale.com/api/v2/tailnet/corp/user/u2/suspend");
        }
        _ => panic!("expected the request"),
    }
    let (_, act) = user_step(&job, &c, s, UserEvent::Sent);
    assert!(matches!(act, UserAction::Done));

    let (s, _) = user_step(&job, &c, UserState::Fetching, UserEvent::Users(users.clone()));
    let (s, _) = user_step(&job, &c, s, UserEvent::Shown);
    let (_, act) = user_step(&job, &c, s, UserEvent::Answer(false));
    assert!(matches!(act, UserAction::Aborted));

    let job = UserJob { op: UserOp::Delete, pattern: "u1".to_string(), skip_confirm: true };
    let (s, _) = user_step(&job, &c, UserState::Fetching, UserEvent::Users(users.clone()));
    let (_, act) = user_step(&job, &c, s, UserEvent::Shown);
    match act {
        UserAction::Send(_, r) => {
            assert_eq!(r.method, HttpMethod::Delete);
            assert_eq!(r.url, "https://api.tailscale.com/api/v2/tailnet/corp/user/u1");
        }
        _ => panic!("expected the request"),
    }
    let job = UserJob { op: UserOp::Approve, pattern: "example".to_string(), skip_confirm: true };
    let (_, act) = user_step(&job, &c, UserState::Fetching, UserEvent::Users(users.clone()));
    assert!(matches!(act, UserAction::Fail(UserLookupError::Ambiguous(_))));
    let job = UserJob { op: UserOp::Restore, pattern: "nobody".to_string(), skip_confirm: true };
    let (_, act) = user_step(&job, &c, UserState::Fetching, UserEvent::Users(users));
    assert!(matches!(act, UserAction::Fail(UserLookupError::NotFound)));
}
