use dockerhosts::hosts::render_hosts;
use dockerhosts::names::{normalize_suffix, strip_leading, strip_separator};
use dockerhosts::snapshot::{build_snapshot, needs_inspect, position_of, ContainerListing, HostEntry};
use dockerhosts::trigger::{is_rebuild_trigger, EventKind};

fn listed(id: &str, names: &[&str]) -> ContainerListing {
    ContainerListing {
        id: Some(id.to_string()),
        names: Some(names.iter().map(|n| n.to_string()).collect()),
    }
}

fn addr(a: &str) -> Option<String> {
    Some(a.to_string())
}

fn file_for(listing: &Vec<ContainerListing>, addresses: &Vec<Option<String>>, suffix_arg: &str) -> String {
    let suffix = normalize_suffix(suffix_arg);
    render_hosts(&build_snapshot(listing, addresses), &suffix)
}

fn sorted_lines(text: &str) -> Vec<String> {
    let mut lines: Vec<String> = text.lines().map(|l| l.to_string()).collect();
    lines.sort();
    lines
}

#[test]
fn single_container_is_written() {
    let listing = vec![listed("c1", &["/web"])];
    let addresses = vec![addr("172.17.0.2")];
    assert_eq!(file_for(&listing, &addresses, "svc.local"), "172.17.0.2 web.svc.local\n");
}

#[test]
fn two_names_excluded_and_file_empty() {
    let listing = vec![listed("c2", &["/db", "/database"])];
    assert!(!needs_inspect(&listing[0]));
    let addresses = vec![None];
    let text = file_for(&listing, &addresses, "svc.local");
    assert_eq!(text, "");
    assert_eq!(text.lines().count(), 0);
}

#[test]
fn failed_inspect_excludes_only_that_container() {
    let listing = vec![
        listed("c1", &["/web"]),
        listed("c3", &["/cache"]),
        listed("c4", &["/api"]),
    ];
    let addresses = vec![addr("172.17.0.2"), None, addr("172.17.0.4")];
    let entries = build_snapshot(&listing, &addresses);
    assert_eq!(entries.len(), 2);
    assert_eq!(
        sorted_lines(&render_hosts(&entries, "local")),
        vec!["172.17.0.2 web.local".to_string(), "172.17.0.4 api.local".to_string()]
    );
}

#[test]
fn zero_names_missing_names_and_missing_id_excluded() {
    let listing = vec![
        listed("c1", &[]),
        ContainerListing { id: Some("c2".to_string()), names: None },
        ContainerListing { id: None, names: Some(vec!["/ghost".to_string()]) },
        listed("c4", &["/ok"]),
    ];
    assert!(!needs_inspect(&listing[0]));
    assert!(!needs_inspect(&listing[1]));
    assert!(!needs_inspect(&listing[2]));
    assert!(needs_inspect(&listing[3]));
    let addresses = vec![addr("10.0.0.1"), addr("10.0.0.2"), addr("10.0.0.3"), addr("10.0.0.4")];
    assert_eq!(file_for(&listing, &addresses, "local"), "10.0.0.4 ok.local\n");
}

#[test]
fn empty_address_excluded() {
    let listing = vec![listed("c1", &["/web"]), listed("c2", &["/db"])];
    let addresses = vec![addr(""), addr("172.17.0.3")];
    assert_eq!(file_for(&listing, &addresses, "local"), "172.17.0.3 db.local\n");
}

#[test]
fn missing_lookup_position_counts_as_no_address() {
    let listing = vec![listed("c1", &["/web"]), listed("c2", &["/db"])];
    let addresses = vec![addr("172.17.0.2")];
    assert_eq!(file_for(&listing, &addresses, "local"), "172.17.0.2 web.local\n");
}

#[test]
fn empty_listing_gives_empty_file() {
    let listing: Vec<ContainerListing> = Vec::new();
    let addresses: Vec<Option<String>> = Vec::new();
    assert!(build_snapshot(&listing, &addresses).is_empty());
    assert_eq!(file_for(&listing, &addresses, ".local"), "");
}

#[test]
fn later_entry_for_same_id_wins() {
    let listing = vec![listed("c1", &["/old"]), listed("c1", &["/new"])];
    let addresses = vec![addr("10.0.0.1"), addr("10.0.0.2")];
    let entries = build_snapshot(&listing, &addresses);
    assert_eq!(entries.len(), 1);
    assert_eq!(entries[0].name, "new");
    assert_eq!(entries[0].address, "10.0.0.2");
    assert_eq!(render_hosts(&entries, "local"), "10.0.0.2 new.local\n");
}

#[test]
fn name_separator_stripped_once() {
    assert_eq!(strip_separator("/web"), "web");
    assert_eq!(strip_separator("web"), "web");
    assert_eq!(strip_separator("//web"), "/web");
    assert_eq!(strip_separator(""), "");
    assert_eq!(strip_separator("/"), "");
}

#[test]
fn suffix_dot_stripped_once() {
    assert_eq!(normalize_suffix(".local"), "local");
    assert_eq!(normalize_suffix("local"), "local");
    assert_eq!(normalize_suffix("..local"), ".local");
    assert_eq!(normalize_suffix(""), "");
    assert_eq!(strip_leading("xyz", 'x'), "yz");
    assert_eq!(strip_leading("xyz", 'y'), "xyz");
}

#[test]
fn dotted_and_plain_suffix_give_same_file() {
    let listing = vec![listed("c1", &["/web"])];
    let addresses = vec![addr("172.17.0.2")];
    let dotted = file_for(&listing, &addresses, ".local");
    let plain = file_for(&listing, &addresses, "local");
    assert_eq!(dotted, plain);
    assert!(dotted.ends_with(".local\n"));
}

#[test]
fn repeated_rebuild_gives_same_content() {
    let listing = vec![listed("a", &["/one"]), listed("b", &["/two"]), listed("c", &["/three", "/3"])];
    let addresses = vec![addr("10.0.0.1"), addr("10.0.0.2"), None];
    let first = file_for(&listing, &addresses, "svc");
    let second = file_for(&listing, &addresses, "svc");
    assert_eq!(sorted_lines(&first), sorted_lines(&second));
    assert_eq!(first, second);
}

#[test]
fn removed_container_leaves_no_stale_line() {
    let before = vec![listed("a", &["/one"]), listed("b", &["/two"])];
    let first = file_for(&before, &vec![addr("10.0.0.1"), addr("10.0.0.2")], "svc");
    assert_eq!(sorted_lines(&first).len(), 2);
    let after = vec![listed("b", &["/two"])];
    let second = file_for(&after, &vec![addr("10.0.0.2")], "svc");
    assert_eq!(second, "10.0.0.2 two.svc\n");
    assert!(!second.contains("one.svc"));
}

#[test]
fn position_of_finds_identifier() {
    let entries = vec![
        HostEntry { id: "x".to_string(), name: "n".to_string(), address: "1".to_string() },
        HostEntry { id: "y".to_string(), name: "m".to_string(), address: "2".to_string() },
    ];
    assert_eq!(position_of(&entries, &"y".to_string()), Some(1));
    assert_eq!(position_of(&entries, &"z".to_string()), None);
}

#[test]
fn line_format_is_address_name_suffix() {
    let entries = vec![
        HostEntry { id: "a".to_string(), name: "web".to_string(), address: "fd00::2".to_string() },
        HostEntry { id: "b".to_string(), name: "db".to_string(), address: "172.17.0.3".to_string() },
    ];
    assert_eq!(render_hosts(&entries, "dev.test"), "fd00::2 web.dev.test\n172.17.0.3 db.dev.test\n");
}

#[test]
fn container_start_and_die_trigger_rebuild() {
    assert!(is_rebuild_trigger(&Some(EventKind::Container), &Some("start".to_string())));
    assert!(is_rebuild_trigger(&Some(EventKind::Container), &Some("die".to_string())));
}

#[test]
fn other_events_do_not_trigger_rebuild() {
    assert!(!is_rebuild_trigger(&Some(EventKind::Container), &Some("stop".to_string())));
    assert!(!is_rebuild_trigger(&Some(EventKind::Container), &Some("starts".to_string())));
    assert!(!is_rebuild_trigger(&Some(EventKind::Container), &None));
    assert!(!is_rebuild_trigger(&Some(EventKind::Other), &Some("start".to_string())));
    assert!(!is_rebuild_trigger(&None, &Some("die".to_string())));
}
