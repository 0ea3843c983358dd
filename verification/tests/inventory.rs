use ports_info::acquire::{next_tier, start_tier, tier_format, tier_privileged, AcquisitionError, Tier};
use ports_info::parser::SourceFormat;
use ports_info::resolver::Inventory;

const SS_TEXT: &str = "Netid State Recv-Q Send-Q Local Address:Port Peer Address:Port\n\
tcp LISTEN 0 128 0.0.0.0:22 *:*\n\
udp UNCONN 0 0 127.0.0.53:53 0.0.0.0:*\n";

#[test]
fn fallback_order_is_fixed() {
    assert_eq!(start_tier(true), Tier::Privileged);
    assert_eq!(start_tier(false), Tier::SocketStats);
    assert_eq!(next_tier(Tier::Privileged), Some(Tier::SocketStats));
    assert_eq!(next_tier(Tier::SocketStats), Some(Tier::Legacy));
    assert_eq!(next_tier(Tier::Legacy), None);
}

#[test]
fn tier_shapes_and_privileges() {
    assert_eq!(tier_format(Tier::Privileged), SourceFormat::PrivilegedPortList);
    assert_eq!(tier_format(Tier::SocketStats), SourceFormat::SocketStats);
    assert_eq!(tier_format(Tier::Legacy), SourceFormat::LegacyPortList);
    assert!(tier_privileged(Tier::Privileged));
    assert!(!tier_privileged(Tier::SocketStats));
    assert!(!tier_privileged(Tier::Legacy));
}

#[test]
fn new_inventory_is_empty_and_unprivileged() {
    let inv = Inventory::new();
    assert_eq!(inv.records.len(), 0);
    assert!(!inv.is_root);
}

#[test]
fn refresh_replays_last_successful_tier() {
    let mut inv = Inventory::new();
    assert_eq!(inv.refresh_start_tier(), Tier::SocketStats);
    inv.is_root = true;
    assert_eq!(inv.refresh_start_tier(), Tier::Privileged);
}

#[test]
fn second_tier_success_yields_unprivileged_records() {
    let mut inv = Inventory::new();
    let r = inv.refresh_with(Some((Tier::SocketStats, SS_TEXT)));
    assert!(r.is_ok());
    assert!(!inv.is_root);
    assert_eq!(inv.records.len(), 2);
    for rec in &inv.records {
        assert_eq!(rec.pid, None);
        assert_eq!(rec.process_name, "Unknown (no privileges)");
    }
}

#[test]
fn total_failure_keeps_inventory_untouched() {
    let mut inv = Inventory::new();
    inv.refresh_with(Some((Tier::SocketStats, SS_TEXT))).unwrap();
    let before = inv.records.clone();
    let was_root = inv.is_root;
    let r = inv.refresh_with(None);
    assert_eq!(r, Err(AcquisitionError::AcquisitionFailed));
    assert_eq!(inv.records, before);
    assert_eq!(inv.is_root, was_root);
}

#[test]
fn failure_on_empty_inventory_stays_empty() {
    let mut inv = Inventory::new();
    let r = inv.refresh_with(None);
    assert_eq!(r, Err(AcquisitionError::AcquisitionFailed));
    assert_eq!(inv.records.len(), 0);
}

#[test]
fn privileged_success_sets_root_flag() {
    let mut inv = Inventory::new();
    let text = "h1\nh2\ntcp 0 0 0.0.0.0:22 0.0.0.0:* LISTEN 41/sshd\n";
    inv.refresh_with(Some((Tier::Privileged, text))).unwrap();
    assert!(inv.is_root);
    assert_eq!(inv.records.len(), 1);
    assert_eq!(inv.records[0].pid, Some(41));
    assert_eq!(inv.records[0].process_name, "sshd");
}

#[test]
fn success_replaces_previous_inventory_wholesale() {
    let mut inv = Inventory::new();
    inv.refresh_with(Some((Tier::SocketStats, SS_TEXT))).unwrap();
    assert_eq!(inv.records.len(), 2);
    let one_line = "header\ntcp LISTEN 0 128 10.1.1.1:8080 *:*\n";
    inv.refresh_with(Some((Tier::SocketStats, one_line))).unwrap();
    assert_eq!(inv.records.len(), 1);
    assert_eq!(inv.records[0].port, "8080");
}

#[test]
fn empty_but_successful_output_is_a_valid_empty_inventory() {
    let mut inv = Inventory::new();
    inv.refresh_with(Some((Tier::SocketStats, SS_TEXT))).unwrap();
    let r = inv.refresh_with(Some((Tier::Privileged, "h1\nh2\n")));
    assert!(r.is_ok());
    assert!(inv.is_root);
    assert_eq!(inv.records.len(), 0);
}

#[test]
fn confirmation_covers_each_record_without_changing_it() {
    let mut inv = Inventory::new();
    inv.refresh_with(Some((Tier::SocketStats, SS_TEXT))).unwrap();
    let before = inv.records.clone();
    let details = inv.confirm_processes();
    assert_eq!(details.len(), inv.records.len());
    // Unprivileged records carry no PID, so no process can resolve for them.
    for d in &details {
        assert!(d.is_none());
    }
    assert_eq!(inv.records, before);
}

#[test]
fn confirmation_resolves_a_live_process() {
    let pid = sysinfo::get_current_pid().expect("current pid").as_u32();
    let text = format!("h1\nh2\ntcp 0 0 127.0.0.1:9999 0.0.0.0:* LISTEN {}/me\n", pid);
    let mut inv = Inventory::new();
    inv.refresh_with(Some((Tier::Privileged, text.as_str()))).unwrap();
    assert_eq!(inv.records[0].pid, Some(pid));
    let details = inv.confirm_processes();
    assert_eq!(details.len(), 1);
    let d = details[0].as_ref().expect("the running process must resolve");
    assert_eq!(d.pid, pid);
    assert!(!d.name.is_empty());
}
