use ports_info::text::chars_of;
use ports_info::parser::{owner_token, parse, split_address, SourceFormat};

fn cv(s: &str) -> Vec<char> {
    chars_of(s)
}

#[test]
fn owner_token_pid_and_name() {
    let (pid, name) = owner_token(&cv("1234/sshd"));
    assert_eq!(pid, Some(1234));
    assert_eq!(name, "sshd");
}

#[test]
fn owner_token_dash_is_unknown() {
    let (pid, name) = owner_token(&cv("-"));
    assert_eq!(pid, None);
    assert_eq!(name, "Unknown");
}

#[test]
fn owner_token_bare_pid() {
    let (pid, name) = owner_token(&cv("999"));
    assert_eq!(pid, Some(999));
    assert_eq!(name, "Unknown");
}

#[test]
fn owner_token_unparsable_pid() {
    let (pid, name) = owner_token(&cv("notanumber/prog"));
    assert_eq!(pid, None);
    assert_eq!(name, "Unknown");
}

#[test]
fn owner_token_pid_overflow() {
    let (pid, name) = owner_token(&cv("4294967296/prog"));
    assert_eq!(pid, None);
    assert_eq!(name, "Unknown");
}

#[test]
fn owner_token_plus_sign_pid() {
    let (pid, name) = owner_token(&cv("+77/prog"));
    assert_eq!(pid, Some(77));
    assert_eq!(name, "prog");
}

#[test]
fn address_with_ip_and_port() {
    let (ip, port) = split_address(&cv("127.0.0.1:8080"));
    assert_eq!(ip, "127.0.0.1");
    assert_eq!(port, "8080");
}

#[test]
fn address_with_empty_prefix_is_wildcard() {
    let (ip, port) = split_address(&cv(":80"));
    assert_eq!(ip, "Any");
    assert_eq!(port, "80");
}

#[test]
fn address_without_colon_has_empty_port() {
    let (ip, port) = split_address(&cv("localhost"));
    assert_eq!(ip, "localhost");
    assert_eq!(port, "");
}

#[test]
fn address_ipv6_splits_on_last_colon() {
    let (ip, port) = split_address(&cv("::1:631"));
    assert_eq!(ip, "::1");
    assert_eq!(port, "631");
}

const NETSTAT_PRIV: &str = "Active Internet connections (only servers)\n\
Proto Recv-Q Send-Q Local Address           Foreign Address         State       PID/Program name\n\
tcp        0      0 0.0.0.0:22              0.0.0.0:*               LISTEN      1234/sshd\n\
udp        0      0 0.0.0.0:68              0.0.0.0:*                           887/dhclient\n\
tcp6       0      0 :::631                  :::*                    LISTEN      -\n";

#[test]
fn privileged_netstat_extracts_owner() {
    let records = parse(SourceFormat::PrivilegedPortList, NETSTAT_PRIV, true);
    assert_eq!(records.len(), 3);
    assert_eq!(records[0].protocol, "tcp");
    assert_eq!(records[0].local_ip, "0.0.0.0");
    assert_eq!(records[0].port, "22");
    assert_eq!(records[0].foreign_address, "0.0.0.0:*");
    assert_eq!(records[0].state, "LISTEN");
    assert_eq!(records[0].pid, Some(1234));
    assert_eq!(records[0].process_name, "sshd");
    assert_eq!(records[0].recv_q, 0);
    assert_eq!(records[0].send_q, 0);
}

#[test]
fn udp_owner_column_sits_in_state_position() {
    let records = parse(SourceFormat::PrivilegedPortList, NETSTAT_PRIV, true);
    assert_eq!(records[1].protocol, "udp");
    assert_eq!(records[1].state, "stateless");
    assert_eq!(records[1].pid, Some(887));
    assert_eq!(records[1].process_name, "dhclient");
}

#[test]
fn dash_owner_line_has_no_pid() {
    let records = parse(SourceFormat::PrivilegedPortList, NETSTAT_PRIV, true);
    assert_eq!(records[2].protocol, "tcp6");
    assert_eq!(records[2].pid, None);
    assert_eq!(records[2].process_name, "Unknown");
}

#[test]
fn privileged_shape_without_privilege_never_leaks_owner() {
    let records = parse(SourceFormat::PrivilegedPortList, NETSTAT_PRIV, false);
    assert_eq!(records.len(), 3);
    for r in &records {
        assert_eq!(r.pid, None);
        assert_eq!(r.process_name, "Unknown (no privileges)");
    }
}

#[test]
fn udp_state_like_column_is_ignored() {
    let text = "h1\nh2\nUDP 0 0 0.0.0.0:53 0.0.0.0:* CONNECTED 5/named\n";
    let records = parse(SourceFormat::PrivilegedPortList, text, true);
    assert_eq!(records.len(), 1);
    assert_eq!(records[0].protocol, "udp");
    assert_eq!(records[0].state, "stateless");
}

#[test]
fn protocol_is_lower_cased() {
    let text = "h1\nh2\nTCP 0 0 1.2.3.4:80 5.6.7.8:* LISTEN 1/x\n";
    let records = parse(SourceFormat::PrivilegedPortList, text, true);
    assert_eq!(records[0].protocol, "tcp");
}

#[test]
fn tcp_line_without_state_column_is_unknown() {
    let text = "h1\nh2\ntcp 0 0 1.2.3.4:80 5.6.7.8:*\n";
    let records = parse(SourceFormat::PrivilegedPortList, text, true);
    assert_eq!(records.len(), 1);
    assert_eq!(records[0].state, "unknown");
    assert_eq!(records[0].pid, None);
    assert_eq!(records[0].process_name, "Unknown");
}

#[test]
fn socket_stats_end_to_end() {
    let text = "Netid State Recv-Q Send-Q Local Address:Port Peer Address:Port\n\
tcp LISTEN 0 128 0.0.0.0:22 *:*\n";
    let records = parse(SourceFormat::SocketStats, text, false);
    assert_eq!(records.len(), 1);
    let r = &records[0];
    assert_eq!(r.protocol, "tcp");
    assert_eq!(r.local_ip, "0.0.0.0");
    assert_eq!(r.port, "22");
    assert_eq!(r.foreign_address, "*:*");
    assert_eq!(r.state, "LISTEN");
    assert_eq!(r.pid, None);
    assert_eq!(r.process_name, "Unknown (no privileges)");
}

#[test]
fn socket_stats_foreign_defaults_when_absent() {
    let text = "header\nudp UNCONN 0 0 0.0.0.0:68\n";
    let records = parse(SourceFormat::SocketStats, text, false);
    assert_eq!(records.len(), 1);
    assert_eq!(records[0].foreign_address, "*:*");
    assert_eq!(records[0].state, "stateless");
}

#[test]
fn legacy_format_reports_no_foreign_address() {
    let text = "h1\nh2\ntcp 0 0 10.0.0.1:443 ignored LISTEN\n";
    let records = parse(SourceFormat::LegacyPortList, text, false);
    assert_eq!(records.len(), 1);
    assert_eq!(records[0].foreign_address, "*:*");
    assert_eq!(records[0].local_ip, "10.0.0.1");
    assert_eq!(records[0].port, "443");
    assert_eq!(records[0].state, "LISTEN");
}

#[test]
fn legacy_format_minimum_is_four_fields() {
    let text = "h1\nh2\nudp 0 0 0.0.0.0:68\n";
    let records = parse(SourceFormat::LegacyPortList, text, false);
    assert_eq!(records.len(), 1);
    assert_eq!(records[0].port, "68");
    assert_eq!(records[0].state, "stateless");
}

#[test]
fn short_line_is_dropped_without_error() {
    let text = "h1\nh2\ntcp 0 0\nudp 0 0 0.0.0.0:68 0.0.0.0:* 7/x\n";
    let records = parse(SourceFormat::PrivilegedPortList, text, true);
    assert_eq!(records.len(), 1);
    assert_eq!(records[0].port, "68");
}

#[test]
fn blank_lines_are_skipped() {
    let text = "h1\nh2\n\n   \ntcp 0 0 1.2.3.4:80 5.6.7.8:* LISTEN 1/x\n\n";
    let records = parse(SourceFormat::PrivilegedPortList, text, true);
    assert_eq!(records.len(), 1);
}

#[test]
fn header_lines_are_skipped() {
    let text = "tcp 0 0 1.2.3.4:80 5.6.7.8:* LISTEN 1/x\n\
tcp 0 0 1.2.3.4:81 5.6.7.8:* LISTEN 2/y\n\
tcp 0 0 1.2.3.4:82 5.6.7.8:* LISTEN 3/z\n";
    let records = parse(SourceFormat::PrivilegedPortList, text, true);
    assert_eq!(records.len(), 1);
    assert_eq!(records[0].port, "82");
}

#[test]
fn carriage_returns_are_tolerated() {
    let text = "h1\r\nh2\r\ntcp 0 0 1.2.3.4:80 5.6.7.8:* LISTEN 1/x\r\n";
    let records = parse(SourceFormat::PrivilegedPortList, text, true);
    assert_eq!(records.len(), 1);
    assert_eq!(records[0].port, "80");
    assert_eq!(records[0].process_name, "x");
}

#[test]
fn empty_text_parses_to_nothing() {
    assert_eq!(parse(SourceFormat::PrivilegedPortList, "", true).len(), 0);
    assert_eq!(parse(SourceFormat::SocketStats, "", false).len(), 0);
    assert_eq!(parse(SourceFormat::LegacyPortList, "", false).len(), 0);
}

#[test]
fn parsing_is_idempotent() {
    let once = parse(SourceFormat::PrivilegedPortList, NETSTAT_PRIV, true);
    let twice = parse(SourceFormat::PrivilegedPortList, NETSTAT_PRIV, true);
    assert_eq!(once, twice);
}

#[test]
fn record_order_follows_output_order() {
    let records = parse(SourceFormat::PrivilegedPortList, NETSTAT_PRIV, true);
    assert_eq!(records[0].port, "22");
    assert_eq!(records[1].port, "68");
    assert_eq!(records[2].port, "631");
}
