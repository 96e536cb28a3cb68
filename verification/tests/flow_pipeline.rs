use flowcap::conf::{get_conf, Config, IpAddr, IpAddrOrHostname, IpV4, MacAddr, Protocol};
use flowcap::flow::{aggregate_all, Aggregator, Frame, FlowRecord};
use flowcap::frame::normalize_frame;
use flowcap::logdoc::{append_run, appended_document, pacing_schedule, pacing_step, PacketLog};
use flowcap::pipeline::{display_addr, process_record, render_line, truncate_domain};

fn mac(last: u8) -> MacAddr {
    MacAddr::from([0, 0, 0, 0, 0, last])
}

fn v4(last: u8) -> IpAddr {
    IpAddr::V4(IpV4 { octets: [10, 0, 0, last] })
}

fn frame(src: u8, dst: u8, size: usize) -> Frame {
    Frame {
        orig_mac: mac(src),
        dest_mac: mac(dst),
        protocol: Protocol::Tcp,
        orig_ip: v4(src),
        dest_ip: v4(dst),
        payload: vec![0xab; size],
    }
}

fn plain_config() -> Config {
    get_conf(
        false, None, None, None, None, None, None, None, None, None, false, false,
    )
}

fn record(src: u8, dst: u8, bytes: u64, timestamp: u64) -> FlowRecord {
    FlowRecord {
        protocol: Protocol::Tcp,
        orig_ip: v4(src),
        orig_mac: mac(src),
        dest_ip: v4(dst),
        dest_mac: mac(dst),
        bytes,
        packets: 1,
        timestamp,
        raw: vec![0xab; bytes as usize],
    }
}

#[test]
fn three_frames_emit_one_record() {
    // frames A->B, A->B, C->D with payload sizes 10, 20, 5: exactly one
    // record for the A->B group, with 30 bytes over 2 packets; the C->D
    // group stays open
    let mut agg = Aggregator::new();
    assert!(agg.push(frame(1, 2, 10), 100).is_none());
    assert!(agg.push(frame(1, 2, 20), 200).is_none());
    let rec = agg.push(frame(3, 4, 5), 300).expect("the broken group must be emitted");
    assert_eq!(rec.bytes, 30);
    assert_eq!(rec.packets, 2);
    assert_eq!(rec.timestamp, 300);
    assert_eq!(rec.orig_mac.octets, mac(1).octets);
    assert_eq!(rec.dest_mac.octets, mac(2).octets);
    // the record's addresses come from the frame that broke the group
    match rec.orig_ip {
        IpAddr::V4(ip) => assert_eq!(ip.octets, [10, 0, 0, 3]),
        _ => panic!("wrong family"),
    }
    assert_eq!(rec.raw.len(), 30);
    assert!(rec.raw.iter().all(|b| *b == 0xab));
    // the trailing group is still open
    assert_eq!(agg.frames.len(), 1);
    // a further breaking frame emits it
    let rec2 = agg.push(frame(5, 6, 1), 400).expect("the trailing group breaks");
    assert_eq!(rec2.bytes, 5);
    assert_eq!(rec2.packets, 1);
}

#[test]
fn run_grouping_counts() {
    // three maximal runs: the trailing one stays open, two records come out
    let frames = vec![
        frame(1, 2, 1),
        frame(1, 2, 2),
        frame(3, 4, 3),
        frame(3, 4, 4),
        frame(5, 6, 5),
    ];
    let times = vec![10, 20, 30, 40, 50];
    let (records, agg) = aggregate_all(frames, &times);
    assert_eq!(records.len(), 2);
    assert_eq!(records[0].packets, 2);
    assert_eq!(records[0].bytes, 3);
    assert_eq!(records[0].timestamp, 30);
    assert_eq!(records[1].packets, 2);
    assert_eq!(records[1].bytes, 7);
    assert_eq!(records[1].timestamp, 50);
    assert_eq!(agg.frames.len(), 1);

    let (records, agg) = aggregate_all(Vec::new(), &Vec::new());
    assert_eq!(records.len(), 0);
    assert_eq!(agg.frames.len(), 0);
}

#[test]
fn normalizer_ipv4() {
    let mut bytes = vec![
        1, 2, 3, 4, 5, 6, // destination MAC
        7, 8, 9, 10, 11, 12, // source MAC
        0x08, 0x00, // IPv4 ethertype
    ];
    let mut header = vec![0u8; 20];
    header[9] = 6; // TCP
    header[12..16].copy_from_slice(&[10, 0, 0, 1]);
    header[16..20].copy_from_slice(&[10, 0, 0, 2]);
    bytes.extend_from_slice(&header);
    bytes.extend_from_slice(&[0xde, 0xad]);
    let f = normalize_frame(&bytes).expect("a well-formed datagram");
    assert_eq!(f.orig_mac.octets, [7, 8, 9, 10, 11, 12]);
    assert_eq!(f.dest_mac.octets, [1, 2, 3, 4, 5, 6]);
    assert_eq!(f.protocol, Protocol::Tcp);
    match f.orig_ip {
        IpAddr::V4(ip) => assert_eq!(ip.octets, [10, 0, 0, 1]),
        _ => panic!("wrong family"),
    }
    match f.dest_ip {
        IpAddr::V4(ip) => assert_eq!(ip.octets, [10, 0, 0, 2]),
        _ => panic!("wrong family"),
    }
    assert_eq!(f.payload.len(), 22);
    assert_eq!(f.payload[20], 0xde);
}

#[test]
fn normalizer_discards() {
    // too short for a link-layer header
    assert!(normalize_frame(&vec![0u8; 13]).is_none());
    // an ethertype of neither family
    let mut bytes = vec![0u8; 60];
    bytes[12] = 0x08;
    bytes[13] = 0x06; // ARP
    assert!(normalize_frame(&bytes).is_none());
    // IPv4 ethertype but too short for the network-layer header
    let mut bytes = vec![0u8; 20];
    bytes[12] = 0x08;
    bytes[13] = 0x00;
    assert!(normalize_frame(&bytes).is_none());
    // IPv6 ethertype with a full header parses
    let mut bytes = vec![0u8; 54];
    bytes[12] = 0x86;
    bytes[13] = 0xdd;
    bytes[23] = 17; // read at the IPv4 protocol offset even for IPv6
    bytes[37] = 9; // last source octet
    let f = normalize_frame(&bytes).expect("a well-formed datagram");
    assert_eq!(f.protocol, Protocol::Udp);
    match f.orig_ip {
        IpAddr::V6(ip) => assert_eq!(ip.octets[15], 9),
        _ => panic!("wrong family"),
    }
}

#[test]
fn domain_truncation() {
    assert_eq!(truncate_domain("foo.bar.example.com"), "example.com");
    assert_eq!(truncate_domain("api.example.com"), "example.com");
    assert_eq!(truncate_domain("example.com"), "example.com");
    assert_eq!(truncate_domain("localhost"), "localhost");
    // a colon-form literal has no dot-separated labels to truncate
    assert_eq!(truncate_domain("fe80:0:0:0:0:0:0:1"), "fe80:0:0:0:0:0:0:1");
}

#[test]
fn display_resolution() {
    let a = v4(1);
    // no hostname display: the numeric form
    assert_eq!(display_addr(&a, false, &Some(String::from("x.example.com"))), "10.0.0.1");
    // resolution changed the string: truncated to the last two labels
    assert_eq!(
        display_addr(&a, true, &Some(String::from("foo.bar.example.com"))),
        "example.com"
    );
    // resolution fell back to the numeric form: unchanged
    assert_eq!(display_addr(&a, true, &Some(String::from("10.0.0.1"))), "10.0.0.1");
    // no resolution result: the numeric form
    assert_eq!(display_addr(&a, true, &None), "10.0.0.1");
}

#[test]
fn rendered_lines() {
    let rec = FlowRecord {
        packets: 2,
        bytes: 30,
        timestamp: 2000,
        ..record(1, 2, 30, 0)
    };
    let od = String::from("10.0.0.1");
    let dd = String::from("10.0.0.2");
    let line = render_line(&rec, &od, &dd, 500, false);
    assert_eq!(line, "TCP at 1.50s: 10.0.0.1 -> 10.0.0.2: 30 bytes");
    let line = render_line(&rec, &od, &dd, 500, true);
    assert_eq!(
        line,
        "TCP (2 packets) at 1.50s: 10.0.0.1 (0:0:0:0:0:1) -> 10.0.0.2 (0:0:0:0:0:2) 30B"
    );
    let one = FlowRecord { packets: 1, ..record(1, 2, 30, 2000) };
    let line = render_line(&one, &od, &dd, 2000, true);
    assert_eq!(
        line,
        "TCP (1 packet) at 0.00s: 10.0.0.1 (0:0:0:0:0:1) -> 10.0.0.2 (0:0:0:0:0:2) 30B"
    );
}

#[test]
fn protocol_gate_and_log_order() {
    let rec = record(1, 2, 10, 100);
    // a record of another protocol than the restriction is neither logged nor shown
    let mut cfg = plain_config();
    cfg.protocol = Some(Protocol::Udp);
    cfg.log_file = Some(String::from("log.json"));
    let out = process_record(&rec, &cfg, None, None, 100);
    assert!(!out.should_log);
    assert!(out.shown.is_none());
    // a record of the restricted protocol is logged even when excluded from display
    let mut cfg = plain_config();
    cfg.log_file = Some(String::from("log.json"));
    cfg.exclude_ips = Some(vec![IpAddrOrHostname::Hostname(String::from("10.0.0.1"))]);
    let out = process_record(&rec, &cfg, None, None, 100);
    assert!(out.should_log);
    assert!(out.shown.is_none());
}

#[test]
fn exclude_and_filter_lists() {
    let rec = record(1, 2, 10, 100);
    // excluded by the destination's displayed string
    let mut cfg = plain_config();
    cfg.exclude_ips = Some(vec![IpAddrOrHostname::Hostname(String::from("10.0.0.2"))]);
    assert!(process_record(&rec, &cfg, None, None, 100).shown.is_none());
    // excluded by source MAC
    let mut cfg = plain_config();
    cfg.exclude_macs = Some(vec![mac(1)]);
    assert!(process_record(&rec, &cfg, None, None, 100).shown.is_none());
    // allow list holding neither endpoint drops the record
    let mut cfg = plain_config();
    cfg.filter_ips = Some(vec![IpAddrOrHostname::Hostname(String::from("10.9.9.9"))]);
    assert!(process_record(&rec, &cfg, None, None, 100).shown.is_none());
    // allow list holding one endpoint keeps it
    let mut cfg = plain_config();
    cfg.filter_ips = Some(vec![IpAddrOrHostname::Hostname(String::from("10.0.0.1"))]);
    assert!(process_record(&rec, &cfg, None, None, 100).shown.is_some());
    // a MAC allow list holding neither endpoint drops it
    let mut cfg = plain_config();
    cfg.filter_macs = Some(vec![mac(9)]);
    assert!(process_record(&rec, &cfg, None, None, 100).shown.is_none());
    // an unfiltered record is shown, unhighlighted
    let out = process_record(&rec, &plain_config(), None, None, 100);
    let shown = out.shown.expect("shown");
    assert!(!shown.highlight);
    assert!(!out.should_log);
}

#[test]
fn highlight_mac_precedence() {
    let rec = record(1, 2, 10, 100);
    // destination MAC in the highlight list: highlighted, though the
    // displayed strings are in no list
    let mut cfg = plain_config();
    cfg.highlight_macs = Some(vec![mac(2)]);
    cfg.highlight_ips = Some(vec![IpAddrOrHostname::Hostname(String::from("10.9.9.9"))]);
    let out = process_record(&rec, &cfg, None, None, 100);
    assert!(out.shown.expect("shown").highlight);
    // a configured MAC list that matches nothing wins over a matching IP
    // list: the IP list is never consulted
    let mut cfg = plain_config();
    cfg.highlight_macs = Some(vec![mac(9)]);
    cfg.highlight_ips = Some(vec![IpAddrOrHostname::Hostname(String::from("10.0.0.1"))]);
    let out = process_record(&rec, &cfg, None, None, 100);
    assert!(!out.shown.expect("shown").highlight);
    // with no MAC list, the displayed-string list decides
    let mut cfg = plain_config();
    cfg.highlight_ips = Some(vec![IpAddrOrHostname::Hostname(String::from("10.0.0.1"))]);
    let out = process_record(&rec, &cfg, None, None, 100);
    assert!(out.shown.expect("shown").highlight);
}

#[test]
fn document_append() {
    let d = appended_document(None, record(1, 2, 10, 700), 600);
    assert_eq!(d.start_time, 600);
    assert_eq!(d.packets.len(), 1);
    let d = appended_document(Some(d), record(3, 4, 5, 800), 999);
    // the anchor never moves after the first write
    assert_eq!(d.start_time, 600);
    assert_eq!(d.packets.len(), 2);
    assert_eq!(d.packets[1].bytes, 5);
}

#[test]
fn replay_reproduces_live_lines() {
    let live = vec![record(1, 2, 10, 700), record(3, 4, 20, 900)];
    let cfg = plain_config();
    let start = 500;
    let mut live_lines = Vec::new();
    for r in live.iter() {
        let out = process_record(r, &cfg, None, None, start);
        live_lines.push(out.shown.expect("shown").text);
    }
    let doc: PacketLog = append_run(live.clone(), start);
    assert_eq!(doc.start_time, start);
    assert_eq!(doc.packets.len(), live.len());
    let mut replay_lines = Vec::new();
    for r in doc.packets.iter() {
        let out = process_record(r, &cfg, None, None, doc.start_time);
        replay_lines.push(out.shown.expect("shown").text);
    }
    assert_eq!(live_lines, replay_lines);
}

#[test]
fn real_time_pacing_waits() {
    // ascending stamps: each record waits out exactly its own offset
    let stamps = vec![1500, 2500, 2600];
    let sleeps = pacing_schedule(&stamps, 500);
    assert_eq!(sleeps, [1000, 1000, 100]);
    // an out-of-order stamp must not fail: its wait clamps to nothing
    let stamps = vec![2000, 1000];
    let sleeps = pacing_schedule(&stamps, 500);
    assert_eq!(sleeps, [1500, 0]);
    // a stamp before the anchor clamps to no offset at all
    assert_eq!(pacing_step(400, 500, 0), 0);
    assert_eq!(pacing_step(700, 500, 50), 150);
}

#[test]
fn config_protocol_normalization() {
    let c = get_conf(
        true,
        Some(String::from("f")),
        None,
        None,
        None,
        None,
        None,
        None,
        Some(Protocol::Unknown),
        None,
        true,
        true,
    );
    assert!(c.verbose);
    assert!(c.real_time_playback);
    assert!(c.hostnames);
    assert_eq!(c.log_file.as_deref(), Some("f"));
    // an unknown-protocol restriction means no restriction
    assert!(c.protocol.is_none());
    let c = get_conf(
        false, None, None, None, None, None, None, None,
        Some(Protocol::Icmp), None, false, false,
    );
    assert_eq!(c.protocol, Some(Protocol::Icmp));
}

#[test]
fn filters_match_displayed_strings() {
    // exclude lists match the resolved, truncated display string, not the
    // numeric address: hostname mode and plain mode filter differently
    let rec = record(1, 2, 10, 100);
    let mut cfg = plain_config();
    cfg.hostnames = true;
    cfg.exclude_ips = Some(vec![IpAddrOrHostname::Hostname(String::from("example.com"))]);
    let resolved = Some(String::from("a.b.example.com"));
    let out = process_record(&rec, &cfg, resolved.clone(), None, 100);
    assert!(out.shown.is_none());
    // the same policy without hostname display sees only the numeric form
    cfg.hostnames = false;
    let out = process_record(&rec, &cfg, resolved, None, 100);
    assert!(out.shown.is_some());
}
