use crate::conf::{ip_str_of, mac_str_of, protocol_str_of, Config, IpAddr, IpAddrOrHostname,
    MacAddr, Protocol};
use crate::flow::FlowRecord;
use crate::numfmt::{append_digit, dec_of, digit_char, u64_to_dec};
use crate::text::{split_on, split_str, views_of};
use vstd::prelude::*;
use vstd::string::*;

verus! {

/// Whether a record passes the protocol restriction: no restriction admits
/// every record, a restriction admits only its own protocol.
pub open spec fn gate_passes(restriction: Option<Protocol>, p: Protocol) -> bool {
    match restriction {
        None => true,
        Some(q) => q == p,
    }
}

/// Whether a record passes the policy's protocol restriction.
pub fn passes_protocol_gate(config: &Config, record: &FlowRecord) -> (r: bool)
    ensures
        r == gate_passes(config.protocol, record.protocol),
{
    match &config.protocol {
        None => true,
        Some(q) => *q == record.protocol,
    }
}

/// A resolved name cut down to its last two dot-separated labels; a name of
/// fewer than three labels stands unchanged.
pub open spec fn truncated(s: Seq<char>) -> Seq<char> {
    let p = split_on(s, '.');
    if p.len() >= 3 {
        p[p.len() - 2] + seq!['.'] + p[p.len() - 1]
    } else {
        s
    }
}

/// Cuts a resolved name down to its last two dot-separated labels; a name of
/// fewer than three labels, a bare name or a colon-form literal among them,
/// stands unchanged.
pub fn truncate_domain(s: &str) -> (r: String)
    ensures
        r@ == truncated(s@),
{
    let parts = split_str(s, '.');
    let n = parts.len();
    proof {
        assert(views_of(parts@).len() == parts@.len());
    }
    if n >= 3 {
        let mut out = parts[n - 2].clone();
        proof {
            reveal_strlit(".");
            assert((".")@ =~= seq!['.']);
            assert(views_of(parts@)[n - 2] == parts@[n - 2]@);
            assert(views_of(parts@)[n - 1] == parts@[n - 1]@);
        }
        out.append(".");
        out.append(parts[n - 1].as_str());
        proof {
            assert(out@ =~= truncated(s@));
        }
        out
    } else {
        s.to_owned()
    }
}

/// The view of an optional resolved name.
pub open spec fn resolved_view(r: Option<String>) -> Option<Seq<char>> {
    match r {
        Some(s) => Some(s@),
        None => None,
    }
}

/// The string under which an address is displayed and matched: its numeric
/// form unless hostname display is on and resolution returned a different
/// string, which is then truncated to its last two labels.
pub open spec fn display_of(numeric: Seq<char>, hostnames: bool, resolved: Option<Seq<char>>)
    -> Seq<char> {
    if hostnames {
        match resolved {
            Some(h) => if h == numeric {
                numeric
            } else {
                truncated(h)
            },
            None => numeric,
        }
    } else {
        numeric
    }
}

/// Renders the display string of one endpoint address. `resolved` is what
/// reverse resolution returned for it, if hostname display is on: the
/// resolver's name on success, or the resolver-side numeric fallback.
pub fn display_addr(addr: &IpAddr, hostnames: bool, resolved: &Option<String>) -> (r: String)
    ensures
        r@ == display_of(ip_str_of(*addr), hostnames, resolved_view(*resolved)),
{
    let numeric = addr.to_display_string();
    if hostnames {
        match resolved {
            Some(h) => {
                if h.eq(&numeric) {
                    numeric
                } else {
                    truncate_domain(h.as_str())
                }
            },
            None => numeric,
        }
    } else {
        numeric
    }
}

/// Whether a hostname-form entry with these characters stands in the list.
pub open spec fn hostname_in_list(list: Seq<IpAddrOrHostname>, s: Seq<char>) -> bool {
    exists|i: int|
        0 <= i < list.len() && (#[trigger] list[i]) is Hostname && list[i]->Hostname_0@ == s
}

/// Whether an entry with these octets stands in the list.
pub open spec fn mac_in_list(list: Seq<MacAddr>, m: Seq<u8>) -> bool {
    exists|i: int| 0 <= i < list.len() && (#[trigger] list[i])@ == m
}

/// Whether a hostname-form entry holding this display string stands in the
/// list.
pub fn list_has_hostname(list: &Vec<IpAddrOrHostname>, s: &String) -> (r: bool)
    ensures
        r == hostname_in_list(list@, s@),
{
    let mut i: usize = 0;
    while i < list.len()
        invariant
            i <= list@.len(),
            forall|k: int|
                0 <= k < i ==> !((#[trigger] list@[k]) is Hostname && list@[k]->Hostname_0@
                    == s@),
        decreases list@.len() - i,
    {
        match &list[i] {
            IpAddrOrHostname::Hostname(h) => {
                if h.eq(s) {
                    return true;
                }
            },
            _ => {},
        }
        i = i + 1;
    }
    false
}

/// Whether this link-layer address stands in the list.
pub fn list_has_mac(list: &Vec<MacAddr>, m: &MacAddr) -> (r: bool)
    ensures
        r == mac_in_list(list@, m@),
{
    let mut i: usize = 0;
    while i < list.len()
        invariant
            i <= list@.len(),
            forall|k: int| 0 <= k < i ==> (#[trigger] list@[k])@ != m@,
        decreases list@.len() - i,
    {
        if list[i].eq_mac(m) {
            return true;
        }
        i = i + 1;
    }
    false
}

/// Whether a record is dropped by the exclude lists: a displayed endpoint
/// string in the excluded hostnames, or an endpoint in the excluded
/// link-layer addresses.
pub open spec fn spec_excluded(
    cfg: Config,
    od: Seq<char>,
    dd: Seq<char>,
    om: Seq<u8>,
    dm: Seq<u8>,
) -> bool {
    (match cfg.exclude_ips {
        Some(l) => hostname_in_list(l@, od) || hostname_in_list(l@, dd),
        None => false,
    }) || (match cfg.exclude_macs {
        Some(l) => mac_in_list(l@, om) || mac_in_list(l@, dm),
        None => false,
    })
}

/// Whether a record passes the allow lists: each configured list must hold
/// at least one of the record's endpoints.
pub open spec fn spec_filtered_in(
    cfg: Config,
    od: Seq<char>,
    dd: Seq<char>,
    om: Seq<u8>,
    dm: Seq<u8>,
) -> bool {
    (match cfg.filter_ips {
        Some(l) => hostname_in_list(l@, od) || hostname_in_list(l@, dd),
        None => true,
    }) && (match cfg.filter_macs {
        Some(l) => mac_in_list(l@, om) || mac_in_list(l@, dm),
        None => true,
    })
}

/// Whether a record is rendered highlighted: when a link-layer highlight
/// list is configured it alone decides, on either endpoint; only with none
/// configured does a displayed-string highlight list decide.
pub open spec fn spec_highlighted(
    cfg: Config,
    od: Seq<char>,
    dd: Seq<char>,
    om: Seq<u8>,
    dm: Seq<u8>,
) -> bool {
    match cfg.highlight_macs {
        Some(l) => mac_in_list(l@, om) || mac_in_list(l@, dm),
        None => match cfg.highlight_ips {
            Some(l) => hostname_in_list(l@, od) || hostname_in_list(l@, dd),
            None => false,
        },
    }
}

/// A record whose destination link-layer address stands in the configured
/// highlight list is highlighted, whatever the displayed-string highlight
/// list holds.
pub proof fn lemma_highlight_mac_precedence(
    cfg: Config,
    od: Seq<char>,
    dd: Seq<char>,
    om: Seq<u8>,
    dm: Seq<u8>,
)
    requires
        cfg.highlight_macs is Some,
        mac_in_list(cfg.highlight_macs->0@, dm),
    ensures
        spec_highlighted(cfg, od, dd, om, dm),
{
}

/// While a link-layer highlight list is configured, the displayed-string
/// highlight list is never consulted: two policies differing only there
/// highlight the same records.
pub proof fn lemma_highlight_ignores_ips_when_macs_set(
    cfg1: Config,
    cfg2: Config,
    od: Seq<char>,
    dd: Seq<char>,
    om: Seq<u8>,
    dm: Seq<u8>,
)
    requires
        cfg1.highlight_macs is Some,
        cfg1.highlight_macs == cfg2.highlight_macs,
    ensures
        spec_highlighted(cfg1, od, dd, om, dm) == spec_highlighted(cfg2, od, dd, om, dm),
{
}

/// The elapsed seconds of a millisecond count, with two decimal places.
pub open spec fn elapsed_str(ms: nat) -> Seq<char> {
    dec_of(ms / 1000) + seq!['.'] + seq![digit_char((ms % 1000) / 100)] + seq![
        digit_char(((ms % 1000) / 10) % 10),
    ]
}

/// Renders a millisecond count as elapsed seconds with two decimal places.
pub fn render_elapsed(ms: u64) -> (s: String)
    ensures
        s@ == elapsed_str(ms as nat),
{
    let mut s = u64_to_dec(ms / 1000);
    proof {
        reveal_strlit(".");
        assert((".")@ =~= seq!['.']);
    }
    s.append(".");
    let frac = ms % 1000;
    append_digit(&mut s, (frac / 100) as u8);
    append_digit(&mut s, ((frac / 10) % 10) as u8);
    proof {
        assert(s@ =~= elapsed_str(ms as nat));
    }
    s
}

/// The verbose display line of a record: protocol, packet count, elapsed
/// seconds, both endpoints with their link-layer addresses, and byte count.
pub open spec fn verbose_line_of(r: FlowRecord, od: Seq<char>, dd: Seq<char>, start: nat)
    -> Seq<char> {
    protocol_str_of(r.protocol) + (" (")@ + dec_of(r.packets as nat) + (" packet")@ + (if r.packets
        == 1 {
        Seq::<char>::empty()
    } else {
        ("s")@
    }) + (") at ")@ + elapsed_str((r.timestamp - start) as nat) + ("s: ")@ + od + (" (")@
        + mac_str_of(r.orig_mac@) + (") -> ")@ + dd + (" (")@ + mac_str_of(r.dest_mac@) + (") ")@
        + dec_of(r.bytes as nat) + ("B")@
}

/// The terse display line of a record: protocol, elapsed seconds, both
/// endpoints, and byte count.
pub open spec fn terse_line_of(r: FlowRecord, od: Seq<char>, dd: Seq<char>, start: nat)
    -> Seq<char> {
    protocol_str_of(r.protocol) + (" at ")@ + elapsed_str((r.timestamp - start) as nat) + ("s: ")@
        + od + (" -> ")@ + dd + (": ")@ + dec_of(r.bytes as nat) + (" bytes")@
}

/// The display line of a record under a given verbosity.
pub open spec fn line_of(r: FlowRecord, od: Seq<char>, dd: Seq<char>, start: nat, verbose: bool)
    -> Seq<char> {
    if verbose {
        verbose_line_of(r, od, dd, start)
    } else {
        terse_line_of(r, od, dd, start)
    }
}

/// Renders the display line of a record whose endpoints display as `od` and
/// `dd`, against the capture anchor `start_time`.
pub fn render_line(
    record: &FlowRecord,
    od: &String,
    dd: &String,
    start_time: u64,
    verbose: bool,
) -> (s: String)
    requires
        record.timestamp >= start_time,
    ensures
        s@ == line_of(*record, od@, dd@, start_time as nat, verbose),
{
    let mut s = record.protocol.to_display_string();
    let elapsed = render_elapsed(record.timestamp - start_time);
    if verbose {
        s.append(" (");
        let packets = u64_to_dec(record.packets);
        s.append(packets.as_str());
        s.append(" packet");
        if record.packets != 1 {
            s.append("s");
        }
        s.append(") at ");
        s.append(elapsed.as_str());
        s.append("s: ");
        s.append(od.as_str());
        s.append(" (");
        let om = record.orig_mac.to_display_string();
        s.append(om.as_str());
        s.append(") -> ");
        s.append(dd.as_str());
        s.append(" (");
        let dm = record.dest_mac.to_display_string();
        s.append(dm.as_str());
        s.append(") ");
        let bytes = u64_to_dec(record.bytes);
        s.append(bytes.as_str());
        s.append("B");
        proof {
            assert(s@ =~= verbose_line_of(*record, od@, dd@, start_time as nat));
        }
    } else {
        s.append(" at ");
        s.append(elapsed.as_str());
        s.append("s: ");
        s.append(od.as_str());
        s.append(" -> ");
        s.append(dd.as_str());
        s.append(": ");
        let bytes = u64_to_dec(record.bytes);
        s.append(bytes.as_str());
        s.append(" bytes");
        proof {
            assert(s@ =~= terse_line_of(*record, od@, dd@, start_time as nat));
        }
    }
    s
}

/// A line ready for display, and whether it is highlighted.
pub struct PrintedLine {
    pub highlight: bool,
    pub text: String,
}

/// What the pipeline decided for one record: whether it is to be appended to
/// the log, and the line to display if it passed the filters.
pub struct Outcome {
    pub should_log: bool,
    pub shown: Option<PrintedLine>,
}

/// The displayed string of the record's source endpoint.
pub open spec fn spec_display_orig(r: FlowRecord, cfg: Config, ro: Option<String>) -> Seq<char> {
    display_of(ip_str_of(r.orig_ip), cfg.hostnames, resolved_view(ro))
}

/// The displayed string of the record's destination endpoint.
pub open spec fn spec_display_dest(r: FlowRecord, cfg: Config, rd: Option<String>) -> Seq<char> {
    display_of(ip_str_of(r.dest_ip), cfg.hostnames, resolved_view(rd))
}

/// Whether a record is shown: it passes the protocol restriction, is not
/// excluded, and passes the allow lists.
pub open spec fn spec_shown(
    r: FlowRecord,
    cfg: Config,
    ro: Option<String>,
    rd: Option<String>,
) -> bool {
    let od = spec_display_orig(r, cfg, ro);
    let dd = spec_display_dest(r, cfg, rd);
    gate_passes(cfg.protocol, r.protocol) && !spec_excluded(cfg, od, dd, r.orig_mac@, r.dest_mac@)
        && spec_filtered_in(cfg, od, dd, r.orig_mac@, r.dest_mac@)
}

/// Runs one record through the display pipeline: the protocol restriction
/// first; then endpoint display resolution and truncation; a record that
/// meets the restriction is marked for the log, before any address
/// filtering; then the exclude
/// and allow lists against the displayed strings and link-layer addresses;
/// last the highlight decision and the rendered line. `resolved_orig` and
/// `resolved_dest` are what reverse resolution returned for the endpoints,
/// if hostname display is on.
pub fn process_record(
    record: &FlowRecord,
    config: &Config,
    resolved_orig: Option<String>,
    resolved_dest: Option<String>,
    start_time: u64,
) -> (out: Outcome)
    requires
        record.timestamp >= start_time,
    ensures
        out.should_log == (gate_passes(config.protocol, record.protocol)
            && config.log_file is Some),
        (out.shown is Some) == spec_shown(*record, *config, resolved_orig, resolved_dest),
        out.shown is Some ==> out.shown->0.highlight == spec_highlighted(
            *config,
            spec_display_orig(*record, *config, resolved_orig),
            spec_display_dest(*record, *config, resolved_dest),
            record.orig_mac@,
            record.dest_mac@,
        ),
        out.shown is Some ==> out.shown->0.text@ == line_of(
            *record,
            spec_display_orig(*record, *config, resolved_orig),
            spec_display_dest(*record, *config, resolved_dest),
            start_time as nat,
            config.verbose,
        ),
{
    if !passes_protocol_gate(config, record) {
        return Outcome { should_log: false, shown: None };
    }
    let od = display_addr(&record.orig_ip, config.hostnames, &resolved_orig);
    let dd = display_addr(&record.dest_ip, config.hostnames, &resolved_dest);
    let should_log = config.log_file.is_some();
    let excluded = {
        let by_ip = match &config.exclude_ips {
            Some(l) => list_has_hostname(l, &od) || list_has_hostname(l, &dd),
            None => false,
        };
        let by_mac = match &config.exclude_macs {
            Some(l) => list_has_mac(l, &record.orig_mac) || list_has_mac(l, &record.dest_mac),
            None => false,
        };
        by_ip || by_mac
    };
    if excluded {
        return Outcome { should_log, shown: None };
    }
    let filtered_in = ({
        match &config.filter_ips {
            Some(l) => list_has_hostname(l, &od) || list_has_hostname(l, &dd),
            None => true,
        }
    }) && ({
        match &config.filter_macs {
            Some(l) => list_has_mac(l, &record.orig_mac) || list_has_mac(l, &record.dest_mac),
            None => true,
        }
    });
    if !filtered_in {
        return Outcome { should_log, shown: None };
    }
    let highlight = match &config.highlight_macs {
        Some(l) => list_has_mac(l, &record.orig_mac) || list_has_mac(l, &record.dest_mac),
        None => match &config.highlight_ips {
            Some(l) => list_has_hostname(l, &od) || list_has_hostname(l, &dd),
            None => false,
        },
    };
    let text = render_line(record, &od, &dd, start_time, config.verbose);
    Outcome { should_log, shown: Some(PrintedLine { highlight, text }) }
}

} // verus!
