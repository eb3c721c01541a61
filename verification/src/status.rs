//! What LinkSwitch sees, for a terminal and for bug reports.
//!
//! The JSON form is put together by hand: it is a stable diagnostic contract and must not change
//! silently whenever an internal type gains a field.
use vstd::prelude::*;
use vstd::string::*;

use crate::apply::{target, Targets};
use crate::config::{format_mac, mac_text, text_view, Journal, MachineConfig};
use crate::net::adapters::{nic_views, Ipv4Addr, Nic, NicKind, NicView};
use crate::net::binding::{BindError, BindErrorView, BindingState};
use crate::net::metric::MetricState;
use crate::net::routes::{verdict_on, Verdict};
use crate::net::wcm::PolicyState;
use crate::net::wifi::{WifiStatus, WifiStatusView};
use crate::net::{nic_at, LuidKey, Snapshot};
use crate::tasks::{HealthView, TaskHealth};
use crate::text;

verus! {

// --- JSON --------------------------------------------------------------------------------

/// One character inside a JSON string.
pub open spec fn json_char(c: char) -> Seq<char> {
    if c == '\\' {
        "\\\\"@
    } else if c == '"' {
        "\\\""@
    } else {
        seq![c]
    }
}

/// A text with its backslashes and quotation marks escaped.
pub open spec fn json_escaped(s: Seq<char>) -> Seq<char>
    decreases s.len(),
{
    if s.len() == 0 {
        Seq::empty()
    } else {
        json_escaped(s.drop_last()) + json_char(s.last())
    }
}

/// A text between quotation marks.
pub open spec fn json_text(s: Seq<char>) -> Seq<char> {
    "\""@ + json_escaped(s) + "\""@
}

fn push_escaped(out: &mut String, s: &str)
    ensures
        final(out)@ == old(out)@ + json_escaped(s@),
{
    let v = text::chars_of(s);
    let mut i: usize = 0;
    assert(json_escaped(v@.take(0)) =~= Seq::empty());
    assert(out@ =~= old(out)@ + json_escaped(v@.take(0)));
    while i < v.len()
        invariant
            i <= v.len(),
            out@ == old(out)@ + json_escaped(v@.take(i as int)),
        decreases v.len() - i,
    {
        let c = v[i];
        proof {
            assert(v@.take(i + 1).drop_last() =~= v@.take(i as int));
        }
        if c == '\\' {
            out.append("\\\\");
        } else if c == '"' {
            out.append("\\\"");
        } else {
            out.push(c);
        }
        i = i + 1;
        assert(out@ =~= old(out)@ + json_escaped(v@.take(i as int)));
    }
    assert(v@.take(i as int) =~= s@);
}

pub open spec fn bool_words(b: bool) -> Seq<char> {
    if b {
        "true"@
    } else {
        "false"@
    }
}

fn bool_text(b: bool) -> (r: &'static str)
    ensures
        r@ == bool_words(b),
{
    if b {
        "true"
    } else {
        "false"
    }
}

/// The addresses of an adapter, each between quotation marks.
pub open spec fn quoted_addresses(v: Seq<Ipv4Addr>) -> Seq<Seq<char>> {
    v.map_values(|a: Ipv4Addr| "\""@ + a.display() + "\""@)
}

pub open spec fn addresses_json(v: Seq<Ipv4Addr>) -> Seq<char> {
    "["@ + text::join(quoted_addresses(v), ", "@) + "]"@
}

fn addresses_text(v: &Vec<Ipv4Addr>) -> (r: String)
    ensures
        r@ == addresses_json(v@),
{
    let mut parts: Vec<String> = Vec::new();
    let mut i: usize = 0;
    while i < v.len()
        invariant
            i <= v.len(),
            parts@.len() == i,
            forall|k: int| 0 <= k < i ==> (#[trigger] parts@[k])@ == quoted_addresses(v@)[k],
        decreases v.len() - i,
    {
        let mut p = "\"".to_owned();
        p.append(v[i].to_text().as_str());
        p.append("\"");
        parts.push(p);
        i = i + 1;
    }
    assert(text::views(parts@) =~= quoted_addresses(v@));
    let mut r = "[".to_owned();
    r.append(text::join_text(&parts, ", ").as_str());
    r.append("]");
    r
}

/// One adapter, or `null`.
pub open spec fn nic_json(n: Option<NicView>) -> Seq<char> {
    match n {
        Some(n) => "{\"name\":"@ + json_text(n.label()) + ",\"if_index\":"@ + text::dec(
            n.if_index as nat,
        ) + ",\"luid\":\""@ + n.luid.display() + "\",\"permanent_mac\":"@ + (
        match n.permanent_mac {
            Some(m) => "\""@ + mac_text(m) + "\""@,
            None => "null"@,
        }) + ",\"up\":"@ + bool_words(n.oper_up) + ",\"media_connected\":"@ + bool_words(
            n.media_connected,
        ) + ",\"ipv4\":"@ + addresses_json(n.ipv4) + "}"@,
        None => "null"@,
    }
}

/// An adapter that may be absent, as plain values.
pub open spec fn nic_view(n: Option<&Nic>) -> Option<NicView> {
    match n {
        Some(n) => Some(n@),
        None => None,
    }
}

fn quoted_text(s: &str) -> (r: String)
    ensures
        r@ == json_text(s@),
{
    let mut r = "\"".to_owned();
    push_escaped(&mut r, s);
    r.append("\"");
    r
}

fn nic_text(n: Option<&Nic>) -> (r: String)
    ensures
        r@ == nic_json(nic_view(n)),
{
    match n {
        Some(n) => {
            let mut r = "{\"name\":".to_owned();
            r.append(quoted_text(n.label()).as_str());
            r.append(",\"if_index\":");
            text::push_dec(&mut r, n.if_index as u64);
            r.append(",\"luid\":\"");
            r.append(n.luid.to_text().as_str());
            r.append("\",\"permanent_mac\":");
            match n.permanent_mac {
                Some(m) => {
                    let mut mac = "\"".to_owned();
                    mac.append(format_mac(m).as_str());
                    mac.append("\"");
                    r.append(mac.as_str());
                },
                None => {
                    r.append("null");
                },
            }
            r.append(",\"up\":");
            r.append(bool_text(n.oper_up));
            r.append(",\"media_connected\":");
            r.append(bool_text(n.media_connected));
            r.append(",\"ipv4\":");
            r.append(addresses_text(&n.ipv4).as_str());
            r.append("}");
            r
        },
        None => "null".to_owned(),
    }
}

/// A verdict by the names of its parts.
pub open spec fn verdict_json(v: Verdict) -> Seq<char> {
    match v {
        Verdict::Ethernet { total } => "Ethernet { total: "@ + text::dec(total as nat) + " }"@,
        Verdict::Wifi { total } => "Wifi { total: "@ + text::dec(total as nat) + " }"@,
        Verdict::Hijacked { luid, if_index, total } => "Hijacked { luid: LuidKey("@ + text::dec(
            luid.0 as nat,
        ) + "), if_index: "@ + text::dec(if_index as nat) + ", total: "@ + text::dec(total as nat)
            + " }"@,
        Verdict::NoRoute => "None"@,
    }
}

fn verdict_text(v: &Verdict) -> (r: String)
    ensures
        r@ == verdict_json(*v),
{
    match v {
        Verdict::Ethernet { total } => {
            let mut r = "Ethernet { total: ".to_owned();
            text::push_dec(&mut r, *total as u64);
            r.append(" }");
            r
        },
        Verdict::Wifi { total } => {
            let mut r = "Wifi { total: ".to_owned();
            text::push_dec(&mut r, *total as u64);
            r.append(" }");
            r
        },
        Verdict::Hijacked { luid, if_index, total } => {
            let mut r = "Hijacked { luid: LuidKey(".to_owned();
            text::push_dec(&mut r, luid.0);
            r.append("), if_index: ");
            text::push_dec(&mut r, *if_index as u64);
            r.append(", total: ");
            text::push_dec(&mut r, *total as u64);
            r.append(" }");
            r
        },
        Verdict::NoRoute => "None".to_owned(),
    }
}

/// One task.
pub open spec fn task_json(t: HealthView) -> Seq<char> {
    "{\"name\":\""@ + t.name + "\",\"registered\":"@ + bool_words(t.registered)
        + ",\"last_result\":"@ + (match t.last_result {
        Some(r) => text::dec_int(r as int),
        None => "null"@,
    }) + "}"@
}

pub open spec fn tasks_json(v: Seq<HealthView>) -> Seq<char> {
    text::join(v.map_values(|t: HealthView| task_json(t)), ","@)
}

/// The health of the tasks, as plain values.
pub open spec fn health_views(v: Seq<TaskHealth>) -> Seq<HealthView> {
    v.map_values(|t: TaskHealth| t@)
}

fn task_text(t: &TaskHealth) -> (r: String)
    ensures
        r@ == task_json(t@),
{
    let mut r = "{\"name\":\"".to_owned();
    r.append(t.name.as_str());
    r.append("\",\"registered\":");
    r.append(bool_text(t.registered));
    r.append(",\"last_result\":");
    match t.last_result {
        Some(code) => {
            text::push_dec_int(&mut r, code as i64);
        },
        None => {
            r.append("null");
        },
    }
    r.append("}");
    r
}

fn tasks_text(v: &Vec<TaskHealth>) -> (r: String)
    ensures
        r@ == tasks_json(health_views(v@)),
{
    let ghost want = health_views(v@).map_values(|t: HealthView| task_json(t));
    let mut parts: Vec<String> = Vec::new();
    let mut i: usize = 0;
    while i < v.len()
        invariant
            i <= v.len(),
            want == health_views(v@).map_values(|t: HealthView| task_json(t)),
            parts@.len() == i,
            forall|k: int| 0 <= k < i ==> (#[trigger] parts@[k])@ == want[k],
        decreases v.len() - i,
    {
        parts.push(task_text(&v[i]));
        i = i + 1;
    }
    assert(text::views(parts@) =~= want);
    text::join_text(&parts, ",")
}

/// A string, or `null`.
pub open spec fn maybe_json(s: Option<Seq<char>>) -> Seq<char> {
    match s {
        Some(s) => json_text(s),
        None => "null"@,
    }
}

/// The name of the network, as far as one is known.
pub open spec fn ssid_of(w: Option<WifiStatusView>) -> Option<Seq<char>> {
    match w {
        Some(w) => w.ssid,
        None => None,
    }
}

// --- what was seen -----------------------------------------------------------------------

/// What was read of one of the two links.
#[derive(Debug)]
pub struct Reading {
    /// Its IPv4 metric, if it has one.
    pub metric: Option<MetricState>,
    pub binding: Result<BindingState, BindError>,
    /// What there is to warn about.
    pub warning: Option<String>,
}

#[verifier::ext_equal]
pub struct ReadingView {
    pub metric: Option<MetricState>,
    pub binding: Result<BindingState, BindErrorView>,
    pub warning: Option<Seq<char>>,
}

impl View for Reading {
    type V = ReadingView;

    open spec fn view(&self) -> ReadingView {
        ReadingView {
            metric: self.metric,
            binding: match self.binding {
                Ok(b) => Ok(b),
                Err(e) => Err(e@),
            },
            warning: text_view(self.warning),
        }
    }
}

/// Everything a status is made of.
#[derive(Debug)]
pub struct Seen {
    pub version: String,
    pub installed: bool,
    pub elevated: bool,
    pub snap: Snapshot,
    pub cfg: MachineConfig,
    pub journal: Journal,
    pub wifi_status: Option<WifiStatus>,
    pub policy: PolicyState,
    pub health: Vec<TaskHealth>,
    /// Of the links that [`Targets::resolve`] gives.
    pub ethernet: Reading,
    pub wifi: Reading,
}

/// A Wi-Fi status that may be absent, as plain values.
pub open spec fn status_view(w: Option<WifiStatus>) -> Option<WifiStatusView> {
    match w {
        Some(w) => Some(w@),
        None => None,
    }
}

/// One of the two links, if it was found.
pub open spec fn link_of(seen: Seen, kind: NicKind) -> Option<NicView> {
    let nics = nic_views(seen.snap.nics@);
    let saved = match kind {
        NicKind::Ethernet => seen.cfg@.ethernet,
        _ => seen.cfg@.wifi,
    };
    match target(saved, kind, nics) {
        Some(i) => Some(nics[i]),
        None => None,
    }
}

pub open spec fn luid_of(n: Option<NicView>) -> Option<LuidKey> {
    match n {
        Some(n) => Some(n.luid),
        None => None,
    }
}

/// Who carries the traffic.
pub open spec fn verdict_of(seen: Seen) -> Verdict {
    verdict_on(
        seen.snap.routes@,
        luid_of(link_of(seen, NicKind::Ethernet)),
        luid_of(link_of(seen, NicKind::Wifi)),
    )
}

/// The status as JSON.
pub open spec fn status_json(seen: Seen) -> Seq<char> {
    "{\n  \"version\": \""@ + seen.version@ + "\",\n  \"installed\": "@ + bool_words(
        seen.installed,
    ) + ",\n  \"elevated\": "@ + bool_words(seen.elevated) + ",\n  \"ethernet\": "@ + nic_json(
        link_of(seen, NicKind::Ethernet),
    ) + ",\n  \"wifi\": "@ + nic_json(link_of(seen, NicKind::Wifi)) + ",\n  \"verdict\": \""@
        + verdict_json(verdict_of(seen)) + "\",\n  \"wifi_ssid\": "@ + maybe_json(
        ssid_of(status_view(seen.wifi_status)),
    ) + ",\n  \"wcm_policy\": \""@ + seen.policy.policy.debug_words()
        + "\",\n  \"wcm_is_group_policy\": "@ + bool_words(seen.policy.is_group_policy)
        + ",\n  \"journal_mode\": \""@ + seen.journal@.mode.name()
        + "\",\n  \"journal_torn\": "@ + bool_words(seen.journal@.torn()) + ",\n  \"tasks\": ["@
        + tasks_json(health_views(seen.health@)) + "]\n}\n"@
}

fn print_json(seen: &Seen, eth: Option<&Nic>, wifi: Option<&Nic>, verdict: &Verdict) -> (r: String)
    requires
        nic_view(eth) == link_of(*seen, NicKind::Ethernet),
        nic_view(wifi) == link_of(*seen, NicKind::Wifi),
        *verdict == verdict_of(*seen),
    ensures
        r@ == status_json(*seen),
{
    let mut r = "{\n  \"version\": \"".to_owned();
    r.append(seen.version.as_str());
    r.append("\",\n  \"installed\": ");
    r.append(bool_text(seen.installed));
    r.append(",\n  \"elevated\": ");
    r.append(bool_text(seen.elevated));
    r.append(",\n  \"ethernet\": ");
    r.append(nic_text(eth).as_str());
    r.append(",\n  \"wifi\": ");
    r.append(nic_text(wifi).as_str());
    r.append(",\n  \"verdict\": \"");
    r.append(verdict_text(verdict).as_str());
    r.append("\",\n  \"wifi_ssid\": ");
    let ssid = match &seen.wifi_status {
        Some(w) => match &w.ssid {
            Some(s) => quoted_text(s.as_str()),
            None => "null".to_owned(),
        },
        None => "null".to_owned(),
    };
    r.append(ssid.as_str());
    r.append(",\n  \"wcm_policy\": \"");
    r.append(seen.policy.policy.debug_text().as_str());
    r.append("\",\n  \"wcm_is_group_policy\": ");
    r.append(bool_text(seen.policy.is_group_policy));
    r.append(",\n  \"journal_mode\": \"");
    r.append(seen.journal.mode.as_str());
    r.append("\",\n  \"journal_torn\": ");
    r.append(bool_text(seen.journal.is_torn()));
    r.append(",\n  \"tasks\": [");
    r.append(tasks_text(&seen.health).as_str());
    r.append("]\n}\n");
    r
}

// --- words -------------------------------------------------------------------------------

/// Whether a link is up, in words.
pub open spec fn state_words(n: NicView) -> Seq<char> {
    if !n.media_connected {
        if n.kind == NicKind::Ethernet {
            "cable unplugged"@
        } else {
            "not connected"@
        }
    } else if n.ipv4.len() > 0 {
        n.ipv4[0].display()
    } else {
        "no address"@
    }
}

/// A metric in words.
pub open spec fn metric_words(m: Option<MetricState>) -> Seq<char> {
    match m {
        Some(s) => "metric "@ + text::dec(s.metric as nat) + if s.automatic {
            " (automatic)"@
        } else {
            " (pinned)"@
        },
        None => "no IPv4"@,
    }
}

/// The line about one link.
pub open spec fn link_line(label: Seq<char>, n: Option<NicView>, m: Option<MetricState>) -> Seq<
    char,
> {
    match n {
        Some(n) => "  "@ + text::padded(label, 17) + " "@ + n.label() + " - "@ + state_words(n)
            + ", "@ + metric_words(m) + "\n"@,
        None => "  "@ + text::padded(label, 17) + " not found\n"@,
    }
}

fn push_link(out: &mut String, label: &str, n: Option<&Nic>, m: Option<MetricState>)
    ensures
        final(out)@ == old(out)@ + link_line(label@, nic_view(n), m),
{
    let mut r = "  ".to_owned();
    text::push_padded(&mut r, label, 17);
    match n {
        Some(n) => {
            r.append(" ");
            r.append(n.label());
            r.append(" - ");
            if !n.media_connected {
                if n.kind == NicKind::Ethernet {
                    r.append("cable unplugged");
                } else {
                    r.append("not connected");
                }
            } else if n.ipv4.len() > 0 {
                r.append(n.ipv4[0].to_text().as_str());
            } else {
                r.append("no address");
            }
            r.append(", ");
            match m {
                Some(s) => {
                    let mut w = "metric ".to_owned();
                    text::push_dec(&mut w, s.metric as u64);
                    if s.automatic {
                        w.append(" (automatic)");
                    } else {
                        w.append(" (pinned)");
                    }
                    r.append(w.as_str());
                },
                None => {
                    r.append("no IPv4");
                },
            }
            r.append("\n");
        },
        None => {
            r.append(" not found\n");
        },
    }
    out.append(r.as_str());
}

/// The line about the Wi-Fi connection, if there is anything to say.
pub open spec fn wifi_line(w: Option<WifiStatusView>) -> Seq<char> {
    match w {
        Some(w) => if w.connected {
            "                    connected to \""@ + (match w.ssid {
                Some(s) => s,
                None => "?"@,
            }) + "\" ("@ + text::dec(
                match w.signal_quality {
                    Some(q) => q as nat,
                    None => 0,
                },
            ) + "%)\n"@
        } else if !w.radio_on {
            "                    radio is off\n"@
        } else {
            ""@
        },
        None => ""@,
    }
}

fn push_wifi(out: &mut String, w: &Option<WifiStatus>)
    ensures
        final(out)@ == old(out)@ + wifi_line(status_view(*w)),
{
    let mut r = String::new();
    if let Some(w) = w {
        if w.connected {
            r = "                    connected to \"".to_owned();
            match &w.ssid {
                Some(s) => r.append(s.as_str()),
                None => r.append("?"),
            }
            r.append("\" (");
            let quality: u32 = match w.signal_quality {
                Some(q) => q,
                None => 0,
            };
            text::push_dec(&mut r, quality as u64);
            r.append("%)\n");
        } else if !w.radio_on {
            r = "                    radio is off\n".to_owned();
        }
    }
    out.append(r.as_str());
    proof {
        reveal_strlit("");
        assert(r@ =~= wifi_line(status_view(*w)));
    }
}

/// The lines about the IP stack of one link, if the link was found.
pub open spec fn stack_lines(label: Seq<char>, found: bool, r: ReadingView) -> Seq<char> {
    if !found {
        ""@
    } else {
        match r.binding {
            Ok(b) => "  "@ + text::padded(label, 17) + " IPv4 "@ + (if b.v4 {
                "bound"@
            } else {
                "UNBOUND"@
            }) + "  IPv6 "@ + (if b.v6 {
                "bound"@
            } else {
                "unbound"@
            }) + "\n"@ + (match r.warning {
                Some(w) => "                    note: "@ + w + "\n"@,
                None => ""@,
            }),
            Err(e) => "  "@ + text::padded(label, 17) + " unreadable - "@ + e.message() + "\n"@,
        }
    }
}

fn push_stack(out: &mut String, label: &str, found: bool, reading: &Reading)
    ensures
        final(out)@ == old(out)@ + stack_lines(label@, found, reading@),
{
    if !found {
        out.append("");
        return ;
    }
    let mut r = "  ".to_owned();
    text::push_padded(&mut r, label, 17);
    match &reading.binding {
        Ok(b) => {
            r.append(" IPv4 ");
            if b.v4 {
                r.append("bound");
            } else {
                r.append("UNBOUND");
            }
            r.append("  IPv6 ");
            if b.v6 {
                r.append("bound");
            } else {
                r.append("unbound");
            }
            r.append("\n");
            match &reading.warning {
                Some(w) => {
                    let mut note = "                    note: ".to_owned();
                    note.append(w.as_str());
                    note.append("\n");
                    r.append(note.as_str());
                },
                None => {
                    r.append("");
                },
            }
        },
        Err(e) => {
            r.append(" unreadable - ");
            r.append(e.user_message().as_str());
            r.append("\n");
        },
    }
    out.append(r.as_str());
}

/// Who carries the traffic, in words.
pub open spec fn verdict_words(v: Verdict, nics: Seq<NicView>) -> Seq<char> {
    match v {
        Verdict::Ethernet { total } => "Ethernet (total metric "@ + text::dec(total as nat) + ")"@,
        Verdict::Wifi { total } => "Wi-Fi (total metric "@ + text::dec(total as nat) + ")"@,
        Verdict::Hijacked { luid, if_index, total } => (match nic_at(nics, luid, 0) {
            Some(i) => nics[i].label(),
            None => "interface "@ + text::dec(if_index as nat),
        }) + " - a VPN or tunnel holds the default route (total metric "@ + text::dec(total as nat)
            + ")"@,
        Verdict::NoRoute => "nothing - no default route"@,
    }
}

/// Who carries the traffic, in words.
pub fn describe_verdict(v: &Verdict, snap: &Snapshot) -> (r: String)
    ensures
        r@ == verdict_words(*v, nic_views(snap.nics@)),
{
    match v {
        Verdict::Ethernet { total } => {
            let mut r = "Ethernet (total metric ".to_owned();
            text::push_dec(&mut r, *total as u64);
            r.append(")");
            r
        },
        Verdict::Wifi { total } => {
            let mut r = "Wi-Fi (total metric ".to_owned();
            text::push_dec(&mut r, *total as u64);
            r.append(")");
            r
        },
        Verdict::Hijacked { luid, if_index, total } => {
            let mut r = match snap.nic(*luid) {
                Some(n) => n.label().to_owned(),
                None => {
                    let mut name = "interface ".to_owned();
                    text::push_dec(&mut name, *if_index as u64);
                    name
                },
            };
            r.append(" - a VPN or tunnel holds the default route (total metric ");
            text::push_dec(&mut r, *total as u64);
            r.append(")");
            r
        },
        Verdict::NoRoute => "nothing - no default route".to_owned(),
    }
}

/// The status in words.
pub open spec fn status_words(seen: Seen) -> Seq<char> {
    let eth = link_of(seen, NicKind::Ethernet);
    let wifi = link_of(seen, NicKind::Wifi);
    "LinkSwitch "@ + seen.version@ + "\n  installed:        "@ + (if seen.installed {
        "yes"@
    } else {
        "no  (run `linkswitch --install`)"@
    }) + "\n"@ + link_line("ethernet:"@, eth, seen.ethernet.metric) + link_line(
        "wi-fi:"@,
        wifi,
        seen.wifi.metric,
    ) + wifi_line(status_view(seen.wifi_status)) + stack_lines(
        "ethernet ip stack:"@,
        eth is Some,
        seen.ethernet@,
    ) + stack_lines("wi-fi ip stack:"@, wifi is Some, seen.wifi@) + "  carrying traffic: "@
        + verdict_words(verdict_of(seen), nic_views(seen.snap.nics@))
        + "\n  windows policy:   "@ + seen.policy.policy.words() + "\n"@ + (
    if seen.policy.is_group_policy {
        "                    (set by Group Policy)\n"@
    } else {
        ""@
    }) + (if seen.journal@.torn() {
        "  WARNING: a previous switch was interrupted; run `linkswitch --recover`.\n"@
    } else {
        ""@
    })
}

fn print_words(seen: &Seen, eth: Option<&Nic>, wifi: Option<&Nic>, verdict: &Verdict) -> (r: String)
    requires
        nic_view(eth) == link_of(*seen, NicKind::Ethernet),
        nic_view(wifi) == link_of(*seen, NicKind::Wifi),
        *verdict == verdict_of(*seen),
    ensures
        r@ == status_words(*seen),
{
    let mut r = "LinkSwitch ".to_owned();
    r.append(seen.version.as_str());
    r.append("\n  installed:        ");
    if seen.installed {
        r.append("yes");
    } else {
        r.append("no  (run `linkswitch --install`)");
    }
    r.append("\n");
    push_link(&mut r, "ethernet:", eth, seen.ethernet.metric);
    push_link(&mut r, "wi-fi:", wifi, seen.wifi.metric);
    push_wifi(&mut r, &seen.wifi_status);
    push_stack(&mut r, "ethernet ip stack:", eth.is_some(), &seen.ethernet);
    push_stack(&mut r, "wi-fi ip stack:", wifi.is_some(), &seen.wifi);
    r.append("  carrying traffic: ");
    r.append(describe_verdict(verdict, &seen.snap).as_str());
    r.append("\n  windows policy:   ");
    r.append(seen.policy.policy.describe());
    r.append("\n");
    if seen.policy.is_group_policy {
        r.append("                    (set by Group Policy)\n");
    } else {
        r.append("");
    }
    if seen.journal.is_torn() {
        r.append("  WARNING: a previous switch was interrupted; run `linkswitch --recover`.\n");
    } else {
        r.append("");
    }
    r
}

/// What `--status` prints.
pub fn print_status(json: bool, seen: &Seen) -> (r: String)
    ensures
        r@ == if json {
            status_json(*seen)
        } else {
            status_words(*seen)
        },
{
    let targets = Targets::resolve(&seen.cfg, &seen.snap);
    let eth_luid = match targets.eth {
        Some(n) => Some(n.luid),
        None => None,
    };
    let wifi_luid = match targets.wifi {
        Some(n) => Some(n.luid),
        None => None,
    };
    proof {
        assert(nic_view(targets.eth) == link_of(*seen, NicKind::Ethernet));
        assert(nic_view(targets.wifi) == link_of(*seen, NicKind::Wifi));
    }
    let verdict = seen.snap.verdict(eth_luid, wifi_luid);
    if json {
        print_json(seen, targets.eth, targets.wifi, &verdict)
    } else {
        print_words(seen, targets.eth, targets.wifi, &verdict)
    }
}

// --- reading it back ---------------------------------------------------------------------

/// A JSON string read back: a backslash stands for the character behind it.
pub open spec fn json_read(s: Seq<char>) -> Seq<char>
    decreases s.len(),
{
    if s.len() == 0 {
        Seq::empty()
    } else if s[0] == '\\' && s.len() > 1 {
        seq![s[1]] + json_read(s.subrange(2, s.len() as int))
    } else {
        seq![s[0]] + json_read(s.subrange(1, s.len() as int))
    }
}

proof fn lemma_escaped_front(s: Seq<char>)
    requires
        s.len() > 0,
    ensures
        json_escaped(s) == json_char(s[0]) + json_escaped(s.subrange(1, s.len() as int)),
    decreases s.len(),
{
    let rest = s.subrange(1, s.len() as int);
    if s.len() == 1 {
        assert(s.drop_last() =~= Seq::empty());
        assert(rest =~= Seq::empty());
        assert(json_escaped(s) =~= json_char(s[0]) + json_escaped(rest));
    } else {
        lemma_escaped_front(s.drop_last());
        assert(s.drop_last().subrange(1, s.len() - 1) =~= rest.drop_last());
        assert(rest.last() == s.last());
        assert(json_escaped(s) =~= json_char(s[0]) + json_escaped(rest));
    }
}

/// A name in the JSON status reads back as the name it was, whatever backslashes and quotation
/// marks are in it.
pub proof fn json_text_reads_back(s: Seq<char>)
    ensures
        json_read(json_escaped(s)) == s,
    decreases s.len(),
{
    if s.len() > 0 {
        let rest = s.subrange(1, s.len() as int);
        let all = json_escaped(s);
        lemma_escaped_front(s);
        json_text_reads_back(rest);
        reveal_strlit("\\\\");
        reveal_strlit("\\\"");
        let n = json_char(s[0]).len() as int;
        assert(all.subrange(n, all.len() as int) =~= json_escaped(rest));
        assert(all[0] == json_char(s[0])[0]);
        if n == 2 {
            assert(all[1] == json_char(s[0])[1]);
        }
        assert(json_read(all) =~= seq![s[0]] + rest);
        assert(s =~= seq![s[0]] + rest);
    }
}

} // verus!
