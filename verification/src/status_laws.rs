//! What holds of a status: what was seen is in it.
use vstd::prelude::*;
use vstd::string::*;

use crate::apply::mode_laws::{is_managed, the_managed_adapter_is_found};
use crate::config::mac_text;
use crate::net::adapters::{is_ranking, nic_views, Ipv4Addr, NicKind, NicView};
use crate::net::laws::a_luid_finds_its_adapter;
use crate::net::luid::LuidKey;
use crate::net::metric::MetricState;
use crate::net::routes::Verdict;
use crate::net::wifi::WifiStatusView;
use crate::status::{
    addresses_json, json_text, link_line, link_of, nic_json, stack_lines, status_json,
    status_view, status_words, task_json, tasks_json, verdict_json, verdict_of, verdict_words,
    wifi_line, ReadingView, Seen,
};
use crate::tasks::HealthView;
use crate::text;
use crate::text_laws::a_joined_item_is_there;

verus! {

// --- the two links -----------------------------------------------------------------------

/// The links of a status are those that a switch would work on.
pub proof fn a_status_shows_the_managed_links(seen: Seen, wired: Seq<int>, wireless: Seq<int>)
    requires
        is_ranking(nic_views(seen.snap.nics@), NicKind::Ethernet, wired),
        is_ranking(nic_views(seen.snap.nics@), NicKind::Wifi, wireless),
    ensures
        ({
            let nics = nic_views(seen.snap.nics@);
            &&& link_of(seen, NicKind::Ethernet) matches Some(n) ==> exists|i: int|
                0 <= i < nics.len() && #[trigger] nics[i] == n && is_managed(
                    seen.cfg@.ethernet,
                    NicKind::Ethernet,
                    nics,
                    Some(i),
                )
            &&& link_of(seen, NicKind::Ethernet) is None ==> is_managed(
                seen.cfg@.ethernet,
                NicKind::Ethernet,
                nics,
                None,
            )
            &&& link_of(seen, NicKind::Wifi) matches Some(n) ==> exists|i: int|
                0 <= i < nics.len() && #[trigger] nics[i] == n && is_managed(
                    seen.cfg@.wifi,
                    NicKind::Wifi,
                    nics,
                    Some(i),
                )
            &&& link_of(seen, NicKind::Wifi) is None ==> is_managed(
                seen.cfg@.wifi,
                NicKind::Wifi,
                nics,
                None,
            )
        }),
{
    let nics = nic_views(seen.snap.nics@);
    the_managed_adapter_is_found(seen.cfg@.ethernet, NicKind::Ethernet, nics, wired);
    the_managed_adapter_is_found(seen.cfg@.wifi, NicKind::Wifi, nics, wireless);
    if let Some(i) = crate::apply::target(seen.cfg@.ethernet, NicKind::Ethernet, nics) {
        assert(nics[i] == link_of(seen, NicKind::Ethernet)->0);
    }
    if let Some(i) = crate::apply::target(seen.cfg@.wifi, NicKind::Wifi, nics) {
        assert(nics[i] == link_of(seen, NicKind::Wifi)->0);
    }
}

// --- lines -------------------------------------------------------------------------------

/// The line of a link that is there holds its name, its address where it is connected and has one
/// and else what is wrong, and its metric with whether that is automatic. That of a link that is
/// not there says so.
pub proof fn a_link_line_tells_the_state(label: Seq<char>, n: NicView, m: Option<MetricState>)
    ensures
        ({
            let said = link_line(label, Some(n), m);
            &&& text::contains(link_line(label, None, m), " not found\n"@)
            &&& n.friendly_name.len() > 0 ==> text::contains(said, n.friendly_name)
            &&& n.friendly_name.len() == 0 ==> text::contains(said, n.description)
            &&& n.media_connected && n.ipv4.len() > 0 ==> text::contains(
                said,
                " - "@ + n.ipv4[0].display(),
            )
            &&& n.media_connected && n.ipv4.len() == 0 ==> text::contains(
                said,
                " - "@ + "no address"@,
            )
            &&& !n.media_connected && n.kind is Ethernet ==> text::contains(
                said,
                " - "@ + "cable unplugged"@,
            )
            &&& !n.media_connected && n.kind !is Ethernet ==> text::contains(
                said,
                " - "@ + "not connected"@,
            )
            &&& m is None ==> text::contains(said, ", "@ + "no IPv4"@)
            &&& m matches Some(s) ==> text::contains(
                said,
                ", "@ + ("metric "@ + text::dec(s.metric as nat) + if s.automatic {
                    " (automatic)"@
                } else {
                    " (pinned)"@
                }),
            )
        }),
{
    let said = link_line(label, Some(n), m);
    let a = "  "@ + text::padded(label, 17);
    let b = a + " "@ + n.label();
    let state = crate::status::state_words(n);
    let c = b + " - "@ + state;
    let metric = crate::status::metric_words(m);
    text::lemma_itself(said);
    text::lemma_piece(c + ", "@ + metric, "\n"@, said);
    text::lemma_field(c, ", "@, metric, said);
    text::lemma_field(b, " - "@, state, said);
    text::lemma_piece(a + " "@, n.label(), said);
    let none = link_line(label, None, m);
    text::lemma_itself(none);
    text::lemma_piece(a, " not found\n"@, none);
}

/// The line of the Wi-Fi names the network and the signal of a connection; without one it says only
/// that the radio is off, where it is.
pub proof fn a_wifi_line_tells_of_the_connection(w: WifiStatusView)
    ensures
        wifi_line(None).len() == 0,
        !w.connected && w.radio_on ==> wifi_line(Some(w)).len() == 0,
        !w.connected && !w.radio_on ==> text::contains(wifi_line(Some(w)), "radio is off"@),
        w.connected ==> (w.ssid matches Some(s) ==> text::contains(wifi_line(Some(w)), s)),
        w.connected ==> (w.signal_quality matches Some(q) ==> text::contains(
            wifi_line(Some(w)),
            "\" ("@ + text::dec(q as nat),
        )),
{
    let said = wifi_line(Some(w));
    reveal_strlit("");
    text::lemma_itself(said);
    if w.connected {
        let ssid = if w.ssid is Some {
            w.ssid->0
        } else {
            "?"@
        };
        let quality: nat = if w.signal_quality is Some {
            (w.signal_quality->0) as nat
        } else {
            0
        };
        let a = "                    connected to \""@;
        text::lemma_piece(a + ssid + "\" ("@ + text::dec(quality), "%)\n"@, said);
        text::lemma_field(a + ssid, "\" ("@, text::dec(quality), said);
        text::lemma_piece(a, ssid, said);
    } else if !w.radio_on {
        reveal_strlit("                    radio is off\n");
        reveal_strlit("radio is off");
        assert(said.subrange(20, 32) =~= "radio is off"@);
        assert(text::occurs_at(said, "radio is off"@, 20));
    }
}

/// The line of an IP stack says of either family whether it is bound, and carries the warning; where
/// it could not be read it says why. Of a link that was not found there is none.
pub proof fn a_stack_line_tells_what_is_bound(label: Seq<char>, r: ReadingView)
    ensures
        ({
            let said = stack_lines(label, true, r);
            &&& stack_lines(label, false, r).len() == 0
            &&& r.binding matches Ok(b) ==> text::contains(
                said,
                " IPv4 "@ + if b.v4 {
                    "bound"@
                } else {
                    "UNBOUND"@
                },
            )
            &&& r.binding matches Ok(b) ==> text::contains(
                said,
                "  IPv6 "@ + if b.v6 {
                    "bound"@
                } else {
                    "unbound"@
                },
            )
            &&& r.binding is Ok && r.warning is Some ==> text::contains(said, r.warning->0)
            &&& r.binding matches Err(e) ==> text::contains(said, " unreadable - "@ + e.message())
        }),
{
    let said = stack_lines(label, true, r);
    reveal_strlit("");
    text::lemma_itself(said);
    let a = "  "@ + text::padded(label, 17);
    match r.binding {
        Ok(b) => {
            let four = if b.v4 {
                "bound"@
            } else {
                "UNBOUND"@
            };
            let six = if b.v6 {
                "bound"@
            } else {
                "unbound"@
            };
            let c = a + " IPv4 "@ + four;
            let d = c + "  IPv6 "@ + six;
            let e = d + "\n"@;
            match r.warning {
                Some(w) => {
                    let note = "                    note: "@;
                    assert(e + (note + w + "\n"@) =~= e + note + w + "\n"@);
                    text::lemma_piece(e + note + w, "\n"@, said);
                    text::lemma_piece(e + note, w, said);
                    text::lemma_piece(e, note, said);
                },
                None => {
                    text::lemma_piece(e, ""@, said);
                },
            }
            text::lemma_piece(d, "\n"@, said);
            text::lemma_field(c, "  IPv6 "@, six, said);
            text::lemma_field(a, " IPv4 "@, four, said);
        },
        Err(e) => {
            text::lemma_piece(a + " unreadable - "@ + e.message(), "\n"@, said);
            text::lemma_field(a, " unreadable - "@, e.message(), said);
        },
    }
}

/// The verdict in words begins with who carries the traffic, and holds the total. A tunnel goes by
/// the name of its adapter where that is known.
pub proof fn a_verdict_names_the_carrier(
    luid: LuidKey,
    if_index: u32,
    total: u32,
    nics: Seq<NicView>,
    i: int,
)
    requires
        0 <= i < nics.len(),
    ensures
        verdict_words(Verdict::Ethernet { total }, nics) == "Ethernet (total metric "@ + text::dec(
            total as nat,
        ) + ")"@,
        verdict_words(Verdict::Wifi { total }, nics) == "Wi-Fi (total metric "@ + text::dec(
            total as nat,
        ) + ")"@,
        verdict_words(Verdict::NoRoute, nics) == "nothing - no default route"@,
        ({
            let said = verdict_words(Verdict::Hijacked { luid, if_index, total }, nics);
            &&& nics[i].luid == luid && (forall|j: int|
                0 <= j < i ==> (#[trigger] nics[j]).luid != luid) ==> text::occurs_at(
                said,
                nics[i].label(),
                0,
            )
            &&& (forall|j: int| 0 <= j < nics.len() ==> (#[trigger] nics[j]).luid != luid)
                ==> text::occurs_at(said, "interface "@ + text::dec(if_index as nat), 0)
            &&& text::contains(said, "(total metric "@ + text::dec(total as nat) + ")"@)
        }),
{
    a_luid_finds_its_adapter(nics, luid, 0);
    let said = verdict_words(Verdict::Hijacked { luid, if_index, total }, nics);
    let name = match crate::net::nic_at(nics, luid, 0) {
        Some(i) => nics[i].label(),
        None => "interface "@ + text::dec(if_index as nat),
    };
    assert(said.subrange(0, name.len() as int) =~= name);
    let middle = " - a VPN or tunnel holds the default route (total metric "@;
    let tail = "(total metric "@ + text::dec(total as nat) + ")"@;
    reveal_strlit(" - a VPN or tunnel holds the default route (total metric ");
    reveal_strlit("(total metric ");
    let at = name.len() + middle.len() - "(total metric "@.len();
    assert(said.subrange(at, at + tail.len()) =~= tail);
    assert(text::occurs_at(said, tail, at));
}

/// The status in words holds the line of either link with the metric that was read of it, of the
/// Wi-Fi, of either IP stack, who carries the traffic, and the policy.
#[verifier::spinoff_prover]
#[verifier::rlimit(60)]
pub proof fn a_status_tells_what_was_seen(seen: Seen)
    ensures
        ({
            let said = status_words(seen);
            let eth = link_of(seen, NicKind::Ethernet);
            let wifi = link_of(seen, NicKind::Wifi);
            &&& text::contains(
                said,
                "\n  installed:        "@ + if seen.installed {
                    "yes"@
                } else {
                    "no  (run `linkswitch --install`)"@
                },
            )
            &&& text::contains(said, link_line("ethernet:"@, eth, seen.ethernet.metric))
            &&& text::contains(said, link_line("wi-fi:"@, wifi, seen.wifi.metric))
            &&& text::contains(said, wifi_line(status_view(seen.wifi_status)))
            &&& text::contains(
                said,
                stack_lines("ethernet ip stack:"@, eth is Some, seen.ethernet@),
            )
            &&& text::contains(said, stack_lines("wi-fi ip stack:"@, wifi is Some, seen.wifi@))
            &&& text::contains(
                said,
                "  carrying traffic: "@ + verdict_words(
                    verdict_of(seen),
                    nic_views(seen.snap.nics@),
                ),
            )
            &&& text::contains(said, "\n  windows policy:   "@ + seen.policy.policy.words())
            &&& seen.policy.is_group_policy ==> text::contains(
                said,
                "                    (set by Group Policy)\n"@,
            )
        }),
{
    let said = status_words(seen);
    let eth = link_of(seen, NicKind::Ethernet);
    let wifi = link_of(seen, NicKind::Wifi);
    let installed = if seen.installed {
        "yes"@
    } else {
        "no  (run `linkswitch --install`)"@
    };
    let group = if seen.policy.is_group_policy {
        "                    (set by Group Policy)\n"@
    } else {
        ""@
    };
    let warning = if seen.journal@.torn() {
        "  WARNING: a previous switch was interrupted; run `linkswitch --recover`.\n"@
    } else {
        ""@
    };
    let a = "LinkSwitch "@ + seen.version@;
    let b = a + "\n  installed:        "@ + installed;
    let c = b + "\n"@;
    let d = c + link_line("ethernet:"@, eth, seen.ethernet.metric);
    let e = d + link_line("wi-fi:"@, wifi, seen.wifi.metric);
    let f = e + wifi_line(status_view(seen.wifi_status));
    let g = f + stack_lines("ethernet ip stack:"@, eth is Some, seen.ethernet@);
    let h = g + stack_lines("wi-fi ip stack:"@, wifi is Some, seen.wifi@);
    let verdict = verdict_words(verdict_of(seen), nic_views(seen.snap.nics@));
    let i = h + "  carrying traffic: "@ + verdict;
    let j = i + "\n  windows policy:   "@ + seen.policy.policy.words();
    let k = j + "\n"@;
    let l = k + group;
    text::lemma_itself(said);
    text::lemma_piece(l, warning, said);
    text::lemma_piece(k, group, said);
    text::lemma_piece(j, "\n"@, said);
    text::lemma_field(i, "\n  windows policy:   "@, seen.policy.policy.words(), said);
    text::lemma_field(h, "  carrying traffic: "@, verdict, said);
    text::lemma_piece(g, stack_lines("wi-fi ip stack:"@, wifi is Some, seen.wifi@), said);
    text::lemma_piece(f, stack_lines("ethernet ip stack:"@, eth is Some, seen.ethernet@), said);
    text::lemma_piece(e, wifi_line(status_view(seen.wifi_status)), said);
    text::lemma_piece(d, link_line("wi-fi:"@, wifi, seen.wifi.metric), said);
    text::lemma_piece(c, link_line("ethernet:"@, eth, seen.ethernet.metric), said);
    text::lemma_piece(b, "\n"@, said);
    text::lemma_field(a, "\n  installed:        "@, installed, said);
}

/// The status warns of an interrupted switch where the journal has one under way with something to
/// undo: with any other journal it is the same but for that warning.
pub proof fn an_interrupted_switch_is_warned_of(torn: Seen, whole: Seen)
    requires
        torn == (Seen { journal: torn.journal, ..whole }),
        torn.journal@.in_flight,
        torn.journal@.restore.len() > 0 || torn.journal@.bindings.len() > 0,
        !whole.journal@.in_flight || (whole.journal@.restore.len() == 0
            && whole.journal@.bindings.len() == 0),
    ensures
        status_words(torn) == status_words(whole)
            + "  WARNING: a previous switch was interrupted; run `linkswitch --recover`.\n"@,
{
    reveal_strlit("");
    let warning = "  WARNING: a previous switch was interrupted; run `linkswitch --recover`.\n"@;
    assert(status_words(torn) =~= status_words(whole) + warning);
}

// --- JSON --------------------------------------------------------------------------------

/// A flag as JSON spells it.
pub open spec fn spelled_flag(b: bool) -> Seq<char> {
    if b {
        "true"@
    } else {
        "false"@
    }
}

/// The JSON of an adapter holds its name, index, address and state, each under its key.
pub proof fn an_adapter_is_spelled_out(n: NicView)
    ensures
        ({
            let said = nic_json(Some(n));
            &&& nic_json(None) == "null"@
            &&& text::contains(
                said,
                "{\"name\":"@ + json_text(
                    if n.friendly_name.len() > 0 {
                        n.friendly_name
                    } else {
                        n.description
                    },
                ),
            )
            &&& text::contains(said, ",\"if_index\":"@ + text::dec(n.if_index as nat))
            &&& text::contains(said, ",\"luid\":\""@ + n.luid.display())
            &&& n.permanent_mac is None ==> text::contains(
                said,
                "\",\"permanent_mac\":"@ + "null"@,
            )
            &&& n.permanent_mac is Some ==> text::contains(
                said,
                "\",\"permanent_mac\":"@ + ("\""@ + mac_text(n.permanent_mac->0) + "\""@),
            )
            &&& text::contains(said, ",\"up\":"@ + spelled_flag(n.oper_up))
            &&& text::contains(said, ",\"media_connected\":"@ + spelled_flag(n.media_connected))
            &&& text::contains(said, ",\"ipv4\":"@ + addresses_json(n.ipv4))
        }),
{
    let said = nic_json(Some(n));
    let name = json_text(n.label());
    let mac = match n.permanent_mac {
        Some(m) => "\""@ + mac_text(m) + "\""@,
        None => "null"@,
    };
    let a = "{\"name\":"@ + name;
    let b = a + ",\"if_index\":"@ + text::dec(n.if_index as nat);
    let c = b + ",\"luid\":\""@ + n.luid.display();
    let d = c + "\",\"permanent_mac\":"@ + mac;
    let e = d + ",\"up\":"@ + spelled_flag(n.oper_up);
    let f = e + ",\"media_connected\":"@ + spelled_flag(n.media_connected);
    let g = f + ",\"ipv4\":"@ + addresses_json(n.ipv4);
    text::lemma_itself(said);
    text::lemma_piece(g, "}"@, said);
    text::lemma_field(f, ",\"ipv4\":"@, addresses_json(n.ipv4), said);
    text::lemma_field(e, ",\"media_connected\":"@, spelled_flag(n.media_connected), said);
    text::lemma_field(d, ",\"up\":"@, spelled_flag(n.oper_up), said);
    text::lemma_field(c, "\",\"permanent_mac\":"@, mac, said);
    text::lemma_field(b, ",\"luid\":\""@, n.luid.display(), said);
    text::lemma_field(a, ",\"if_index\":"@, text::dec(n.if_index as nat), said);
    assert(Seq::<char>::empty() + a =~= a);
    text::lemma_piece(Seq::<char>::empty(), a, said);
}

/// A task's JSON holds its name, whether it is registered, and its last result.
pub proof fn a_task_is_spelled_out(t: HealthView)
    ensures
        text::contains(task_json(t), "{\"name\":\""@ + t.name),
        text::contains(task_json(t), "\",\"registered\":"@ + spelled_flag(t.registered)),
        t.last_result is None ==> text::contains(task_json(t), ",\"last_result\":"@ + "null"@),
        t.last_result matches Some(r) ==> text::contains(
            task_json(t),
            ",\"last_result\":"@ + text::dec_int(r as int),
        ),
{
    let said = task_json(t);
    let result = match t.last_result {
        Some(r) => text::dec_int(r as int),
        None => "null"@,
    };
    let a = "{\"name\":\""@ + t.name;
    let b = a + "\",\"registered\":"@ + spelled_flag(t.registered);
    text::lemma_itself(said);
    text::lemma_piece(b + ",\"last_result\":"@ + result, "}"@, said);
    text::lemma_field(b, ",\"last_result\":"@, result, said);
    text::lemma_field(a, "\",\"registered\":"@, spelled_flag(t.registered), said);
    assert(Seq::<char>::empty() + a =~= a);
    text::lemma_piece(Seq::<char>::empty(), a, said);
}

/// The status as JSON holds everything that was seen, each under its key.
#[verifier::spinoff_prover]
#[verifier::rlimit(60)]
pub proof fn a_status_is_spelled_out(seen: Seen)
    ensures
        ({
            let said = status_json(seen);
            let w = status_view(seen.wifi_status);
            let j = seen.journal@;
            let torn = j.in_flight && (j.restore.len() > 0 || j.bindings.len() > 0);
            &&& text::contains(said, "{\n  \"version\": \""@ + seen.version@)
            &&& text::contains(said, "\",\n  \"installed\": "@ + spelled_flag(seen.installed))
            &&& text::contains(said, ",\n  \"elevated\": "@ + spelled_flag(seen.elevated))
            &&& text::contains(
                said,
                ",\n  \"ethernet\": "@ + nic_json(link_of(seen, NicKind::Ethernet)),
            )
            &&& text::contains(said, ",\n  \"wifi\": "@ + nic_json(link_of(seen, NicKind::Wifi)))
            &&& text::contains(said, ",\n  \"verdict\": \""@ + verdict_json(verdict_of(seen)))
            &&& w is Some && (w->0).ssid is Some ==> text::contains(
                said,
                "\",\n  \"wifi_ssid\": "@ + json_text((w->0).ssid->0),
            )
            &&& w is None || (w->0).ssid is None ==> text::contains(
                said,
                "\",\n  \"wifi_ssid\": "@ + "null"@,
            )
            &&& text::contains(
                said,
                ",\n  \"wcm_policy\": \""@ + seen.policy.policy.debug_words(),
            )
            &&& text::contains(
                said,
                "\",\n  \"wcm_is_group_policy\": "@ + spelled_flag(seen.policy.is_group_policy),
            )
            &&& text::contains(said, ",\n  \"journal_mode\": \""@ + j.mode.name())
            &&& text::contains(said, "\",\n  \"journal_torn\": "@ + spelled_flag(torn))
            &&& text::contains(
                said,
                ",\n  \"tasks\": ["@ + tasks_json(crate::status::health_views(seen.health@)),
            )
        }),
{
    let said = status_json(seen);
    let ssid = crate::status::maybe_json(
        crate::status::ssid_of(status_view(seen.wifi_status)),
    );
    let tasks = tasks_json(crate::status::health_views(seen.health@));
    let eth = nic_json(link_of(seen, NicKind::Ethernet));
    let wifi = nic_json(link_of(seen, NicKind::Wifi));
    let verdict = verdict_json(verdict_of(seen));
    let policy = seen.policy.policy.debug_words();
    let group = spelled_flag(seen.policy.is_group_policy);
    let torn = spelled_flag(seen.journal@.torn());
    let a = "{\n  \"version\": \""@ + seen.version@;
    let b = a + "\",\n  \"installed\": "@ + spelled_flag(seen.installed);
    let c = b + ",\n  \"elevated\": "@ + spelled_flag(seen.elevated);
    let d = c + ",\n  \"ethernet\": "@ + eth;
    let e = d + ",\n  \"wifi\": "@ + wifi;
    let f = e + ",\n  \"verdict\": \""@ + verdict;
    let g = f + "\",\n  \"wifi_ssid\": "@ + ssid;
    let h = g + ",\n  \"wcm_policy\": \""@ + policy;
    let i = h + "\",\n  \"wcm_is_group_policy\": "@ + group;
    let k = i + ",\n  \"journal_mode\": \""@ + seen.journal@.mode.name();
    let l = k + "\",\n  \"journal_torn\": "@ + torn;
    let m = l + ",\n  \"tasks\": ["@ + tasks;
    text::lemma_itself(said);
    text::lemma_piece(m, "]\n}\n"@, said);
    text::lemma_field(l, ",\n  \"tasks\": ["@, tasks, said);
    text::lemma_field(k, "\",\n  \"journal_torn\": "@, torn, said);
    text::lemma_field(i, ",\n  \"journal_mode\": \""@, seen.journal@.mode.name(), said);
    text::lemma_field(h, "\",\n  \"wcm_is_group_policy\": "@, group, said);
    text::lemma_field(g, ",\n  \"wcm_policy\": \""@, policy, said);
    text::lemma_field(f, "\",\n  \"wifi_ssid\": "@, ssid, said);
    text::lemma_field(e, ",\n  \"verdict\": \""@, verdict, said);
    text::lemma_field(d, ",\n  \"wifi\": "@, wifi, said);
    text::lemma_field(c, ",\n  \"ethernet\": "@, eth, said);
    text::lemma_field(b, ",\n  \"elevated\": "@, spelled_flag(seen.elevated), said);
    text::lemma_field(a, "\",\n  \"installed\": "@, spelled_flag(seen.installed), said);
    assert(Seq::<char>::empty() + a =~= a);
    text::lemma_piece(Seq::<char>::empty(), a, said);
}

/// Every address and every task stands in the list of its kind.
pub proof fn nothing_is_left_out_of_a_list(v: Seq<Ipv4Addr>, tasks: Seq<HealthView>, i: int)
    ensures
        0 <= i < v.len() ==> text::contains(addresses_json(v), "\""@ + v[i].display() + "\""@),
        0 <= i < tasks.len() ==> text::contains(tasks_json(tasks), task_json(tasks[i])),
{
    if 0 <= i < v.len() {
        let items = crate::status::quoted_addresses(v);
        let inside = text::join(items, ", "@);
        let all = addresses_json(v);
        a_joined_item_is_there(items, ", "@, i);
        assert(items[i] == "\""@ + v[i].display() + "\""@);
        let at = choose|at: int| #[trigger] text::occurs_at(inside, items[i], at);
        reveal_strlit("[");
        assert(all.subrange(at + 1, at + 1 + items[i].len()) =~= inside.subrange(
            at,
            at + items[i].len(),
        ));
        assert(text::occurs_at(all, items[i], at + 1));
    }
    if 0 <= i < tasks.len() {
        let items = tasks.map_values(|t: HealthView| task_json(t));
        a_joined_item_is_there(items, ","@, i);
        assert(items[i] == task_json(tasks[i]));
    }
}

/// The verdict as JSON has the name and the parts that a verdict has.
pub proof fn a_verdict_is_spelled_out(luid: LuidKey, if_index: u32, total: u32)
    ensures
        verdict_json(Verdict::Ethernet { total }) == "Ethernet { total: "@ + text::dec(total as nat)
            + " }"@,
        verdict_json(Verdict::Wifi { total }) == "Wifi { total: "@ + text::dec(total as nat)
            + " }"@,
        verdict_json(Verdict::NoRoute) == "None"@,
        verdict_json((Verdict::Hijacked { luid, if_index, total })) == "Hijacked { luid: LuidKey("@
            + text::dec(luid.0 as nat) + "), if_index: "@ + text::dec(if_index as nat)
            + ", total: "@ + text::dec(total as nat) + " }"@,
{
}

} // verus!
